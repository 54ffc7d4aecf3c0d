//! Texts in several languages.

use vstd::prelude::*;

use crate::duplicate::Duplicate;

verus! {

/// A text in a language.
#[derive(Debug)]
pub struct Translation {
    /// The text.
    pub text: Option<String>,
    /// The language.
    pub language: Option<String>,
}

/// The view of a [`Translation`].
#[verifier::ext_equal]
pub struct TranslationView {
    pub text: Option<Seq<char>>,
    pub language: Option<Seq<char>>,
}

impl DeepView for Translation {
    type V = TranslationView;

    open spec fn deep_view(&self) -> TranslationView {
        TranslationView {
            text: self.text.deep_view(),
            language: self.language.deep_view(),
        }
    }
}

impl Duplicate for Translation {
    fn duplicate(&self) -> (r: Self) {
        Translation {
            text: self.text.duplicate(),
            language: self.language.duplicate(),
        }
    }
}

impl Clone for Translation {
    fn clone(&self) -> (r: Self)
        ensures
            r.deep_view() == self.deep_view(),
    {
        self.duplicate()
    }
}

} // verus!
