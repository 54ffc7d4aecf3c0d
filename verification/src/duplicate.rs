//! Copies that are known to be equal to what they were made from.

use vstd::prelude::*;

verus! {

/// A value that can be copied without loss.
pub trait Duplicate: DeepView + Sized {
    /// A copy with the same view.
    fn duplicate(&self) -> (r: Self)
        ensures
            r.deep_view() == self.deep_view(),
    ;
}

impl Duplicate for String {
    fn duplicate(&self) -> (r: Self) {
        self.clone()
    }
}

impl Duplicate for bool {
    fn duplicate(&self) -> (r: Self) {
        *self
    }
}

impl Duplicate for char {
    fn duplicate(&self) -> (r: Self) {
        *self
    }
}

impl Duplicate for i32 {
    fn duplicate(&self) -> (r: Self) {
        *self
    }
}

impl Duplicate for u32 {
    fn duplicate(&self) -> (r: Self) {
        *self
    }
}

impl Duplicate for i64 {
    fn duplicate(&self) -> (r: Self) {
        *self
    }
}

impl Duplicate for u64 {
    fn duplicate(&self) -> (r: Self) {
        *self
    }
}

impl<T: Duplicate> Duplicate for Option<T> {
    fn duplicate(&self) -> (r: Self) {
        match self {
            Some(t) => Some(t.duplicate()),
            None => None,
        }
    }
}

impl<T: Duplicate> Duplicate for Vec<T> {
    fn duplicate(&self) -> (r: Self) {
        let mut out: Vec<T> = Vec::new();
        let mut i: usize = 0;
        while i < self.len()
            invariant
                i <= self@.len(),
                out.deep_view() == self.deep_view().take(i as int),
            decreases self@.len() - i,
        {
            let ghost before = out.deep_view();
            out.push(self[i].duplicate());
            assert(out.deep_view() =~= before.push(self@[i as int].deep_view()));
            i += 1;
            assert(out.deep_view() =~= self.deep_view().take(i as int));
        }
        assert(self.deep_view().take(i as int) =~= self.deep_view());
        out
    }
}

} // verus!
