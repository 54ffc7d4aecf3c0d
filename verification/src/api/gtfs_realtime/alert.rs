//! What an alert is about.

use vstd::prelude::*;

use crate::duplicate::Duplicate;

verus! {

/// Why service is disrupted.
#[derive(Debug, Clone, Copy, PartialEq, Eq, Structural)]
pub enum Cause {
    /// Not known.
    UnknownCause,
    /// None of these.
    OtherCause,
    /// A technical problem.
    TechnicalProblem,
    /// A strike.
    Strike,
    /// A demonstration.
    Demonstration,
    /// An accident.
    Accident,
    /// A holiday.
    Holiday,
    /// The weather.
    Weather,
    /// Maintenance.
    Maintenance,
    /// Construction.
    Construction,
    /// The police.
    PoliceActivity,
    /// An emergency.
    MedicalEmergency,
}

impl DeepView for Cause {
    type V = Cause;

    open spec fn deep_view(&self) -> Cause {
        *self
    }
}

impl Duplicate for Cause {
    fn duplicate(&self) -> (r: Self) {
        *self
    }
}

impl Cause {
    /// The meaning of a code in the feed.
    pub open spec fn coded(code: int) -> Option<Cause> {
        if code == 1 {
            Some(Cause::UnknownCause)
        } else if code == 2 {
            Some(Cause::OtherCause)
        } else if code == 3 {
            Some(Cause::TechnicalProblem)
        } else if code == 4 {
            Some(Cause::Strike)
        } else if code == 5 {
            Some(Cause::Demonstration)
        } else if code == 6 {
            Some(Cause::Accident)
        } else if code == 7 {
            Some(Cause::Holiday)
        } else if code == 8 {
            Some(Cause::Weather)
        } else if code == 9 {
            Some(Cause::Maintenance)
        } else if code == 10 {
            Some(Cause::Construction)
        } else if code == 11 {
            Some(Cause::PoliceActivity)
        } else if code == 12 {
            Some(Cause::MedicalEmergency)
        } else {
            None
        }
    }

    /// The meaning of a code in the feed.
    pub fn from_code(code: i32) -> (r: Option<Cause>)
        ensures
            r == Cause::coded(code as int),
    {
        match code {
            1 => Some(Cause::UnknownCause),
            2 => Some(Cause::OtherCause),
            3 => Some(Cause::TechnicalProblem),
            4 => Some(Cause::Strike),
            5 => Some(Cause::Demonstration),
            6 => Some(Cause::Accident),
            7 => Some(Cause::Holiday),
            8 => Some(Cause::Weather),
            9 => Some(Cause::Maintenance),
            10 => Some(Cause::Construction),
            11 => Some(Cause::PoliceActivity),
            12 => Some(Cause::MedicalEmergency),
            _ => None,
        }
    }

    /// The name of the value.
    pub open spec fn name(self) -> Seq<char> {
        match self {
            Cause::UnknownCause => "UnknownCause"@,
            Cause::OtherCause => "OtherCause"@,
            Cause::TechnicalProblem => "TechnicalProblem"@,
            Cause::Strike => "Strike"@,
            Cause::Demonstration => "Demonstration"@,
            Cause::Accident => "Accident"@,
            Cause::Holiday => "Holiday"@,
            Cause::Weather => "Weather"@,
            Cause::Maintenance => "Maintenance"@,
            Cause::Construction => "Construction"@,
            Cause::PoliceActivity => "PoliceActivity"@,
            Cause::MedicalEmergency => "MedicalEmergency"@,
        }
    }

    /// The name of the value.
    pub fn as_str(&self) -> (r: &'static str)
        ensures
            r@ == self.name(),
    {
        match self {
            Cause::UnknownCause => "UnknownCause",
            Cause::OtherCause => "OtherCause",
            Cause::TechnicalProblem => "TechnicalProblem",
            Cause::Strike => "Strike",
            Cause::Demonstration => "Demonstration",
            Cause::Accident => "Accident",
            Cause::Holiday => "Holiday",
            Cause::Weather => "Weather",
            Cause::Maintenance => "Maintenance",
            Cause::Construction => "Construction",
            Cause::PoliceActivity => "PoliceActivity",
            Cause::MedicalEmergency => "MedicalEmergency",
        }
    }
}

/// What the disruption does to service.
#[derive(Debug, Clone, Copy, PartialEq, Eq, Structural)]
pub enum Effect {
    /// No service.
    NoService,
    /// Less service.
    ReducedService,
    /// Delays.
    SignificantDelays,
    /// Another way.
    Detour,
    /// More service.
    AdditionalService,
    /// Other service.
    ModifiedService,
    /// None of these.
    OtherEffect,
    /// Not known.
    UnknownEffect,
    /// A stop is elsewhere.
    StopMoved,
    /// Nothing.
    NoEffect,
    /// Access is restricted.
    AccessibilityIssue,
}

impl DeepView for Effect {
    type V = Effect;

    open spec fn deep_view(&self) -> Effect {
        *self
    }
}

impl Duplicate for Effect {
    fn duplicate(&self) -> (r: Self) {
        *self
    }
}

/// Each code stands for one cause, and other codes for none.
pub proof fn law_codes_of_causes(code: int)
    ensures
        ({
            let r = Cause::coded(code);
            &&& code == 1 <==> r == Some(Cause::UnknownCause)
            &&& code == 2 <==> r == Some(Cause::OtherCause)
            &&& code == 3 <==> r == Some(Cause::TechnicalProblem)
            &&& code == 4 <==> r == Some(Cause::Strike)
            &&& code == 5 <==> r == Some(Cause::Demonstration)
            &&& code == 6 <==> r == Some(Cause::Accident)
            &&& code == 7 <==> r == Some(Cause::Holiday)
            &&& code == 8 <==> r == Some(Cause::Weather)
            &&& code == 9 <==> r == Some(Cause::Maintenance)
            &&& code == 10 <==> r == Some(Cause::Construction)
            &&& code == 11 <==> r == Some(Cause::PoliceActivity)
            &&& code == 12 <==> r == Some(Cause::MedicalEmergency)
        }),
{
}

/// Each cause is told by its own name.
pub proof fn law_names_of_causes()
    ensures
        Cause::coded(1)->0.name() == "UnknownCause"@,
        Cause::coded(2)->0.name() == "OtherCause"@,
        Cause::coded(3)->0.name() == "TechnicalProblem"@,
        Cause::coded(4)->0.name() == "Strike"@,
        Cause::coded(5)->0.name() == "Demonstration"@,
        Cause::coded(6)->0.name() == "Accident"@,
        Cause::coded(7)->0.name() == "Holiday"@,
        Cause::coded(8)->0.name() == "Weather"@,
        Cause::coded(9)->0.name() == "Maintenance"@,
        Cause::coded(10)->0.name() == "Construction"@,
        Cause::coded(11)->0.name() == "PoliceActivity"@,
        Cause::coded(12)->0.name() == "MedicalEmergency"@,
{
}

} // verus!
