//! How a stop of a trip stands against the timetable.

use vstd::prelude::*;

use crate::duplicate::Duplicate;

verus! {

/// How a stop of a trip stands against the timetable.
#[derive(Debug, Clone, Copy, PartialEq, Eq, Structural)]
pub enum ScheduleRelationship {
    /// As planned.
    Scheduled,
    /// Not served.
    Skipped,
    /// Not known.
    NoData,
    /// Without a timetable.
    Unscheduled,
}

impl DeepView for ScheduleRelationship {
    type V = ScheduleRelationship;

    open spec fn deep_view(&self) -> ScheduleRelationship {
        *self
    }
}

impl Duplicate for ScheduleRelationship {
    fn duplicate(&self) -> (r: Self) {
        *self
    }
}

impl ScheduleRelationship {
    /// The meaning of a code in the feed.
    pub open spec fn coded(code: int) -> Option<ScheduleRelationship> {
        if code == 0 {
            Some(ScheduleRelationship::Scheduled)
        } else if code == 1 {
            Some(ScheduleRelationship::Skipped)
        } else if code == 2 {
            Some(ScheduleRelationship::NoData)
        } else if code == 3 {
            Some(ScheduleRelationship::Unscheduled)
        } else {
            None
        }
    }

    /// The meaning of a code in the feed.
    pub fn from_code(code: i32) -> (r: Option<ScheduleRelationship>)
        ensures
            r == ScheduleRelationship::coded(code as int),
    {
        match code {
            0 => Some(ScheduleRelationship::Scheduled),
            1 => Some(ScheduleRelationship::Skipped),
            2 => Some(ScheduleRelationship::NoData),
            3 => Some(ScheduleRelationship::Unscheduled),
            _ => None,
        }
    }

    /// The name of the value.
    pub open spec fn name(self) -> Seq<char> {
        match self {
            ScheduleRelationship::Scheduled => "Scheduled"@,
            ScheduleRelationship::Skipped => "Skipped"@,
            ScheduleRelationship::NoData => "NoData"@,
            ScheduleRelationship::Unscheduled => "Unscheduled"@,
        }
    }

    /// The name of the value.
    pub fn as_str(&self) -> (r: &'static str)
        ensures
            r@ == self.name(),
    {
        match self {
            ScheduleRelationship::Scheduled => "Scheduled",
            ScheduleRelationship::Skipped => "Skipped",
            ScheduleRelationship::NoData => "NoData",
            ScheduleRelationship::Unscheduled => "Unscheduled",
        }
    }
}

/// Each code stands for one relationship, and other codes for none.
pub proof fn law_codes_of_relationships(code: int)
    ensures
        ({
            let r = ScheduleRelationship::coded(code);
            &&& code == 0 <==> r == Some(ScheduleRelationship::Scheduled)
            &&& code == 1 <==> r == Some(ScheduleRelationship::Skipped)
            &&& code == 2 <==> r == Some(ScheduleRelationship::NoData)
            &&& code == 3 <==> r == Some(ScheduleRelationship::Unscheduled)
        }),
{
}

/// Each relationship is told by its own name.
pub proof fn law_names_of_relationships()
    ensures
        ScheduleRelationship::coded(0)->0.name() == "Scheduled"@,
        ScheduleRelationship::coded(1)->0.name() == "Skipped"@,
        ScheduleRelationship::coded(2)->0.name() == "NoData"@,
        ScheduleRelationship::coded(3)->0.name() == "Unscheduled"@,
{
}

} // verus!
