//! How a trip stands against the timetable.

use vstd::prelude::*;

use crate::duplicate::Duplicate;

verus! {

/// How a trip stands against the timetable.
#[derive(Debug, Clone, Copy, PartialEq, Eq, Structural)]
pub enum ScheduleRelationship {
    /// As planned.
    Scheduled,
    /// Added to the timetable.
    Added,
    /// Without a timetable.
    Unscheduled,
    /// Does not run.
    Canceled,
    /// Replaces another trip.
    Replaced,
    /// Copies another trip.
    Duplicated,
    /// Removed.
    Deleted,
}

impl DeepView for ScheduleRelationship {
    type V = ScheduleRelationship;

    open spec fn deep_view(&self) -> ScheduleRelationship {
        *self
    }
}

impl Duplicate for ScheduleRelationship {
    fn duplicate(&self) -> (r: Self) {
        *self
    }
}

impl ScheduleRelationship {
    /// The meaning of a code in the feed.
    pub open spec fn coded(code: int) -> Option<ScheduleRelationship> {
        if code == 0 {
            Some(ScheduleRelationship::Scheduled)
        } else if code == 1 {
            Some(ScheduleRelationship::Added)
        } else if code == 2 {
            Some(ScheduleRelationship::Unscheduled)
        } else if code == 3 {
            Some(ScheduleRelationship::Canceled)
        } else if code == 5 {
            Some(ScheduleRelationship::Replaced)
        } else if code == 6 {
            Some(ScheduleRelationship::Duplicated)
        } else if code == 7 {
            Some(ScheduleRelationship::Deleted)
        } else {
            None
        }
    }

    /// The meaning of a code in the feed.
    pub fn from_code(code: i32) -> (r: Option<ScheduleRelationship>)
        ensures
            r == ScheduleRelationship::coded(code as int),
    {
        match code {
            0 => Some(ScheduleRelationship::Scheduled),
            1 => Some(ScheduleRelationship::Added),
            2 => Some(ScheduleRelationship::Unscheduled),
            3 => Some(ScheduleRelationship::Canceled),
            5 => Some(ScheduleRelationship::Replaced),
            6 => Some(ScheduleRelationship::Duplicated),
            7 => Some(ScheduleRelationship::Deleted),
            _ => None,
        }
    }
}

/// Each code stands for one relationship, and other codes for none.
pub proof fn law_codes_of_relationships(code: int)
    ensures
        ({
            let r = ScheduleRelationship::coded(code);
            &&& code == 0 <==> r == Some(ScheduleRelationship::Scheduled)
            &&& code == 1 <==> r == Some(ScheduleRelationship::Added)
            &&& code == 2 <==> r == Some(ScheduleRelationship::Unscheduled)
            &&& code == 3 <==> r == Some(ScheduleRelationship::Canceled)
            &&& code == 5 <==> r == Some(ScheduleRelationship::Replaced)
            &&& code == 6 <==> r == Some(ScheduleRelationship::Duplicated)
            &&& code == 7 <==> r == Some(ScheduleRelationship::Deleted)
        }),
{
}

} // verus!
