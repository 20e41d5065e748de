//! The progress of an assessment and the school period in which it is due,
//! each stored as a small integer.

use vstd::prelude::*;

verus! {

/// How far an assessment has come, stored as 0 to 4.
#[derive(Debug, Clone, Copy, PartialEq, Eq, Structural)]
pub enum AssessmentStatus {
    NotIssued,
    NotStarted,
    InProgress,
    Finished,
    ResultsReceived,
}

/// The stored number that is no status or period.
#[derive(Debug, Clone, Copy, PartialEq, Eq, Structural)]
pub struct OutOfRange;

impl AssessmentStatus {
    /// The number under which the status is stored.
    pub open spec fn code(self) -> int {
        match self {
            AssessmentStatus::NotIssued => 0,
            AssessmentStatus::NotStarted => 1,
            AssessmentStatus::InProgress => 2,
            AssessmentStatus::Finished => 3,
            AssessmentStatus::ResultsReceived => 4,
        }
    }

    /// The status stored under `value`, if there is one.
    pub open spec fn decoded(value: int) -> Option<AssessmentStatus> {
        if value == 0 {
            Some(AssessmentStatus::NotIssued)
        } else if value == 1 {
            Some(AssessmentStatus::NotStarted)
        } else if value == 2 {
            Some(AssessmentStatus::InProgress)
        } else if value == 3 {
            Some(AssessmentStatus::Finished)
        } else if value == 4 {
            Some(AssessmentStatus::ResultsReceived)
        } else {
            None
        }
    }

    /// The number under which the status is stored.
    pub fn to_u8(self) -> (r: u8)
        ensures
            r == self.code(),
            Self::decoded(r as int) == Some(self),
    {
        match self {
            AssessmentStatus::NotIssued => 0,
            AssessmentStatus::NotStarted => 1,
            AssessmentStatus::InProgress => 2,
            AssessmentStatus::Finished => 3,
            AssessmentStatus::ResultsReceived => 4,
        }
    }

    /// Reads a stored number; one above 4 is rejected.
    pub fn try_from(value: u8) -> (r: Result<AssessmentStatus, OutOfRange>)
        ensures
            r == match Self::decoded(value as int) {
                Some(s) => Ok::<AssessmentStatus, OutOfRange>(s),
                None => Err::<AssessmentStatus, OutOfRange>(OutOfRange),
            },
    {
        match value {
            0 => Ok(AssessmentStatus::NotIssued),
            1 => Ok(AssessmentStatus::NotStarted),
            2 => Ok(AssessmentStatus::InProgress),
            3 => Ok(AssessmentStatus::Finished),
            4 => Ok(AssessmentStatus::ResultsReceived),
            _ => Err(OutOfRange),
        }
    }

    /// Reads a stored number that is known to be a status.
    pub fn from(value: i16) -> (r: AssessmentStatus)
        requires
            Self::decoded(value as int).is_some(),
        ensures
            Some(r) == Self::decoded(value as int),
            r.code() == value,
    {
        if value == 0 {
            AssessmentStatus::NotIssued
        } else if value == 1 {
            AssessmentStatus::NotStarted
        } else if value == 2 {
            AssessmentStatus::InProgress
        } else if value == 3 {
            AssessmentStatus::Finished
        } else {
            AssessmentStatus::ResultsReceived
        }
    }

    /// Reads a stored number of any size, or says that it is no status.
    pub fn checked_from(value: i16) -> (r: Option<AssessmentStatus>)
        ensures
            r == Self::decoded(value as int),
    {
        if 0 <= value && value <= 4 {
            Some(Self::from(value))
        } else {
            None
        }
    }
}

/// The period of the school day in which an assessment is due, stored as 0
/// to 7: before school, roll call, periods one to four, after school,
/// midnight.
#[derive(Debug, Clone, Copy, PartialEq, Eq, Structural)]
pub enum DuePeriod {
    BS,
    RC,
    One,
    Two,
    Three,
    Four,
    AS,
    Midnight,
}

impl DuePeriod {
    /// The number under which the period is stored.
    pub open spec fn code(self) -> int {
        match self {
            DuePeriod::BS => 0,
            DuePeriod::RC => 1,
            DuePeriod::One => 2,
            DuePeriod::Two => 3,
            DuePeriod::Three => 4,
            DuePeriod::Four => 5,
            DuePeriod::AS => 6,
            DuePeriod::Midnight => 7,
        }
    }

    /// The period stored under `value`, if there is one.
    pub open spec fn decoded(value: int) -> Option<DuePeriod> {
        if value == 0 {
            Some(DuePeriod::BS)
        } else if value == 1 {
            Some(DuePeriod::RC)
        } else if value == 2 {
            Some(DuePeriod::One)
        } else if value == 3 {
            Some(DuePeriod::Two)
        } else if value == 4 {
            Some(DuePeriod::Three)
        } else if value == 5 {
            Some(DuePeriod::Four)
        } else if value == 6 {
            Some(DuePeriod::AS)
        } else if value == 7 {
            Some(DuePeriod::Midnight)
        } else {
            None
        }
    }

    /// The number under which the period is stored.
    pub fn to_u8(self) -> (r: u8)
        ensures
            r == self.code(),
            Self::decoded(r as int) == Some(self),
    {
        match self {
            DuePeriod::BS => 0,
            DuePeriod::RC => 1,
            DuePeriod::One => 2,
            DuePeriod::Two => 3,
            DuePeriod::Three => 4,
            DuePeriod::Four => 5,
            DuePeriod::AS => 6,
            DuePeriod::Midnight => 7,
        }
    }

    /// Reads a stored number; one above 7 is rejected.
    pub fn try_from(value: u8) -> (r: Result<DuePeriod, OutOfRange>)
        ensures
            r == match Self::decoded(value as int) {
                Some(p) => Ok::<DuePeriod, OutOfRange>(p),
                None => Err::<DuePeriod, OutOfRange>(OutOfRange),
            },
    {
        match value {
            0 => Ok(DuePeriod::BS),
            1 => Ok(DuePeriod::RC),
            2 => Ok(DuePeriod::One),
            3 => Ok(DuePeriod::Two),
            4 => Ok(DuePeriod::Three),
            5 => Ok(DuePeriod::Four),
            6 => Ok(DuePeriod::AS),
            7 => Ok(DuePeriod::Midnight),
            _ => Err(OutOfRange),
        }
    }

    /// Reads a stored number that is known to be a period.
    pub fn from(value: i16) -> (r: DuePeriod)
        requires
            Self::decoded(value as int).is_some(),
        ensures
            Some(r) == Self::decoded(value as int),
            r.code() == value,
    {
        if value == 0 {
            DuePeriod::BS
        } else if value == 1 {
            DuePeriod::RC
        } else if value == 2 {
            DuePeriod::One
        } else if value == 3 {
            DuePeriod::Two
        } else if value == 4 {
            DuePeriod::Three
        } else if value == 5 {
            DuePeriod::Four
        } else if value == 6 {
            DuePeriod::AS
        } else {
            DuePeriod::Midnight
        }
    }

    /// Reads a stored number of any size, or says that it is no period.
    pub fn checked_from(value: i16) -> (r: Option<DuePeriod>)
        ensures
            r == Self::decoded(value as int),
    {
        if 0 <= value && value <= 7 {
            Some(Self::from(value))
        } else {
            None
        }
    }
}

} // verus!
