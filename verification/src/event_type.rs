//! Event categories as delivered by the registry, with the derived
//! official/championship flags that drive the resolution cascade.

use vstd::prelude::*;

verus! {

/// The category of an event.  The registry transmits categories as integer
/// codes; codes outside the known list are kept verbatim in `Unknown`.
#[derive(Clone, Copy, Debug, PartialEq, Eq, Structural)]
pub enum EventType {
    Regional,
    District,
    DistrictCmp,
    CmpDivision,
    CmpFinals,
    DistrictCmpDivision,
    Foc,
    Remote,
    Offseason,
    Preseason,
    Unknown(i64),
}

impl EventType {
    /// The integer code of each known category, `Unknown` carrying its code
    /// verbatim.
    pub open spec fn spec_code(self) -> i64 {
        match self {
            EventType::Regional => 0,
            EventType::District => 1,
            EventType::DistrictCmp => 2,
            EventType::CmpDivision => 3,
            EventType::CmpFinals => 4,
            EventType::DistrictCmpDivision => 5,
            EventType::Foc => 6,
            EventType::Remote => 7,
            EventType::Offseason => 99,
            EventType::Preseason => 100,
            EventType::Unknown(v) => v,
        }
    }

    /// The category a registry code denotes.
    pub open spec fn spec_from_code(code: i64) -> EventType {
        if code == 0 {
            EventType::Regional
        } else if code == 1 {
            EventType::District
        } else if code == 2 {
            EventType::DistrictCmp
        } else if code == 3 {
            EventType::CmpDivision
        } else if code == 4 {
            EventType::CmpFinals
        } else if code == 5 {
            EventType::DistrictCmpDivision
        } else if code == 6 {
            EventType::Foc
        } else if code == 7 {
            EventType::Remote
        } else if code == 99 {
            EventType::Offseason
        } else if code == 100 {
            EventType::Preseason
        } else {
            EventType::Unknown(code)
        }
    }

    /// Decode a registry code.
    pub fn from_code(code: i64) -> (r: EventType)
        ensures
            r == EventType::spec_from_code(code),
    {
        match code {
            0 => EventType::Regional,
            1 => EventType::District,
            2 => EventType::DistrictCmp,
            3 => EventType::CmpDivision,
            4 => EventType::CmpFinals,
            5 => EventType::DistrictCmpDivision,
            6 => EventType::Foc,
            7 => EventType::Remote,
            99 => EventType::Offseason,
            100 => EventType::Preseason,
            other => EventType::Unknown(other),
        }
    }

    /// Encode back to the registry's integer code.
    pub fn code(self) -> (r: i64)
        ensures
            r == self.spec_code(),
    {
        match self {
            EventType::Regional => 0,
            EventType::District => 1,
            EventType::DistrictCmp => 2,
            EventType::CmpDivision => 3,
            EventType::CmpFinals => 4,
            EventType::DistrictCmpDivision => 5,
            EventType::Foc => 6,
            EventType::Remote => 7,
            EventType::Offseason => 99,
            EventType::Preseason => 100,
            EventType::Unknown(v) => v,
        }
    }

    /// Whether the category is one of the championship rounds.
    pub open spec fn spec_is_championship(self) -> bool {
        self == EventType::CmpDivision || self == EventType::CmpFinals
    }

    /// Whether the category belongs to the competitive season.  Offseason and
    /// preseason exhibitions, and unknown categories, do not.
    pub open spec fn spec_is_official(self) -> bool {
        self == EventType::Regional || self == EventType::District
            || self == EventType::DistrictCmpDivision || self == EventType::DistrictCmp
            || self == EventType::CmpDivision || self == EventType::CmpFinals
            || self == EventType::Foc || self == EventType::Remote
    }

    pub fn is_championship(self) -> (r: bool)
        ensures
            r == self.spec_is_championship(),
    {
        match self {
            EventType::CmpDivision | EventType::CmpFinals => true,
            _ => false,
        }
    }

    pub fn is_official(self) -> (r: bool)
        ensures
            r == self.spec_is_official(),
    {
        match self {
            EventType::Regional | EventType::District | EventType::DistrictCmp
                | EventType::CmpDivision | EventType::CmpFinals
                | EventType::DistrictCmpDivision | EventType::Foc | EventType::Remote => true,
            _ => false,
        }
    }
}

/// Decoding a code and encoding the result gives the code back, whatever the
/// code was.
pub proof fn lemma_code_round_trip(code: i64)
    ensures
        EventType::spec_from_code(code).spec_code() == code,
{
}

} // verus!
