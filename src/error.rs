//! The errors that parsing reports.

use vstd::prelude::*;

verus! {

/// What went wrong, by section, with a message that names the offending text.
#[derive(Debug)]
pub enum EPWParseError {
    FileNotFound(String),
    UnexpectedData(String),
    Location(String),
    GroundTemperature(String),
    HolidayDaylightSavings(String),
    DataPeriods(String),
    TypicalExtremePeriods(String),
    DesignConditions(String),
    Data(String),
}

} // verus!
