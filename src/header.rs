//! The eight header lines of an EPW file. Each line starts with a tag that
//! names its section; the fields after the tag are separated by commas.

use crate::error::EPWParseError;
use crate::number::{
    number_value, opt_model, opt_wf, parse_number, parse_unsigned, unsigned_value, whole_part,
    whole_part_within, Number, NumberModel,
};
use crate::text::{
    after_first, chars_of, concat, decimal_chars, decimal_text, has_prefix, join_commas, join_from,
    message, same_text, split_fields, split_on, starts_with, string_of, text_after_first, views,
};
use crate::time::offset_exists;
use vstd::prelude::*;

verus! {

pub const LOCATION_KEY: &'static str = "LOCATION";

pub const DESIGN_CONDITIONS_KEY: &'static str = "DESIGN CONDITIONS";

pub const TYPICAL_EXTREME_PERIODS_KEY: &'static str = "TYPICAL/EXTREME PERIODS";

pub const GROUND_TEMPERATURES_KEY: &'static str = "GROUND TEMPERATURES";

pub const HOLIDAYS_DAYLIGHT_SAVINGS_KEY: &'static str = "HOLIDAYS/DAYLIGHT SAVINGS";

pub const COMMENTS_KEY: &'static str = "COMMENTS";

pub const DATA_PERIODS_KEY: &'static str = "DATA PERIODS";

#[derive(Debug, Clone, Copy, PartialEq, Eq, Structural)]
pub enum DayOfWeek {
    Sunday,
    Monday,
    Tuesday,
    Wednesday,
    Thursday,
    Friday,
    Saturday,
}

#[derive(Debug, Clone, Copy, PartialEq, Eq, Structural)]
pub enum PeriodType {
    Typical,
    Extreme,
}

/// Where the weather was recorded. `time_zone` is the offset east of UTC in
/// seconds, a whole number of hours.
#[derive(Debug)]
pub struct Location {
    pub city: String,
    pub state_province_region: String,
    pub country: String,
    pub source: String,
    pub wmo: String,
    pub latitude: Number,
    pub longitude: Number,
    pub time_zone: i32,
    pub elevation: Number,
}

/// Monthly mean ground temperatures at one depth, with the soil properties
/// where the file gives them.
#[derive(Debug)]
pub struct GroundTemperatureSample {
    pub depth: Number,
    pub soil_conductivity: Option<Number>,
    pub soil_density: Option<Number>,
    pub soil_specific_heat: Option<Number>,
    pub january: Number,
    pub february: Number,
    pub march: Number,
    pub april: Number,
    pub may: Number,
    pub june: Number,
    pub july: Number,
    pub august: Number,
    pub september: Number,
    pub october: Number,
    pub november: Number,
    pub december: Number,
}

#[derive(Debug)]
pub struct Holiday {
    pub date: String,
    pub name: String,
}

#[derive(Debug)]
pub struct HolidayDaylightSavings {
    pub leap_year: bool,
    pub daylight_savings_start: String,
    pub daylight_savings_end: String,
    pub holidays: Vec<Holiday>,
}

#[derive(Debug)]
pub struct DataPeriod {
    pub name: String,
    pub start_day_of_week: DayOfWeek,
    pub start_day: String,
    pub end_day: String,
}

#[derive(Debug)]
pub struct TypicalExtremePeriod {
    pub name: String,
    pub period_type: PeriodType,
    pub start: String,
    pub end: String,
}

#[derive(Debug)]
pub struct DataPeriods {
    pub records_per_hour: usize,
    pub periods: Vec<DataPeriod>,
}

/// EPW file header.
#[derive(Debug)]
pub struct Header {
    pub location: Location,
    pub design_conditions: Option<Vec<String>>,
    pub typical_extreme_periods: Vec<TypicalExtremePeriod>,
    pub ground_temperatures: Vec<GroundTemperatureSample>,
    pub holidays_daylight_savings: HolidayDaylightSavings,
    pub comments: Vec<String>,
    pub data_periods: DataPeriods,
}

impl Header {
    /// Parses the header from the first eight of `lines`, as [`parse_header`].
    pub fn parse(lines: &Vec<String>) -> (r: Result<Header, EPWParseError>)
        ensures
            r is Ok <==> header_ok(header_lines(lines@)),
            r matches Ok(hd) ==> header_matches(hd, header_lines(lines@)),
            r matches Err(e) ==> header_error(e, header_lines(lines@)),
    {
        parse_header(lines)
    }
}

/// The text of each string.
pub open spec fn string_views(v: Seq<String>) -> Seq<Seq<char>> {
    v.map_values(|x: String| x@)
}

/// A count written as an unsigned integer that fits in `usize`.
pub open spec fn usize_value(s: Seq<char>) -> Option<nat> {
    match unsigned_value(s) {
        Some(v) => if v <= usize::MAX {
            Some(v)
        } else {
            None
        },
        None => None,
    }
}

/// The count in field `i`, zero when it is not one.
pub open spec fn count_at(f: Seq<Seq<char>>, i: int) -> nat {
    match usize_value(f[i]) {
        Some(n) => n,
        None => 0,
    }
}

/// "`what` at index `idx`: `text`".
pub open spec fn indexed_text(what: Seq<char>, idx: nat, text: Seq<char>) -> Seq<char> {
    what + " at index "@ + decimal_chars(idx) + ": "@ + text
}

/// "Not enough data for `what` at index `idx`: `rest`", where `rest` is the
/// fields from `base` on, joined by commas.
pub open spec fn shortage_text(what: Seq<char>, idx: nat, f: Seq<Seq<char>>, base: int) -> Seq<char> {
    indexed_text("Not enough data for "@ + what, idx, join_commas(f.skip(base)))
}

fn indexed_chars(what: &Vec<char>, idx: usize, text: &Vec<char>) -> (r: String)
    ensures
        r@ == indexed_text(what@, idx as nat, text@),
{
    let mut out = concat(what, &chars_of(" at index "));
    out = concat(&out, &decimal_text(idx as u64));
    out = concat(&out, &chars_of(": "));
    out = concat(&out, text);
    string_of(&out)
}

fn indexed_message(what: &str, idx: usize, text: &Vec<char>) -> (r: String)
    ensures
        r@ == indexed_text(what@, idx as nat, text@),
{
    indexed_chars(&chars_of(what), idx, text)
}

fn shortage(what: &str, idx: usize, f: &Vec<Vec<char>>, base: usize) -> (r: String)
    requires
        base <= f.len(),
    ensures
        r@ == shortage_text(what@, idx as nat, views(f@), base as int),
{
    let head = concat(&chars_of("Not enough data for "), &chars_of(what));
    indexed_chars(&head, idx, &join_from(f, base))
}

// Typical/extreme periods: a count, then four fields per period.

pub open spec fn period_type_of(s: Seq<char>) -> Option<PeriodType> {
    if s == "Typical"@ {
        Some(PeriodType::Typical)
    } else if s == "Extreme"@ {
        Some(PeriodType::Extreme)
    } else {
        None
    }
}

pub open spec fn typical_kind_at(f: Seq<Seq<char>>, i: int) -> Option<PeriodType> {
    period_type_of(f[(2 + 4 * i + 1) as int])
}

pub open spec fn typical_extreme_ok(f: Seq<Seq<char>>) -> bool {
    &&& f.len() >= 2
    &&& usize_value(f[1]) is Some
    &&& f.len() >= 2 + 4 * count_at(f, 1)
    &&& forall|i: int| 0 <= i < count_at(f, 1) ==> (#[trigger] typical_kind_at(f, i)) is Some
}

/// The message of the first period from `i` on that fails.
pub open spec fn typical_failure(f: Seq<Seq<char>>, n: nat, i: nat) -> Seq<char>
    decreases n - i,
{
    if i >= n {
        Seq::empty()
    } else if f.len() < 2 + 4 * (i + 1) {
        shortage_text("period"@, i, f, (2 + 4 * i) as int)
    } else if typical_kind_at(f, i as int) is None {
        indexed_text("Invalid period type"@, i, f[(2 + 4 * i + 1) as int])
    } else {
        typical_failure(f, n, i + 1)
    }
}

/// The message of a `TYPICAL/EXTREME PERIODS` line that does not parse.
pub open spec fn typical_extreme_message(line: Seq<char>) -> Seq<char> {
    let f = split_on(line, ',');
    if f.len() < 2 {
        "Invalid period count: "@ + line
    } else if usize_value(f[1]) is None {
        "Invalid period count: "@ + f[1]
    } else {
        typical_failure(f, count_at(f, 1), 0)
    }
}

pub open spec fn typical_period_matches(p: TypicalExtremePeriod, f: Seq<Seq<char>>, i: int) -> bool {
    let base = 2 + 4 * i;
    &&& p.name@ == f[base]
    &&& Some(p.period_type) == period_type_of(f[base + 1])
    &&& p.start@ == f[base + 2]
    &&& p.end@ == f[base + 3]
}

pub open spec fn typical_extreme_matches(r: Seq<TypicalExtremePeriod>, f: Seq<Seq<char>>) -> bool {
    &&& r.len() == count_at(f, 1)
    &&& forall|i: int| 0 <= i < r.len() ==> typical_period_matches(#[trigger] r[i], f, i)
}

/// Parses a `TYPICAL/EXTREME PERIODS` line: a period count, then name, kind
/// (`Typical` or `Extreme`), start and end for each period.
pub fn _parse_typical_extreme_periods(line: &str) -> (r: Result<Vec<TypicalExtremePeriod>, EPWParseError>)
    requires
        starts_with(line@, TYPICAL_EXTREME_PERIODS_KEY@),
    ensures
        r is Ok <==> typical_extreme_ok(split_on(line@, ',')),
        r matches Ok(v) ==> typical_extreme_matches(v@, split_on(line@, ',')),
        r matches Err(e) ==> e matches EPWParseError::TypicalExtremePeriods(m) && m@ == typical_extreme_message(line@),
{
    let chars = chars_of(line);
    let f = split_fields(&chars, ',');
    let ghost fs = split_on(line@, ',');
    if f.len() < 2 {
        return Err(EPWParseError::TypicalExtremePeriods(message("Invalid period count: ", &chars)));
    }
    let n: usize = match parse_unsigned(&f[1], usize::MAX as u64) {
        Some(v) => v as usize,
        None => {
            return Err(EPWParseError::TypicalExtremePeriods(message("Invalid period count: ", &f[1])));
        },
    };
    assert(fs[1] == f@[1]@);
    assert(count_at(fs, 1) == n);
    let mut periods: Vec<TypicalExtremePeriod> = Vec::new();
    let mut idx: usize = 0;
    let mut base: usize = 2;
    while idx < n
        invariant
            fs == views(f@),
            fs == split_on(line@, ','),
            fs.len() >= 2,
            count_at(fs, 1) == n,
            usize_value(fs[1]) is Some,
            idx <= n,
            base == 2 + 4 * idx,
            typical_failure(fs, n as nat, 0) == typical_failure(fs, n as nat, idx as nat),
            base <= f.len(),
            periods.len() == idx,
            forall|j: int| 0 <= j < idx ==> (#[trigger] typical_kind_at(fs, j)) is Some,
            forall|j: int| 0 <= j < idx ==> typical_period_matches(#[trigger] periods@[j], fs, j),
        decreases n - idx,
    {
        if f.len() - base < 4 {
            assert(f.len() < 2 + 4 * n) by (nonlinear_arith)
                requires
                    f.len() < base + 4,
                    base == 2 + 4 * idx,
                    idx < n,
            ;
            return Err(EPWParseError::TypicalExtremePeriods(shortage("period", idx, &f, base)));
        }
        assert(fs[base + 1] == f@[base + 1]@);
        let period_type = if same_text(&f[base + 1], "Typical") {
            PeriodType::Typical
        } else if same_text(&f[base + 1], "Extreme") {
            PeriodType::Extreme
        } else {
            assert(typical_kind_at(fs, idx as int) is None);
            return Err(EPWParseError::TypicalExtremePeriods(indexed_message("Invalid period type", idx, &f[base + 1])));
        };
        assert(typical_kind_at(fs, idx as int) == Some(period_type));
        let period = TypicalExtremePeriod {
            name: string_of(&f[base]),
            period_type,
            start: string_of(&f[base + 2]),
            end: string_of(&f[base + 3]),
        };
        periods.push(period);
        idx += 1;
        base += 4;
    }
    Ok(periods)
}

// Data periods: a count and the records per hour, then four fields per period.

pub open spec fn day_of_week_of(s: Seq<char>) -> Option<DayOfWeek> {
    if s == "Sunday"@ {
        Some(DayOfWeek::Sunday)
    } else if s == "Monday"@ {
        Some(DayOfWeek::Monday)
    } else if s == "Tuesday"@ {
        Some(DayOfWeek::Tuesday)
    } else if s == "Wednesday"@ {
        Some(DayOfWeek::Wednesday)
    } else if s == "Thursday"@ {
        Some(DayOfWeek::Thursday)
    } else if s == "Friday"@ {
        Some(DayOfWeek::Friday)
    } else if s == "Saturday"@ {
        Some(DayOfWeek::Saturday)
    } else {
        None
    }
}

fn day_of_week(s: &Vec<char>) -> (r: Option<DayOfWeek>)
    ensures
        r == day_of_week_of(s@),
{
    if same_text(s, "Sunday") {
        Some(DayOfWeek::Sunday)
    } else if same_text(s, "Monday") {
        Some(DayOfWeek::Monday)
    } else if same_text(s, "Tuesday") {
        Some(DayOfWeek::Tuesday)
    } else if same_text(s, "Wednesday") {
        Some(DayOfWeek::Wednesday)
    } else if same_text(s, "Thursday") {
        Some(DayOfWeek::Thursday)
    } else if same_text(s, "Friday") {
        Some(DayOfWeek::Friday)
    } else if same_text(s, "Saturday") {
        Some(DayOfWeek::Saturday)
    } else {
        None
    }
}

pub open spec fn data_day_at(f: Seq<Seq<char>>, i: int) -> Option<DayOfWeek> {
    day_of_week_of(f[(3 + 4 * i + 1) as int])
}

pub open spec fn data_periods_ok(f: Seq<Seq<char>>) -> bool {
    &&& f.len() >= 3
    &&& usize_value(f[1]) is Some
    &&& usize_value(f[2]) is Some
    &&& f.len() >= 3 + 4 * count_at(f, 1)
    &&& forall|i: int| 0 <= i < count_at(f, 1) ==> (#[trigger] data_day_at(f, i)) is Some
}

/// The message of the first period from `i` on that fails.
pub open spec fn data_failure(f: Seq<Seq<char>>, n: nat, i: nat) -> Seq<char>
    decreases n - i,
{
    if i >= n {
        Seq::empty()
    } else if f.len() < 3 + 4 * (i + 1) {
        shortage_text("period"@, i, f, (3 + 4 * i) as int)
    } else if data_day_at(f, i as int) is None {
        indexed_text("Invalid day of week"@, i, f[(3 + 4 * i + 1) as int])
    } else {
        data_failure(f, n, i + 1)
    }
}

/// The message of a `DATA PERIODS` line that does not parse.
pub open spec fn data_periods_message(line: Seq<char>) -> Seq<char> {
    let f = split_on(line, ',');
    if f.len() < 3 {
        "Invalid Data Periods Line: "@ + line
    } else if usize_value(f[1]) is None {
        "Invalid period count: "@ + f[1]
    } else if usize_value(f[2]) is None {
        "Invalid records per hour: "@ + f[2]
    } else {
        data_failure(f, count_at(f, 1), 0)
    }
}

pub open spec fn data_period_matches(p: DataPeriod, f: Seq<Seq<char>>, i: int) -> bool {
    let base = 3 + 4 * i;
    &&& p.name@ == f[base]
    &&& Some(p.start_day_of_week) == day_of_week_of(f[base + 1])
    &&& p.start_day@ == f[base + 2]
    &&& p.end_day@ == f[base + 3]
}

pub open spec fn data_periods_matches(r: DataPeriods, f: Seq<Seq<char>>) -> bool {
    &&& r.records_per_hour == count_at(f, 2)
    &&& r.periods@.len() == count_at(f, 1)
    &&& forall|i: int| 0 <= i < r.periods@.len() ==> data_period_matches(#[trigger] r.periods@[i], f, i)
}

/// Parses a `DATA PERIODS` line: a period count and the records per hour,
/// then name, starting weekday, start day and end day for each period.
pub fn _parse_data_periods(line: &str) -> (r: Result<DataPeriods, EPWParseError>)
    requires
        starts_with(line@, DATA_PERIODS_KEY@),
    ensures
        r is Ok <==> data_periods_ok(split_on(line@, ',')),
        r matches Ok(v) ==> data_periods_matches(v, split_on(line@, ',')),
        r matches Err(e) ==> e matches EPWParseError::DataPeriods(m) && m@ == data_periods_message(line@),
{
    let chars = chars_of(line);
    let f = split_fields(&chars, ',');
    let ghost fs = split_on(line@, ',');
    if f.len() < 3 {
        return Err(EPWParseError::DataPeriods(message("Invalid Data Periods Line: ", &chars)));
    }
    let n: usize = match parse_unsigned(&f[1], usize::MAX as u64) {
        Some(v) => v as usize,
        None => {
            return Err(EPWParseError::DataPeriods(message("Invalid period count: ", &f[1])));
        },
    };
    let records_per_hour: usize = match parse_unsigned(&f[2], usize::MAX as u64) {
        Some(v) => v as usize,
        None => {
            return Err(EPWParseError::DataPeriods(message("Invalid records per hour: ", &f[2])));
        },
    };
    assert(fs[1] == f@[1]@ && fs[2] == f@[2]@);
    let mut periods: Vec<DataPeriod> = Vec::new();
    let mut idx: usize = 0;
    let mut base: usize = 3;
    while idx < n
        invariant
            fs == views(f@),
            fs == split_on(line@, ','),
            fs.len() >= 3,
            count_at(fs, 1) == n,
            usize_value(fs[1]) is Some,
            usize_value(fs[2]) is Some,
            data_failure(fs, n as nat, 0) == data_failure(fs, n as nat, idx as nat),
            idx <= n,
            base == 3 + 4 * idx,
            base <= f.len(),
            periods.len() == idx,
            forall|j: int| 0 <= j < idx ==> (#[trigger] data_day_at(fs, j)) is Some,
            forall|j: int| 0 <= j < idx ==> data_period_matches(#[trigger] periods@[j], fs, j),
        decreases n - idx,
    {
        if f.len() - base < 4 {
            assert(f.len() < 3 + 4 * n) by (nonlinear_arith)
                requires
                    f.len() < base + 4,
                    base == 3 + 4 * idx,
                    idx < n,
            ;
            return Err(EPWParseError::DataPeriods(shortage("period", idx, &f, base)));
        }
        assert(fs[base + 1] == f@[base + 1]@);
        let start_day_of_week = match day_of_week(&f[base + 1]) {
            Some(d) => d,
            None => {
                assert(data_day_at(fs, idx as int) is None);
                return Err(EPWParseError::DataPeriods(indexed_message("Invalid day of week", idx, &f[base + 1])));
            },
        };
        let period = DataPeriod {
            name: string_of(&f[base]),
            start_day_of_week,
            start_day: string_of(&f[base + 2]),
            end_day: string_of(&f[base + 3]),
        };
        periods.push(period);
        idx += 1;
        base += 4;
    }
    Ok(DataPeriods { records_per_hour, periods })
}

// Holidays and daylight savings: the leap-year flag, the daylight savings
// start and end, a holiday count, then two fields per holiday.

pub open spec fn leap_year_of(s: Seq<char>) -> Option<bool> {
    if s == "Yes"@ {
        Some(true)
    } else if s == "No"@ {
        Some(false)
    } else {
        None
    }
}

pub open spec fn holidays_ok(f: Seq<Seq<char>>) -> bool {
    &&& f.len() >= 5
    &&& leap_year_of(f[1]) is Some
    &&& usize_value(f[4]) is Some
    &&& f.len() >= 5 + 2 * count_at(f, 4)
}

/// The message of a `HOLIDAYS/DAYLIGHT SAVINGS` line that does not parse.
pub open spec fn holidays_message(line: Seq<char>) -> Seq<char> {
    let f = split_on(line, ',');
    if f.len() < 5 {
        "Invalid Holidays/Daylight Savings Line: "@ + line
    } else if leap_year_of(f[1]) is None {
        "Invalid Leap Year Value: "@ + f[1]
    } else if usize_value(f[4]) is None {
        "Invalid holiday count: "@ + f[4]
    } else {
        let i = ((f.len() - 5) / 2) as nat;
        shortage_text("holiday"@, i, f, (5 + 2 * i) as int)
    }
}

pub open spec fn holiday_matches(h: Holiday, f: Seq<Seq<char>>, i: int) -> bool {
    h.name@ == f[5 + 2 * i] && h.date@ == f[5 + 2 * i + 1]
}

pub open spec fn holidays_matches(r: HolidayDaylightSavings, f: Seq<Seq<char>>) -> bool {
    &&& Some(r.leap_year) == leap_year_of(f[1])
    &&& r.daylight_savings_start@ == f[2]
    &&& r.daylight_savings_end@ == f[3]
    &&& r.holidays@.len() == count_at(f, 4)
    &&& forall|i: int| 0 <= i < r.holidays@.len() ==> holiday_matches(#[trigger] r.holidays@[i], f, i)
}

/// Parses a `HOLIDAYS/DAYLIGHT SAVINGS` line: `Yes` or `No` for a leap year,
/// the daylight savings start and end, a holiday count, then name and date
/// for each holiday.
pub fn _parse_holiday_daylight_savings(line: &str) -> (r: Result<HolidayDaylightSavings, EPWParseError>)
    requires
        starts_with(line@, HOLIDAYS_DAYLIGHT_SAVINGS_KEY@),
    ensures
        r is Ok <==> holidays_ok(split_on(line@, ',')),
        r matches Ok(v) ==> holidays_matches(v, split_on(line@, ',')),
        r matches Err(e) ==> e matches EPWParseError::HolidayDaylightSavings(m) && m@ == holidays_message(line@),
{
    let chars = chars_of(line);
    let f = split_fields(&chars, ',');
    let ghost fs = split_on(line@, ',');
    if f.len() < 5 {
        return Err(EPWParseError::HolidayDaylightSavings(message("Invalid Holidays/Daylight Savings Line: ", &chars)));
    }
    assert(fs[1] == f@[1]@ && fs[2] == f@[2]@ && fs[3] == f@[3]@ && fs[4] == f@[4]@);
    let leap_year = if same_text(&f[1], "Yes") {
        true
    } else if same_text(&f[1], "No") {
        false
    } else {
        return Err(EPWParseError::HolidayDaylightSavings(message("Invalid Leap Year Value: ", &f[1])));
    };
    let daylight_savings_start = string_of(&f[2]);
    let daylight_savings_end = string_of(&f[3]);
    let n: usize = match parse_unsigned(&f[4], usize::MAX as u64) {
        Some(v) => v as usize,
        None => {
            return Err(EPWParseError::HolidayDaylightSavings(message("Invalid holiday count: ", &f[4])));
        },
    };
    let mut holidays: Vec<Holiday> = Vec::new();
    let mut idx: usize = 0;
    let mut base: usize = 5;
    while idx < n
        invariant
            fs == views(f@),
            fs == split_on(line@, ','),
            fs.len() >= 5,
            count_at(fs, 4) == n,
            leap_year_of(fs[1]) is Some,
            usize_value(fs[4]) is Some,
            idx <= n,
            base == 5 + 2 * idx,
            base <= f.len(),
            holidays.len() == idx,
            forall|j: int| 0 <= j < idx ==> holiday_matches(#[trigger] holidays@[j], fs, j),
        decreases n - idx,
    {
        if f.len() - base < 2 {
            assert(f.len() < 5 + 2 * n) by (nonlinear_arith)
                requires
                    f.len() < base + 2,
                    base == 5 + 2 * idx,
                    idx < n,
            ;
            assert((f.len() - 5) / 2 == idx) by (nonlinear_arith)
                requires
                    base <= f.len() < base + 2,
                    base == 5 + 2 * idx,
            ;
            return Err(EPWParseError::HolidayDaylightSavings(shortage("holiday", idx, &f, base)));
        }
        holidays.push(Holiday { name: string_of(&f[base]), date: string_of(&f[base + 1]) });
        idx += 1;
        base += 2;
    }
    Ok(HolidayDaylightSavings { leap_year, daylight_savings_start, daylight_savings_end, holidays })
}

// Comments and design conditions are kept as text.

/// The text of a comment line: all that follows its first comma.
pub open spec fn comment_text(line: Seq<char>) -> Seq<char> {
    match after_first(line, ',') {
        Some(t) => t,
        None => Seq::empty(),
    }
}

/// Parses a `COMMENTS` line: the text after the first comma, commas
/// included; a line without a comma gives an empty comment.
pub fn _parse_comment(line: &str) -> (r: String)
    requires
        starts_with(line@, COMMENTS_KEY@),
    ensures
        r@ == comment_text(line@),
{
    let chars = chars_of(line);
    match text_after_first(&chars, ',') {
        Some(t) => string_of(&t),
        None => string_of(&Vec::new()),
    }
}

/// Parses a `DESIGN CONDITIONS` line: every field after the tag, as text.
pub fn _parse_design_conditions(line: &str) -> (r: Vec<String>)
    requires
        starts_with(line@, DESIGN_CONDITIONS_KEY@),
    ensures
        string_views(r@) == split_on(line@, ',').drop_first(),
{
    let chars = chars_of(line);
    let f = split_fields(&chars, ',');
    let mut out: Vec<String> = Vec::new();
    let mut i: usize = 1;
    while i < f.len()
        invariant
            1 <= i <= f.len(),
            views(f@) == split_on(line@, ','),
            string_views(out@) == views(f@).subrange(1, i as int),
        decreases f.len() - i,
    {
        assert(views(f@)[i as int] == f@[i as int]@);
        let item = string_of(&f[i]);
        let ghost prev = out@;
        out.push(item);
        assert(string_views(out@) =~= string_views(prev).push(item@));
        assert(string_views(out@) =~= views(f@).subrange(1, i + 1));
        i += 1;
    }
    assert(views(f@).subrange(1, f.len() as int) =~= views(f@).drop_first());
    out
}

// Location: exactly ten fields.

/// The UTC offset in seconds that the time zone field gives: its whole
/// number of hours times 3600, when that is less than a day either way (`nan`
/// and the infinities give none).
pub open spec fn offset_seconds_of(s: Seq<char>) -> Option<int> {
    match number_value(s) {
        Some(m) => match whole_part(m) {
            Some(h) => if -86_400 < h * 3600 < 86_400 {
                Some(h * 3600)
            } else {
                None
            },
            None => None,
        },
        None => None,
    }
}

pub open spec fn location_ok(f: Seq<Seq<char>>) -> bool {
    &&& f.len() == 10
    &&& number_value(f[6]) is Some
    &&& number_value(f[7]) is Some
    &&& offset_seconds_of(f[8]) is Some
    &&& number_value(f[9]) is Some
}

/// The message of a `LOCATION` line that does not parse.
pub open spec fn location_message(line: Seq<char>) -> Seq<char> {
    let f = split_on(line, ',');
    if f.len() != 10 {
        "Invalid Location Line: "@ + line
    } else if number_value(f[6]) is None {
        "Invalid Latitude: "@ + f[6]
    } else if number_value(f[7]) is None {
        "Invalid Longitude: "@ + f[7]
    } else if offset_seconds_of(f[8]) is None {
        "Invalid Time Zone: "@ + f[8]
    } else {
        "Invalid Elevation: "@ + f[9]
    }
}

pub open spec fn location_matches(l: Location, f: Seq<Seq<char>>) -> bool {
    &&& l.city@ == f[1]
    &&& l.state_province_region@ == f[2]
    &&& l.country@ == f[3]
    &&& l.source@ == f[4]
    &&& l.wmo@ == f[5]
    &&& Some(l.latitude@) == number_value(f[6]) && l.latitude.wf()
    &&& Some(l.longitude@) == number_value(f[7]) && l.longitude.wf()
    &&& Some(l.time_zone as int) == offset_seconds_of(f[8])
    &&& Some(l.elevation@) == number_value(f[9]) && l.elevation.wf()
}

fn time_zone_seconds(s: &Vec<char>) -> (r: Option<i32>)
    ensures
        r matches Some(v) ==> offset_seconds_of(s@) == Some(v as int),
        r is None ==> offset_seconds_of(s@) is None,
{
    let n = match parse_number(s) {
        Some(n) => n,
        None => {
            return None;
        },
    };
    let hours = match whole_part_within(&n, 1000) {
        Some(h) => h,
        None => {
            proof {
                if let Some(h) = whole_part(n@) {
                    assert(h * 3600 >= 86_400 || h * 3600 <= -86_400) by (nonlinear_arith)
                        requires
                            h > 1000 || h < -1000,
                    ;
                }
            }
            return None;
        },
    };
    let secs = (hours * 3600) as i32;
    if offset_exists(secs) {
        Some(secs)
    } else {
        None
    }
}

fn location_number(f: &Vec<Vec<char>>, j: usize, what: &str) -> (r: Result<Number, EPWParseError>)
    requires
        j < f.len(),
    ensures
        r matches Ok(n) ==> Some(n@) == number_value(f@[j as int]@) && n.wf(),
        r is Err ==> number_value(f@[j as int]@) is None,
        r matches Err(e) ==> e matches EPWParseError::Location(m) && m@ == what@ + f@[j as int]@,
{
    match parse_number(&f[j]) {
        Some(n) => Ok(n),
        None => Err(EPWParseError::Location(message(what, &f[j]))),
    }
}

/// Parses a `LOCATION` line: city, region, country, source, station
/// identifier, latitude, longitude, time zone in hours and elevation.
pub fn _parse_location(line: &str) -> (r: Result<Location, EPWParseError>)
    requires
        starts_with(line@, LOCATION_KEY@),
    ensures
        r is Ok <==> location_ok(split_on(line@, ',')),
        r matches Ok(v) ==> location_matches(v, split_on(line@, ',')),
        r matches Err(e) ==> e matches EPWParseError::Location(m) && m@ == location_message(line@),
{
    let chars = chars_of(line);
    let f = split_fields(&chars, ',');
    let ghost fs = split_on(line@, ',');
    if f.len() != 10 {
        return Err(EPWParseError::Location(message("Invalid Location Line: ", &chars)));
    }
    assert(fs[1] == f@[1]@ && fs[2] == f@[2]@ && fs[3] == f@[3]@ && fs[4] == f@[4]@ && fs[5] == f@[5]@);
    assert(fs[6] == f@[6]@ && fs[7] == f@[7]@ && fs[8] == f@[8]@ && fs[9] == f@[9]@);
    let latitude = location_number(&f, 6, "Invalid Latitude: ")?;
    let longitude = location_number(&f, 7, "Invalid Longitude: ")?;
    let time_zone = match time_zone_seconds(&f[8]) {
        Some(t) => t,
        None => {
            return Err(EPWParseError::Location(message("Invalid Time Zone: ", &f[8])));
        },
    };
    let elevation = location_number(&f, 9, "Invalid Elevation: ")?;
    Ok(Location {
        city: string_of(&f[1]),
        state_province_region: string_of(&f[2]),
        country: string_of(&f[3]),
        source: string_of(&f[4]),
        wmo: string_of(&f[5]),
        latitude,
        longitude,
        time_zone,
        elevation,
    })
}

// Ground temperatures: a sample count, then sixteen fields per sample.

/// The fields from `b` hold a sample whose depth and twelve monthly means
/// are numbers.
pub open spec fn sample_ok(f: Seq<Seq<char>>, b: int) -> bool {
    &&& number_value(f[b]) is Some
    &&& number_value(f[b + 4]) is Some
    &&& number_value(f[b + 5]) is Some
    &&& number_value(f[b + 6]) is Some
    &&& number_value(f[b + 7]) is Some
    &&& number_value(f[b + 8]) is Some
    &&& number_value(f[b + 9]) is Some
    &&& number_value(f[b + 10]) is Some
    &&& number_value(f[b + 11]) is Some
    &&& number_value(f[b + 12]) is Some
    &&& number_value(f[b + 13]) is Some
    &&& number_value(f[b + 14]) is Some
    &&& number_value(f[b + 15]) is Some
}

/// The message of the first field of the sample at `b` (index `i`) that is
/// not a number though it must be.
pub open spec fn sample_failure(f: Seq<Seq<char>>, b: int, i: nat) -> Seq<char> {
    if number_value(f[b]) is None {
        indexed_text("Invalid Depth"@, i, f[b])
    } else if number_value(f[b + 4]) is None {
        indexed_text("Invalid January temp value"@, i, f[b + 4])
    } else if number_value(f[b + 5]) is None {
        indexed_text("Invalid February temp value"@, i, f[b + 5])
    } else if number_value(f[b + 6]) is None {
        indexed_text("Invalid March temp value"@, i, f[b + 6])
    } else if number_value(f[b + 7]) is None {
        indexed_text("Invalid April temp value"@, i, f[b + 7])
    } else if number_value(f[b + 8]) is None {
        indexed_text("Invalid May temp value"@, i, f[b + 8])
    } else if number_value(f[b + 9]) is None {
        indexed_text("Invalid June temp value"@, i, f[b + 9])
    } else if number_value(f[b + 10]) is None {
        indexed_text("Invalid July temp value"@, i, f[b + 10])
    } else if number_value(f[b + 11]) is None {
        indexed_text("Invalid August temp value"@, i, f[b + 11])
    } else if number_value(f[b + 12]) is None {
        indexed_text("Invalid September temp value"@, i, f[b + 12])
    } else if number_value(f[b + 13]) is None {
        indexed_text("Invalid October temp value"@, i, f[b + 13])
    } else if number_value(f[b + 14]) is None {
        indexed_text("Invalid November temp value"@, i, f[b + 14])
    } else {
        indexed_text("Invalid December temp value"@, i, f[b + 15])
    }
}

pub open spec fn has_number(n: Number, m: Option<NumberModel>) -> bool {
    Some(n@) == m && n.wf()
}

pub open spec fn sample_matches(t: GroundTemperatureSample, f: Seq<Seq<char>>, b: int) -> bool {
    &&& has_number(t.depth, number_value(f[b]))
    &&& opt_model(t.soil_conductivity) == number_value(f[b + 1]) && opt_wf(t.soil_conductivity)
    &&& opt_model(t.soil_density) == number_value(f[b + 2]) && opt_wf(t.soil_density)
    &&& opt_model(t.soil_specific_heat) == number_value(f[b + 3]) && opt_wf(t.soil_specific_heat)
    &&& has_number(t.january, number_value(f[b + 4]))
    &&& has_number(t.february, number_value(f[b + 5]))
    &&& has_number(t.march, number_value(f[b + 6]))
    &&& has_number(t.april, number_value(f[b + 7]))
    &&& has_number(t.may, number_value(f[b + 8]))
    &&& has_number(t.june, number_value(f[b + 9]))
    &&& has_number(t.july, number_value(f[b + 10]))
    &&& has_number(t.august, number_value(f[b + 11]))
    &&& has_number(t.september, number_value(f[b + 12]))
    &&& has_number(t.october, number_value(f[b + 13]))
    &&& has_number(t.november, number_value(f[b + 14]))
    &&& has_number(t.december, number_value(f[b + 15]))
}

/// The sample count in field 1, when it is one (an unsigned 16-bit integer).
pub open spec fn sample_count(f: Seq<Seq<char>>) -> nat {
    match unsigned_value(f[1]) {
        Some(n) => if n <= u16::MAX {
            n
        } else {
            0
        },
        None => 0,
    }
}

pub open spec fn sample_ok_at(f: Seq<Seq<char>>, i: int) -> bool {
    sample_ok(f, 2 + 16 * i)
}

pub open spec fn ground_ok(f: Seq<Seq<char>>) -> bool {
    &&& f.len() >= 2
    &&& unsigned_value(f[1]) matches Some(n) && n <= u16::MAX
    &&& f.len() >= 2 + 16 * sample_count(f)
    &&& forall|i: int| 0 <= i < sample_count(f) ==> #[trigger] sample_ok_at(f, i)
}

/// The message of the first sample from `i` on that fails.
pub open spec fn ground_failure(f: Seq<Seq<char>>, n: nat, i: nat) -> Seq<char>
    decreases n - i,
{
    if i >= n {
        Seq::empty()
    } else if f.len() < 2 + 16 * (i + 1) {
        shortage_text("sample"@, i, f, (2 + 16 * i) as int)
    } else if !sample_ok_at(f, i as int) {
        sample_failure(f, (2 + 16 * i) as int, i)
    } else {
        ground_failure(f, n, i + 1)
    }
}

/// The message of a `GROUND TEMPERATURES` line that does not parse.
pub open spec fn ground_message(line: Seq<char>) -> Seq<char> {
    let f = split_on(line, ',');
    if f.len() < 2 {
        "Invalid sample count: "@ + line
    } else if !(unsigned_value(f[1]) matches Some(n) && n <= u16::MAX) {
        "Invalid sample count: "@ + f[1]
    } else {
        ground_failure(f, sample_count(f), 0)
    }
}

pub open spec fn ground_matches(r: Seq<GroundTemperatureSample>, f: Seq<Seq<char>>) -> bool {
    &&& r.len() == sample_count(f)
    &&& forall|i: int| 0 <= i < r.len() ==> sample_matches(#[trigger] r[i], f, 2 + 16 * i)
}

fn sample_number(f: &Vec<Vec<char>>, j: usize, what: &str, idx: usize) -> (r: Result<Number, EPWParseError>)
    requires
        j < f.len(),
    ensures
        r matches Ok(n) ==> has_number(n, number_value(f@[j as int]@)),
        r is Err ==> number_value(f@[j as int]@) is None,
        r matches Err(e) ==> e matches EPWParseError::GroundTemperature(m) && m@ == indexed_text(what@, idx as nat, f@[j as int]@),
{
    match parse_number(&f[j]) {
        Some(n) => Ok(n),
        None => Err(EPWParseError::GroundTemperature(indexed_message(what, idx, &f[j]))),
    }
}

fn parse_sample(f: &Vec<Vec<char>>, b: usize, idx: usize) -> (r: Result<GroundTemperatureSample, EPWParseError>)
    requires
        b + 16 <= f.len(),
    ensures
        r is Ok <==> sample_ok(views(f@), b as int),
        r matches Ok(t) ==> sample_matches(t, views(f@), b as int),
        r matches Err(e) ==> e matches EPWParseError::GroundTemperature(m) && m@ == sample_failure(views(f@), b as int, idx as nat),
{
    let ghost fs = views(f@);
    assert(forall|k: int| 0 <= k < 16 ==> fs[b + k] == #[trigger] f@[b + k]@);
    let depth = sample_number(f, b, "Invalid Depth", idx)?;
    let january = sample_number(f, b + 4, "Invalid January temp value", idx)?;
    let february = sample_number(f, b + 5, "Invalid February temp value", idx)?;
    let march = sample_number(f, b + 6, "Invalid March temp value", idx)?;
    let april = sample_number(f, b + 7, "Invalid April temp value", idx)?;
    let may = sample_number(f, b + 8, "Invalid May temp value", idx)?;
    let june = sample_number(f, b + 9, "Invalid June temp value", idx)?;
    let july = sample_number(f, b + 10, "Invalid July temp value", idx)?;
    let august = sample_number(f, b + 11, "Invalid August temp value", idx)?;
    let september = sample_number(f, b + 12, "Invalid September temp value", idx)?;
    let october = sample_number(f, b + 13, "Invalid October temp value", idx)?;
    let november = sample_number(f, b + 14, "Invalid November temp value", idx)?;
    let december = sample_number(f, b + 15, "Invalid December temp value", idx)?;
    Ok(GroundTemperatureSample {
        depth,
        soil_conductivity: parse_number(&f[b + 1]),
        soil_density: parse_number(&f[b + 2]),
        soil_specific_heat: parse_number(&f[b + 3]),
        january,
        february,
        march,
        april,
        may,
        june,
        july,
        august,
        september,
        october,
        november,
        december,
    })
}

/// Parses a `GROUND TEMPERATURES` line: a sample count, then for each sample
/// its depth, the optional soil conductivity, density and specific heat
/// (text that is not a number leaves them out), and twelve monthly means.
pub fn _parse_ground_temperature(line: &str) -> (r: Result<Vec<GroundTemperatureSample>, EPWParseError>)
    requires
        starts_with(line@, GROUND_TEMPERATURES_KEY@),
    ensures
        r is Ok <==> ground_ok(split_on(line@, ',')),
        r matches Ok(v) ==> ground_matches(v@, split_on(line@, ',')),
        r matches Err(e) ==> e matches EPWParseError::GroundTemperature(m) && m@ == ground_message(line@),
{
    let chars = chars_of(line);
    let f = split_fields(&chars, ',');
    let ghost fs = split_on(line@, ',');
    if f.len() < 2 {
        return Err(EPWParseError::GroundTemperature(message("Invalid sample count: ", &chars)));
    }
    assert(fs[1] == f@[1]@);
    let n: usize = match parse_unsigned(&f[1], u16::MAX as u64) {
        Some(v) => v as usize,
        None => {
            return Err(EPWParseError::GroundTemperature(message("Invalid sample count: ", &f[1])));
        },
    };
    let mut samples: Vec<GroundTemperatureSample> = Vec::new();
    let mut idx: usize = 0;
    let mut base: usize = 2;
    while idx < n
        invariant
            fs == views(f@),
            fs == split_on(line@, ','),
            fs.len() >= 2,
            sample_count(fs) == n,
            n <= u16::MAX,
            unsigned_value(fs[1]) == Some(n as nat),
            ground_failure(fs, n as nat, 0) == ground_failure(fs, n as nat, idx as nat),
            idx <= n,
            base == 2 + 16 * idx,
            base <= f.len(),
            samples.len() == idx,
            forall|j: int| 0 <= j < idx ==> #[trigger] sample_ok_at(fs, j),
            forall|j: int| 0 <= j < idx ==> sample_matches(#[trigger] samples@[j], fs, 2 + 16 * j),
        decreases n - idx,
    {
        if f.len() - base < 16 {
            assert(f.len() < 2 + 16 * n) by (nonlinear_arith)
                requires
                    f.len() < base + 16,
                    base == 2 + 16 * idx,
                    idx < n,
            ;
            return Err(EPWParseError::GroundTemperature(shortage("sample", idx, &f, base)));
        }
        let sample = match parse_sample(&f, base, idx) {
            Ok(t) => t,
            Err(e) => {
                assert(!sample_ok_at(fs, idx as int));
                return Err(e);
            },
        };
        assert(sample_ok_at(fs, idx as int));
        samples.push(sample);
        idx += 1;
        base += 16;
    }
    Ok(samples)
}

// The whole header: eight lines, each dispatched on its tag.

/// The section that a header line's tag names.
#[derive(PartialEq, Eq, Structural)]
pub enum Section {
    Location,
    GroundTemperatures,
    DataPeriods,
    TypicalExtremePeriods,
    HolidaysDaylightSavings,
    Comments,
    DesignConditions,
    Unknown,
}

pub open spec fn section_of(line: Seq<char>) -> Section {
    if starts_with(line, LOCATION_KEY@) {
        Section::Location
    } else if starts_with(line, GROUND_TEMPERATURES_KEY@) {
        Section::GroundTemperatures
    } else if starts_with(line, DATA_PERIODS_KEY@) {
        Section::DataPeriods
    } else if starts_with(line, TYPICAL_EXTREME_PERIODS_KEY@) {
        Section::TypicalExtremePeriods
    } else if starts_with(line, HOLIDAYS_DAYLIGHT_SAVINGS_KEY@) {
        Section::HolidaysDaylightSavings
    } else if starts_with(line, COMMENTS_KEY@) {
        Section::Comments
    } else if starts_with(line, DESIGN_CONDITIONS_KEY@) {
        Section::DesignConditions
    } else {
        Section::Unknown
    }
}

/// The line's section parses without error.
pub open spec fn line_ok(line: Seq<char>) -> bool {
    let f = split_on(line, ',');
    match section_of(line) {
        Section::Location => location_ok(f),
        Section::GroundTemperatures => ground_ok(f),
        Section::DataPeriods => data_periods_ok(f),
        Section::TypicalExtremePeriods => typical_extreme_ok(f),
        Section::HolidaysDaylightSavings => holidays_ok(f),
        Section::Comments => true,
        Section::DesignConditions => true,
        Section::Unknown => false,
    }
}

/// `e` is the error that the parser of `line`'s section gives for it.
pub open spec fn section_error(e: EPWParseError, line: Seq<char>) -> bool {
    match section_of(line) {
        Section::Location => e matches EPWParseError::Location(m) && m@ == location_message(line),
        Section::GroundTemperatures => e matches EPWParseError::GroundTemperature(m) && m@ == ground_message(line),
        Section::DataPeriods => e matches EPWParseError::DataPeriods(m) && m@ == data_periods_message(line),
        Section::TypicalExtremePeriods => e matches EPWParseError::TypicalExtremePeriods(m) && m@ == typical_extreme_message(line),
        Section::HolidaysDaylightSavings => e matches EPWParseError::HolidayDaylightSavings(m) && m@ == holidays_message(line),
        Section::Comments => false,
        Section::DesignConditions => false,
        Section::Unknown => e matches EPWParseError::UnexpectedData(m) && m@ == "Unexpected Row: "@ + line,
    }
}

/// The lines that form the header: the first eight.
pub open spec fn header_lines(lines: Seq<String>) -> Seq<Seq<char>> {
    string_views(lines).take(if lines.len() < 8 { lines.len() as int } else { 8 })
}

pub open spec fn has_section(h: Seq<Seq<char>>, upto: int, s: Section) -> bool {
    exists|j: int| 0 <= j < upto && #[trigger] section_of(h[j]) == s
}

/// Line `j` is the last line before `upto` of section `s`.
pub open spec fn is_last_of(h: Seq<Seq<char>>, upto: int, j: int, s: Section) -> bool {
    &&& 0 <= j < upto
    &&& section_of(h[j]) == s
    &&& forall|k: int| j < k < upto ==> #[trigger] section_of(h[k]) != s
}

/// The comments of the comment lines among `h`, in order.
pub open spec fn comments_of(h: Seq<Seq<char>>) -> Seq<Seq<char>>
    decreases h.len(),
{
    if h.len() == 0 {
        Seq::empty()
    } else {
        let prev = comments_of(h.drop_last());
        if section_of(h.last()) == Section::Comments {
            prev.push(comment_text(h.last()))
        } else {
            prev
        }
    }
}

/// Every required section appears.
pub open spec fn sections_complete(h: Seq<Seq<char>>) -> bool {
    &&& has_section(h, h.len() as int, Section::Location)
    &&& has_section(h, h.len() as int, Section::GroundTemperatures)
    &&& has_section(h, h.len() as int, Section::HolidaysDaylightSavings)
    &&& has_section(h, h.len() as int, Section::DataPeriods)
    &&& has_section(h, h.len() as int, Section::TypicalExtremePeriods)
}

pub open spec fn header_ok(h: Seq<Seq<char>>) -> bool {
    (forall|i: int| 0 <= i < h.len() ==> #[trigger] line_ok(h[i])) && sections_complete(h)
}

/// The error for header lines `h`: that of the first line that fails, else
/// that of the first required section, in the order location, ground
/// temperatures, holidays, data periods, typical/extreme periods, that is
/// missing.
pub open spec fn header_error(e: EPWParseError, h: Seq<Seq<char>>) -> bool {
    if exists|i: int| 0 <= i < h.len() && !#[trigger] line_ok(h[i]) {
        exists|i: int|
            0 <= i < h.len() && !#[trigger] line_ok(h[i]) && (forall|j: int| 0 <= j < i ==> line_ok(h[j]))
                && section_error(e, h[i])
    } else if !has_section(h, h.len() as int, Section::Location) {
        e matches EPWParseError::Location(m) && m@ == "No Location Found"@
    } else if !has_section(h, h.len() as int, Section::GroundTemperatures) {
        e matches EPWParseError::GroundTemperature(m) && m@ == "No Ground Temperatures Found"@
    } else if !has_section(h, h.len() as int, Section::HolidaysDaylightSavings) {
        e matches EPWParseError::HolidayDaylightSavings(m) && m@ == "No Holidays/Daylight Savings Found"@
    } else if !has_section(h, h.len() as int, Section::DataPeriods) {
        e matches EPWParseError::DataPeriods(m) && m@ == "No Data Periods Found"@
    } else {
        e matches EPWParseError::TypicalExtremePeriods(m) && m@ == "No Typical/Extreme Periods Found"@
    }
}

pub open spec fn header_matches(hd: Header, h: Seq<Seq<char>>) -> bool {
    let n = h.len() as int;
    &&& exists|j: int| #[trigger] is_last_of(h, n, j, Section::Location) && location_matches(hd.location, split_on(h[j], ','))
    &&& exists|j: int| #[trigger] is_last_of(h, n, j, Section::GroundTemperatures) && ground_matches(hd.ground_temperatures@, split_on(h[j], ','))
    &&& exists|j: int| #[trigger] is_last_of(h, n, j, Section::DataPeriods) && data_periods_matches(hd.data_periods, split_on(h[j], ','))
    &&& exists|j: int| #[trigger] is_last_of(h, n, j, Section::TypicalExtremePeriods) && typical_extreme_matches(hd.typical_extreme_periods@, split_on(h[j], ','))
    &&& exists|j: int| #[trigger] is_last_of(h, n, j, Section::HolidaysDaylightSavings) && holidays_matches(hd.holidays_daylight_savings, split_on(h[j], ','))
    &&& string_views(hd.comments@) == comments_of(h)
    &&& match hd.design_conditions {
        Some(v) => exists|j: int| #[trigger] is_last_of(h, n, j, Section::DesignConditions) && string_views(v@) == split_on(h[j], ',').drop_first(),
        None => !has_section(h, n, Section::DesignConditions),
    }
}

proof fn lemma_last_of_step(h: Seq<Seq<char>>, i: int)
    requires
        0 <= i < h.len(),
    ensures
        forall|j: int, s: Section|
            #[trigger] is_last_of(h, i, j, s) && section_of(h[i]) != s ==> is_last_of(h, i + 1, j, s),
        forall|s: Section|
            !#[trigger] has_section(h, i, s) && section_of(h[i]) != s ==> !has_section(h, i + 1, s),
        is_last_of(h, i + 1, i, section_of(h[i])),
        has_section(h, i + 1, section_of(h[i])),
{
    assert forall|s: Section| !#[trigger] has_section(h, i, s) && section_of(h[i]) != s implies !has_section(h, i + 1, s) by {
        if has_section(h, i + 1, s) {
            let j = choose|j: int| 0 <= j < i + 1 && #[trigger] section_of(h[j]) == s;
            assert(j < i);
        }
    }
    assert(section_of(h[i]) == section_of(h[i]));
}

/// Parses the header from the first eight of `lines` (fewer when there are
/// fewer). Each line goes to the parser of the section its tag names; a later
/// line of a section replaces an earlier one, and every comment line adds a
/// comment.
pub fn parse_header(lines: &Vec<String>) -> (r: Result<Header, EPWParseError>)
    ensures
        r is Ok <==> header_ok(header_lines(lines@)),
        r matches Ok(hd) ==> header_matches(hd, header_lines(lines@)),
        r matches Err(e) ==> header_error(e, header_lines(lines@)),
{
    let k: usize = if lines.len() < 8 { lines.len() } else { 8 };
    let ghost h = header_lines(lines@);
    let mut location: Option<Location> = None;
    let mut design_conditions: Option<Vec<String>> = None;
    let mut typical_extreme_periods: Option<Vec<TypicalExtremePeriod>> = None;
    let mut ground_temperatures: Option<Vec<GroundTemperatureSample>> = None;
    let mut data_periods: Option<DataPeriods> = None;
    let mut holidays: Option<HolidayDaylightSavings> = None;
    let mut comments: Vec<String> = Vec::new();
    let mut i: usize = 0;
    assert(h.take(0) =~= Seq::<Seq<char>>::empty());
    while i < k
        invariant
            h == header_lines(lines@),
            h.len() == k,
            k <= lines.len(),
            i <= k,
            forall|j: int| 0 <= j < i ==> #[trigger] line_ok(h[j]),
            string_views(comments@) == comments_of(h.take(i as int)),
            location matches Some(v) ==> exists|j: int| #[trigger] is_last_of(h, i as int, j, Section::Location) && location_matches(v, split_on(h[j], ',')),
            location is None ==> !has_section(h, i as int, Section::Location),
            ground_temperatures matches Some(v) ==> exists|j: int| #[trigger] is_last_of(h, i as int, j, Section::GroundTemperatures) && ground_matches(v@, split_on(h[j], ',')),
            ground_temperatures is None ==> !has_section(h, i as int, Section::GroundTemperatures),
            data_periods matches Some(v) ==> exists|j: int| #[trigger] is_last_of(h, i as int, j, Section::DataPeriods) && data_periods_matches(v, split_on(h[j], ',')),
            data_periods is None ==> !has_section(h, i as int, Section::DataPeriods),
            typical_extreme_periods matches Some(v) ==> exists|j: int| #[trigger] is_last_of(h, i as int, j, Section::TypicalExtremePeriods) && typical_extreme_matches(v@, split_on(h[j], ',')),
            typical_extreme_periods is None ==> !has_section(h, i as int, Section::TypicalExtremePeriods),
            holidays matches Some(v) ==> exists|j: int| #[trigger] is_last_of(h, i as int, j, Section::HolidaysDaylightSavings) && holidays_matches(v, split_on(h[j], ',')),
            holidays is None ==> !has_section(h, i as int, Section::HolidaysDaylightSavings),
            design_conditions matches Some(v) ==> exists|j: int| #[trigger] is_last_of(h, i as int, j, Section::DesignConditions) && string_views(v@) == split_on(h[j], ',').drop_first(),
            design_conditions is None ==> !has_section(h, i as int, Section::DesignConditions),
        decreases k - i,
    {
        let line: &str = lines[i].as_str();
        let chars = chars_of(line);
        let ghost l = h[i as int];
        assert(l == line@);
        assert(h.take(i + 1).drop_last() =~= h.take(i as int));
        let ghost sec = section_of(l);
        if has_prefix(&chars, LOCATION_KEY) {
            match _parse_location(line) {
                Ok(v) => {
                    location = Some(v);
                },
                Err(e) => {
                    assert(!line_ok(h[i as int]));
                    assert(section_error(e, h[i as int]));
                    return Err(e);
                },
            }
        } else if has_prefix(&chars, GROUND_TEMPERATURES_KEY) {
            match _parse_ground_temperature(line) {
                Ok(v) => {
                    ground_temperatures = Some(v);
                },
                Err(e) => {
                    assert(!line_ok(h[i as int]));
                    assert(section_error(e, h[i as int]));
                    return Err(e);
                },
            }
        } else if has_prefix(&chars, DATA_PERIODS_KEY) {
            match _parse_data_periods(line) {
                Ok(v) => {
                    data_periods = Some(v);
                },
                Err(e) => {
                    assert(!line_ok(h[i as int]));
                    assert(section_error(e, h[i as int]));
                    return Err(e);
                },
            }
        } else if has_prefix(&chars, TYPICAL_EXTREME_PERIODS_KEY) {
            match _parse_typical_extreme_periods(line) {
                Ok(v) => {
                    typical_extreme_periods = Some(v);
                },
                Err(e) => {
                    assert(!line_ok(h[i as int]));
                    assert(section_error(e, h[i as int]));
                    return Err(e);
                },
            }
        } else if has_prefix(&chars, HOLIDAYS_DAYLIGHT_SAVINGS_KEY) {
            match _parse_holiday_daylight_savings(line) {
                Ok(v) => {
                    holidays = Some(v);
                },
                Err(e) => {
                    assert(!line_ok(h[i as int]));
                    assert(section_error(e, h[i as int]));
                    return Err(e);
                },
            }
        } else if has_prefix(&chars, COMMENTS_KEY) {
            let c = _parse_comment(line);
            let ghost before = comments@;
            comments.push(c);
            assert(string_views(comments@) =~= string_views(before).push(c@));
        } else if has_prefix(&chars, DESIGN_CONDITIONS_KEY) {
            design_conditions = Some(_parse_design_conditions(line));
        } else {
            assert(section_of(h[i as int]) == Section::Unknown);
            let m = message("Unexpected Row: ", &chars);
            assert(m@ == "Unexpected Row: "@ + h[i as int]);
            let e = EPWParseError::UnexpectedData(m);
            assert(!line_ok(h[i as int]));
            assert(section_error(e, h[i as int]));
            return Err(e);
        }
        proof {
            assert(line_ok(h[i as int]));
            lemma_last_of_step(h, i as int);
        }
        i += 1;
    }
    assert(h.take(k as int) =~= h);
    let location = match location {
        Some(v) => v,
        None => {
            return Err(EPWParseError::Location(string_of(&chars_of("No Location Found"))));
        },
    };
    let ground_temperatures = match ground_temperatures {
        Some(v) => v,
        None => {
            return Err(EPWParseError::GroundTemperature(string_of(&chars_of("No Ground Temperatures Found"))));
        },
    };
    let holidays_daylight_savings = match holidays {
        Some(v) => v,
        None => {
            return Err(EPWParseError::HolidayDaylightSavings(string_of(&chars_of("No Holidays/Daylight Savings Found"))));
        },
    };
    let data_periods = match data_periods {
        Some(v) => v,
        None => {
            return Err(EPWParseError::DataPeriods(string_of(&chars_of("No Data Periods Found"))));
        },
    };
    let typical_extreme_periods = match typical_extreme_periods {
        Some(v) => v,
        None => {
            return Err(EPWParseError::TypicalExtremePeriods(string_of(&chars_of("No Typical/Extreme Periods Found"))));
        },
    };
    Ok(Header {
        location,
        design_conditions,
        typical_extreme_periods,
        ground_temperatures,
        holidays_daylight_savings,
        comments,
        data_periods,
    })
}

/// The time zone of a parsed header is an offset of less than a day.
pub proof fn lemma_header_time_zone(hd: Header, h: Seq<Seq<char>>)
    requires
        header_matches(hd, h),
    ensures
        -86_400 < hd.location.time_zone < 86_400,
{
    let j = choose|j: int|
        #[trigger] is_last_of(h, h.len() as int, j, Section::Location) && location_matches(hd.location, split_on(h[j], ','));
}

} // verus!
