//! The hourly records of an EPW file, held column by column. Each data line
//! has at least 32 comma-separated fields; missing-value markers become `None`.

use crate::error::EPWParseError;
use crate::header::{string_views, Header};
use crate::number::{
    digit_of, equals_tenths, is_below, is_digit, number_equals_tenths, number_is_below,
    number_value, opt_model, opt_wf, parse_number, parse_signed, parse_unsigned, signed_value,
    unsigned_value, Number, NumberModel,
};
use crate::text::{
    chars_of, concat, decimal_chars, decimal_text, message, same_text, signed_decimal_chars,
    signed_decimal_text, split_fields, split_on, string_of, views,
};
use crate::time::{civil_valid, timestamp_at, Timestamp, MAX_YEAR, MIN_YEAR};
use vstd::prelude::*;

verus! {

/// Present weather codes, one decimal digit each, after the TMY2
/// conventions; `9` means none or unknown.
#[derive(Debug, Clone, Copy, PartialEq, Eq, Structural)]
pub struct PresentWeather {
    /// Thunderstorm, tornado or squall.
    pub thunderstorm: u8,
    /// Rain, rain showers or freezing rain.
    pub rain: u8,
    /// Rain squalls, drizzle or freezing drizzle.
    pub rain_squalls: u8,
    /// Snow, snow pellets or ice crystals.
    pub snow: u8,
    /// Snow showers, snow squalls or snow grains.
    pub snow_showers: u8,
    /// Sleet, sleet showers or hail.
    pub sleet: u8,
    /// Fog, blowing dust or blowing sand.
    pub fog: u8,
    /// Smoke, haze, blowing snow, blowing spray or dust.
    pub smoke: u8,
    /// Ice pellets.
    pub ice_pellets: u8,
}

/// The weather records, one entry per record in every column. A measurement
/// is `None` where the file holds its missing-value marker; `albedo` and the
/// two liquid precipitation columns are `None` also where the line ends
/// before them.
#[derive(Debug)]
pub struct WeatherData {
    pub timestamp: Vec<Timestamp>,
    pub flags: Vec<String>,
    pub dry_bulb_temperature: Vec<Option<Number>>,
    pub dew_point_temperature: Vec<Option<Number>>,
    pub relative_humidity: Vec<Option<Number>>,
    pub atmospheric_pressure: Vec<Option<Number>>,
    pub extraterrestrial_horizontal_radiation: Vec<Option<Number>>,
    pub extraterrestrial_direct_normal_radiation: Vec<Option<Number>>,
    pub horizontal_infrared_radiation_intensity: Vec<Option<Number>>,
    pub global_horizontal_radiation: Vec<Option<Number>>,
    pub direct_normal_radiation: Vec<Option<Number>>,
    pub diffuse_horizontal_radiation: Vec<Option<Number>>,
    pub global_horizontal_illuminance: Vec<Option<Number>>,
    pub direct_normal_illuminance: Vec<Option<Number>>,
    pub diffuse_horizontal_illuminance: Vec<Option<Number>>,
    pub zenith_luminance: Vec<Option<Number>>,
    pub wind_direction: Vec<Option<Number>>,
    pub wind_speed: Vec<Option<Number>>,
    pub total_sky_cover: Vec<Option<Number>>,
    pub opaque_sky_cover: Vec<Option<Number>>,
    pub visibility: Vec<Option<Number>>,
    pub ceiling_height: Vec<Option<Number>>,
    pub present_weather_observation: Vec<bool>,
    pub present_weather_codes: Vec<PresentWeather>,
    pub precipitable_water: Vec<Option<Number>>,
    pub aerosol_optical_depth: Vec<Option<Number>>,
    pub snow_depth: Vec<Option<Number>>,
    pub days_since_last_snowfall: Vec<Option<Number>>,
    pub albedo: Vec<Option<Number>>,
    pub liquid_precipitation_depth: Vec<Option<Number>>,
    pub liquid_precipitation_quantity: Vec<Option<Number>>,
}

impl WeatherData {
    /// The number of records.
    pub open spec fn len(&self) -> nat {
        self.timestamp@.len()
    }

    /// Every column holds one entry per record.
    pub open spec fn wf(&self) -> bool {
        &&& self.flags@.len() == self.timestamp@.len()
        &&& self.dry_bulb_temperature@.len() == self.timestamp@.len()
        &&& self.dew_point_temperature@.len() == self.timestamp@.len()
        &&& self.relative_humidity@.len() == self.timestamp@.len()
        &&& self.atmospheric_pressure@.len() == self.timestamp@.len()
        &&& self.extraterrestrial_horizontal_radiation@.len() == self.timestamp@.len()
        &&& self.extraterrestrial_direct_normal_radiation@.len() == self.timestamp@.len()
        &&& self.horizontal_infrared_radiation_intensity@.len() == self.timestamp@.len()
        &&& self.global_horizontal_radiation@.len() == self.timestamp@.len()
        &&& self.direct_normal_radiation@.len() == self.timestamp@.len()
        &&& self.diffuse_horizontal_radiation@.len() == self.timestamp@.len()
        &&& self.global_horizontal_illuminance@.len() == self.timestamp@.len()
        &&& self.direct_normal_illuminance@.len() == self.timestamp@.len()
        &&& self.diffuse_horizontal_illuminance@.len() == self.timestamp@.len()
        &&& self.zenith_luminance@.len() == self.timestamp@.len()
        &&& self.wind_direction@.len() == self.timestamp@.len()
        &&& self.wind_speed@.len() == self.timestamp@.len()
        &&& self.total_sky_cover@.len() == self.timestamp@.len()
        &&& self.opaque_sky_cover@.len() == self.timestamp@.len()
        &&& self.visibility@.len() == self.timestamp@.len()
        &&& self.ceiling_height@.len() == self.timestamp@.len()
        &&& self.present_weather_observation@.len() == self.timestamp@.len()
        &&& self.present_weather_codes@.len() == self.timestamp@.len()
        &&& self.precipitable_water@.len() == self.timestamp@.len()
        &&& self.aerosol_optical_depth@.len() == self.timestamp@.len()
        &&& self.snow_depth@.len() == self.timestamp@.len()
        &&& self.days_since_last_snowfall@.len() == self.timestamp@.len()
        &&& self.albedo@.len() == self.timestamp@.len()
        &&& self.liquid_precipitation_depth@.len() == self.timestamp@.len()
        &&& self.liquid_precipitation_quantity@.len() == self.timestamp@.len()
    }

    /// Parses every line of `lines` as a record, at the time zone of
    /// `header`'s location.
    pub fn parse(lines: &Vec<String>, header: &Header) -> (r: Result<WeatherData, EPWParseError>)
        requires
            -86_400 < header.location.time_zone < 86_400,
        ensures
            r matches Ok(d) ==> data_matches(d, string_views(lines@), header.location.time_zone as int),
            rows_ok_in_range(string_views(lines@), header.location.time_zone as int) ==> r is Ok,
            r matches Err(e) ==> e is Data && !rows_ok_in_range(string_views(lines@), header.location.time_zone as int),
            r matches Err(e) ==> first_failing_line(e, string_views(lines@), header.location.time_zone as int),
    {
        _parse_data(lines, header)
    }
}

// Present weather: nine digits.

impl PresentWeather {
    /// Decodes a present weather code, as [`_parse_present_weather`].
    pub fn parse(value: &str) -> (r: Result<PresentWeather, EPWParseError>)
        ensures
            r is Ok <==> present_weather_ok(value@),
            r matches Ok(p) ==> present_weather_matches(p, value@),
            r matches Err(e) ==> e matches EPWParseError::Data(m) && m@ == "Invalid Conditions: "@ + value@,
    {
        _parse_present_weather(value)
    }
}

pub open spec fn present_weather_ok(s: Seq<char>) -> bool {
    s.len() >= 9 && forall|i: int| 0 <= i < 9 ==> is_digit(#[trigger] s[i])
}

pub open spec fn present_weather_matches(p: PresentWeather, s: Seq<char>) -> bool {
    &&& p.thunderstorm == digit_of(s[0])
    &&& p.rain == digit_of(s[1])
    &&& p.rain_squalls == digit_of(s[2])
    &&& p.snow == digit_of(s[3])
    &&& p.snow_showers == digit_of(s[4])
    &&& p.sleet == digit_of(s[5])
    &&& p.fog == digit_of(s[6])
    &&& p.smoke == digit_of(s[7])
    &&& p.ice_pellets == digit_of(s[8])
}

fn code_digit(s: &Vec<char>, i: usize) -> (r: Option<u8>)
    requires
        i < s.len(),
    ensures
        r matches Some(d) ==> is_digit(s@[i as int]) && d == digit_of(s@[i as int]),
        r is None ==> !is_digit(s@[i as int]),
{
    let c = s[i];
    if '0' <= c && c <= '9' {
        Some((c as u32 - '0' as u32) as u8)
    } else {
        None
    }
}

fn decode_present_weather(s: &Vec<char>) -> (r: Result<PresentWeather, EPWParseError>)
    ensures
        r is Ok <==> present_weather_ok(s@),
        r matches Ok(p) ==> present_weather_matches(p, s@),
        r matches Err(e) ==> e matches EPWParseError::Data(m) && m@ == "Invalid Conditions: "@ + s@,
{
    if s.len() < 9 {
        return Err(EPWParseError::Data(message("Invalid Conditions: ", s)));
    }
    let mut codes: [u8; 9] = [0; 9];
    let mut i: usize = 0;
    while i < 9
        invariant
            s.len() >= 9,
            i <= 9,
            forall|j: int| 0 <= j < i ==> is_digit(#[trigger] s@[j]) && codes@[j] == digit_of(s@[j]),
        decreases 9 - i,
    {
        match code_digit(s, i) {
            Some(d) => {
                codes[i] = d;
            },
            None => {
                return Err(EPWParseError::Data(message("Invalid Conditions: ", s)));
            },
        }
        i += 1;
    }
    Ok(PresentWeather {
        thunderstorm: codes[0],
        rain: codes[1],
        rain_squalls: codes[2],
        snow: codes[3],
        snow_showers: codes[4],
        sleet: codes[5],
        fog: codes[6],
        smoke: codes[7],
        ice_pellets: codes[8],
    })
}

/// Decodes a present weather code: each of its first nine characters must
/// be a decimal digit.
pub fn _parse_present_weather(condition_str: &str) -> (r: Result<PresentWeather, EPWParseError>)
    ensures
        r is Ok <==> present_weather_ok(condition_str@),
        r matches Ok(p) ==> present_weather_matches(p, condition_str@),
        r matches Err(e) ==> e matches EPWParseError::Data(m) && m@ == "Invalid Conditions: "@ + condition_str@,
{
    decode_present_weather(&chars_of(condition_str))
}

// Measurements.

/// A field whose missing-value marker is `tenths / 10`: the number, or
/// `None` when it equals the marker; no value at all when the field is not
/// a number.
pub open spec fn exact_measure(s: Seq<char>, tenths: nat) -> Option<Option<NumberModel>> {
    match number_value(s) {
        Some(m) => Some(
            if equals_tenths(m, tenths) {
                None
            } else {
                Some(m)
            },
        ),
        None => None,
    }
}

/// A field whose values from `bound` up mean missing: the number when it is
/// below `bound`, else `None`.
pub open spec fn threshold_measure(s: Seq<char>, bound: nat) -> Option<Option<NumberModel>> {
    match number_value(s) {
        Some(m) => Some(
            if is_below(m, bound) {
                Some(m)
            } else {
                None
            },
        ),
        None => None,
    }
}

/// A trailing field that older files leave out: `None` when the line has no
/// field `j`, else as [`exact_measure`].
pub open spec fn optional_measure(f: Seq<Seq<char>>, j: int, tenths: nat) -> Option<Option<NumberModel>> {
    if j < f.len() {
        exact_measure(f[j], tenths)
    } else {
        Some(None)
    }
}

fn measure(value: &Vec<char>, name: &str, missing_tenths: u64) -> (r: Result<Option<Number>, EPWParseError>)
    requires
        0 < missing_tenths <= 1_000_000_000_000_000_000,
    ensures
        r is Ok <==> exact_measure(value@, missing_tenths as nat) is Some,
        r matches Ok(m) ==> Some(opt_model(m)) == exact_measure(value@, missing_tenths as nat) && opt_wf(m),
        r matches Err(e) ==> e matches EPWParseError::Data(m) && m@ == name@ + value@,
{
    match parse_number(value) {
        Some(n) => {
            if number_equals_tenths(&n, missing_tenths) {
                Ok(None)
            } else {
                Ok(Some(n))
            }
        },
        None => Err(EPWParseError::Data(message(name, value))),
    }
}

/// Reads a measurement whose missing-value marker is `missing_tenths / 10`
/// (`999` for 99.9, `9990` for 999): the number, or `None` when it equals
/// the marker.
pub fn _parse_float_value(value: &str, name: &str, missing_tenths: u64) -> (r: Result<Option<Number>, EPWParseError>)
    requires
        0 < missing_tenths <= 1_000_000_000_000_000_000,
    ensures
        r is Ok <==> exact_measure(value@, missing_tenths as nat) is Some,
        r matches Ok(m) ==> Some(opt_model(m)) == exact_measure(value@, missing_tenths as nat) && opt_wf(m),
        r matches Err(e) ==> e matches EPWParseError::Data(m) && m@ == name@ + value@,
{
    measure(&chars_of(value), name, missing_tenths)
}

fn measure_below(value: &Vec<char>, name: &str, bound: u64) -> (r: Result<Option<Number>, EPWParseError>)
    requires
        0 < bound <= 1_000_000_000_000_000_000,
    ensures
        r is Ok <==> threshold_measure(value@, bound as nat) is Some,
        r matches Ok(m) ==> Some(opt_model(m)) == threshold_measure(value@, bound as nat) && opt_wf(m),
        r matches Err(e) ==> e matches EPWParseError::Data(m) && m@ == name@ + value@,
{
    match parse_number(value) {
        Some(n) => {
            if number_is_below(&n, bound) {
                Ok(Some(n))
            } else {
                Ok(None)
            }
        },
        None => Err(EPWParseError::Data(message(name, value))),
    }
}

fn measure_optional(f: &Vec<Vec<char>>, j: usize, name: &str, missing_tenths: u64) -> (r: Result<Option<Number>, EPWParseError>)
    requires
        0 < missing_tenths <= 1_000_000_000_000_000_000,
    ensures
        r is Ok <==> optional_measure(views(f@), j as int, missing_tenths as nat) is Some,
        r matches Ok(m) ==> Some(opt_model(m)) == optional_measure(views(f@), j as int, missing_tenths as nat) && opt_wf(m),
        r matches Err(e) ==> j < f.len() && (e matches EPWParseError::Data(m) && m@ == name@ + f@[j as int]@),
{
    if j < f.len() {
        assert(views(f@)[j as int] == f@[j as int]@);
        measure(&f[j], name, missing_tenths)
    } else {
        Ok(None)
    }
}

// The date and time of a record.

pub open spec fn i32_value(s: Seq<char>) -> Option<int> {
    match signed_value(s) {
        Some(v) => if i32::MIN <= v <= i32::MAX {
            Some(v)
        } else {
            None
        },
        None => None,
    }
}

pub open spec fn u32_value(s: Seq<char>) -> Option<nat> {
    match unsigned_value(s) {
        Some(v) => if v <= u32::MAX {
            Some(v)
        } else {
            None
        },
        None => None,
    }
}

/// The timestamp of a record: hour `h` of the file (1 to 24) is the hour
/// that starts at `h - 1`, and minute 60 is read as minute 0 of that same
/// hour.
pub open spec fn row_time(f: Seq<Seq<char>>, tz: int) -> Option<Timestamp> {
    match (i32_value(f[0]), u32_value(f[1]), u32_value(f[2]), u32_value(f[3]), u32_value(f[4])) {
        (Some(y), Some(mo), Some(d), Some(h), Some(mi)) => {
            let minute = if mi == 60 { 0 } else { mi as int };
            if h >= 1 && civil_valid(y, mo as int, d as int, h - 1, minute) {
                Some(
                    Timestamp {
                        year: y as i32,
                        month: mo as u32,
                        day: d as u32,
                        hour: (h - 1) as u32,
                        minute: minute as u32,
                        utc_offset: tz as i32,
                    },
                )
            } else {
                None
            }
        },
        _ => None,
    }
}

/// The year lies strictly inside the range that chrono represents.
pub open spec fn row_in_range(f: Seq<Seq<char>>) -> bool {
    i32_value(f[0]) matches Some(y) && MIN_YEAR < y < MAX_YEAR
}

/// The composed date and time of a record's fields, "Y-M-D H:M:00", with
/// the hour and minute as the file writes them.
pub open spec fn timestamp_text(f: Seq<Seq<char>>) -> Seq<char> {
    match (i32_value(f[0]), u32_value(f[1]), u32_value(f[2]), u32_value(f[3]), u32_value(f[4])) {
        (Some(y), Some(mo), Some(d), Some(h), Some(mi)) => signed_decimal_chars(y) + "-"@ + decimal_chars(mo)
            + "-"@ + decimal_chars(d) + " "@ + decimal_chars(h) + ":"@ + decimal_chars(mi) + ":00"@,
        _ => Seq::empty(),
    }
}

/// The year is not one of the two that chrono represents only in part.
pub open spec fn away_from_year_limits(f: Seq<Seq<char>>) -> bool {
    !(i32_value(f[0]) matches Some(y) && (y == MIN_YEAR || y == MAX_YEAR))
}

/// The message for `line`, whose fields are `f`, when it is not a record:
/// that of the first check that fails, in field order.
pub open spec fn row_failure(f: Seq<Seq<char>>, line: Seq<char>, tz: int) -> Seq<char> {
    if f.len() < 32 {
        "Invalid Data Row: "@ + line
    } else if i32_value(f[0]) is None {
        "Invalid Year: "@ + f[0]
    } else if u32_value(f[1]) is None {
        "Invalid Month: "@ + f[1]
    } else if u32_value(f[2]) is None {
        "Invalid Day: "@ + f[2]
    } else if u32_value(f[3]) is None {
        "Invalid Hour: "@ + f[3]
    } else if u32_value(f[4]) is None {
        "Invalid Minute: "@ + f[4]
    } else if row_time(f, tz) is None {
        "Invalid Timestamp: "@ + timestamp_text(f)
    } else if exact_measure(f[6], 999) is None {
        "Invalid Dry Bulb Temperature value: "@ + f[6]
    } else if exact_measure(f[7], 999) is None {
        "Invalid Dew Point Temperature value: "@ + f[7]
    } else if exact_measure(f[8], 9990) is None {
        "Invalid Relative Humidity value: "@ + f[8]
    } else if exact_measure(f[9], 9999990) is None {
        "Invalid Atmospheric Pressure value: "@ + f[9]
    } else if exact_measure(f[10], 99990) is None {
        "Invalid Extraterrestrial Horizontal Radiation value: "@ + f[10]
    } else if exact_measure(f[11], 99990) is None {
        "Invalid Extraterrestrial Direct Normal Radiation value: "@ + f[11]
    } else if exact_measure(f[12], 99990) is None {
        "Invalid Horizontal Infrared Radiation Intensity value: "@ + f[12]
    } else if exact_measure(f[13], 99990) is None {
        "Invalid Global Horizontal Radiation value: "@ + f[13]
    } else if exact_measure(f[14], 99990) is None {
        "Invalid Direct Normal Radiation value: "@ + f[14]
    } else if exact_measure(f[15], 99990) is None {
        "Invalid Diffuse Horizontal Radiation value: "@ + f[15]
    } else if threshold_measure(f[16], 999900) is None {
        "Invalid Global Horizontal Illuminance value: "@ + f[16]
    } else if threshold_measure(f[17], 999900) is None {
        "Invalid Direct Normal Illuminance value: "@ + f[17]
    } else if threshold_measure(f[18], 999900) is None {
        "Invalid Diffuse Horizontal Illuminance value: "@ + f[18]
    } else if exact_measure(f[19], 99990) is None {
        "Invalid Zenith Luminance value: "@ + f[19]
    } else if exact_measure(f[20], 9990) is None {
        "Invalid Wind Direction value: "@ + f[20]
    } else if exact_measure(f[21], 9990) is None {
        "Invalid Wind Speed value: "@ + f[21]
    } else if exact_measure(f[22], 990) is None {
        "Invalid Total Sky Cover value: "@ + f[22]
    } else if exact_measure(f[23], 990) is None {
        "Invalid Opaque Sky Cover value: "@ + f[23]
    } else if exact_measure(f[24], 99990) is None {
        "Invalid Visibility value: "@ + f[24]
    } else if exact_measure(f[25], 999990) is None {
        "Invalid Ceiling Height value: "@ + f[25]
    } else if !present_weather_ok(f[27]) {
        "Invalid Conditions: "@ + f[27]
    } else if exact_measure(f[28], 9990) is None {
        "Invalid Precipitable water value: "@ + f[28]
    } else if exact_measure(f[29], 9990) is None {
        "Invalid Aerosol Optical Depth value: "@ + f[29]
    } else if exact_measure(f[30], 9990) is None {
        "Invalid Snow Depth value: "@ + f[30]
    } else if exact_measure(f[31], 990) is None {
        "Invalid Days Since Last Snowfall value: "@ + f[31]
    } else if optional_measure(f, 32, 9990) is None {
        "Invalid Albedo value: "@ + f[32]
    } else if optional_measure(f, 33, 9990) is None {
        "Invalid Liquid Precipitation Depth value: "@ + f[33]
    } else {
        "Invalid Liquid Precipitation Quantity value: "@ + f[34]
    }
}

// A record.

/// The line's fields form a record.
#[verifier::opaque]
pub open spec fn row_ok(f: Seq<Seq<char>>, tz: int) -> bool {
    &&& f.len() >= 32
    &&& row_time(f, tz) is Some
    &&& present_weather_ok(f[27])
    &&& exact_measure(f[6], 999) is Some
    &&& exact_measure(f[7], 999) is Some
    &&& exact_measure(f[8], 9990) is Some
    &&& exact_measure(f[9], 9999990) is Some
    &&& exact_measure(f[10], 99990) is Some
    &&& exact_measure(f[11], 99990) is Some
    &&& exact_measure(f[12], 99990) is Some
    &&& exact_measure(f[13], 99990) is Some
    &&& exact_measure(f[14], 99990) is Some
    &&& exact_measure(f[15], 99990) is Some
    &&& threshold_measure(f[16], 999900) is Some
    &&& threshold_measure(f[17], 999900) is Some
    &&& threshold_measure(f[18], 999900) is Some
    &&& exact_measure(f[19], 99990) is Some
    &&& exact_measure(f[20], 9990) is Some
    &&& exact_measure(f[21], 9990) is Some
    &&& exact_measure(f[22], 990) is Some
    &&& exact_measure(f[23], 990) is Some
    &&& exact_measure(f[24], 99990) is Some
    &&& exact_measure(f[25], 999990) is Some
    &&& exact_measure(f[28], 9990) is Some
    &&& exact_measure(f[29], 9990) is Some
    &&& exact_measure(f[30], 9990) is Some
    &&& exact_measure(f[31], 990) is Some
    &&& optional_measure(f, 32, 9990) is Some
    &&& optional_measure(f, 33, 9990) is Some
    &&& optional_measure(f, 34, 9990) is Some
}

/// Entry `i` of every column of `d` holds the record that the fields `f` give.
#[verifier::opaque]
pub open spec fn row_at(d: WeatherData, i: int, f: Seq<Seq<char>>, tz: int) -> bool {
    &&& Some(d.timestamp@[i]) == row_time(f, tz)
    &&& d.flags@[i]@ == f[5]
    &&& d.present_weather_observation@[i] == (f[26] == seq!['0'])
    &&& present_weather_matches(d.present_weather_codes@[i], f[27])
    &&& Some(opt_model(d.dry_bulb_temperature@[i])) == exact_measure(f[6], 999) && opt_wf(d.dry_bulb_temperature@[i])
    &&& Some(opt_model(d.dew_point_temperature@[i])) == exact_measure(f[7], 999) && opt_wf(d.dew_point_temperature@[i])
    &&& Some(opt_model(d.relative_humidity@[i])) == exact_measure(f[8], 9990) && opt_wf(d.relative_humidity@[i])
    &&& Some(opt_model(d.atmospheric_pressure@[i])) == exact_measure(f[9], 9999990) && opt_wf(d.atmospheric_pressure@[i])
    &&& Some(opt_model(d.extraterrestrial_horizontal_radiation@[i])) == exact_measure(f[10], 99990) && opt_wf(d.extraterrestrial_horizontal_radiation@[i])
    &&& Some(opt_model(d.extraterrestrial_direct_normal_radiation@[i])) == exact_measure(f[11], 99990) && opt_wf(d.extraterrestrial_direct_normal_radiation@[i])
    &&& Some(opt_model(d.horizontal_infrared_radiation_intensity@[i])) == exact_measure(f[12], 99990) && opt_wf(d.horizontal_infrared_radiation_intensity@[i])
    &&& Some(opt_model(d.global_horizontal_radiation@[i])) == exact_measure(f[13], 99990) && opt_wf(d.global_horizontal_radiation@[i])
    &&& Some(opt_model(d.direct_normal_radiation@[i])) == exact_measure(f[14], 99990) && opt_wf(d.direct_normal_radiation@[i])
    &&& Some(opt_model(d.diffuse_horizontal_radiation@[i])) == exact_measure(f[15], 99990) && opt_wf(d.diffuse_horizontal_radiation@[i])
    &&& Some(opt_model(d.global_horizontal_illuminance@[i])) == threshold_measure(f[16], 999900) && opt_wf(d.global_horizontal_illuminance@[i])
    &&& Some(opt_model(d.direct_normal_illuminance@[i])) == threshold_measure(f[17], 999900) && opt_wf(d.direct_normal_illuminance@[i])
    &&& Some(opt_model(d.diffuse_horizontal_illuminance@[i])) == threshold_measure(f[18], 999900) && opt_wf(d.diffuse_horizontal_illuminance@[i])
    &&& Some(opt_model(d.zenith_luminance@[i])) == exact_measure(f[19], 99990) && opt_wf(d.zenith_luminance@[i])
    &&& Some(opt_model(d.wind_direction@[i])) == exact_measure(f[20], 9990) && opt_wf(d.wind_direction@[i])
    &&& Some(opt_model(d.wind_speed@[i])) == exact_measure(f[21], 9990) && opt_wf(d.wind_speed@[i])
    &&& Some(opt_model(d.total_sky_cover@[i])) == exact_measure(f[22], 990) && opt_wf(d.total_sky_cover@[i])
    &&& Some(opt_model(d.opaque_sky_cover@[i])) == exact_measure(f[23], 990) && opt_wf(d.opaque_sky_cover@[i])
    &&& Some(opt_model(d.visibility@[i])) == exact_measure(f[24], 99990) && opt_wf(d.visibility@[i])
    &&& Some(opt_model(d.ceiling_height@[i])) == exact_measure(f[25], 999990) && opt_wf(d.ceiling_height@[i])
    &&& Some(opt_model(d.precipitable_water@[i])) == exact_measure(f[28], 9990) && opt_wf(d.precipitable_water@[i])
    &&& Some(opt_model(d.aerosol_optical_depth@[i])) == exact_measure(f[29], 9990) && opt_wf(d.aerosol_optical_depth@[i])
    &&& Some(opt_model(d.snow_depth@[i])) == exact_measure(f[30], 9990) && opt_wf(d.snow_depth@[i])
    &&& Some(opt_model(d.days_since_last_snowfall@[i])) == exact_measure(f[31], 990) && opt_wf(d.days_since_last_snowfall@[i])
    &&& Some(opt_model(d.albedo@[i])) == optional_measure(f, 32, 9990) && opt_wf(d.albedo@[i])
    &&& Some(opt_model(d.liquid_precipitation_depth@[i])) == optional_measure(f, 33, 9990) && opt_wf(d.liquid_precipitation_depth@[i])
    &&& Some(opt_model(d.liquid_precipitation_quantity@[i])) == optional_measure(f, 34, 9990) && opt_wf(d.liquid_precipitation_quantity@[i])
}

/// `new` is `old` with one more record, the one that `f` gives.
pub open spec fn row_appended(old: WeatherData, new: WeatherData, f: Seq<Seq<char>>, tz: int) -> bool {
    let n = old.len() as int;
    &&& new.wf()
    &&& new.len() == old.len() + 1
    &&& new.timestamp@.take(n) == old.timestamp@
    &&& new.flags@.take(n) == old.flags@
    &&& new.dry_bulb_temperature@.take(n) == old.dry_bulb_temperature@
    &&& new.dew_point_temperature@.take(n) == old.dew_point_temperature@
    &&& new.relative_humidity@.take(n) == old.relative_humidity@
    &&& new.atmospheric_pressure@.take(n) == old.atmospheric_pressure@
    &&& new.extraterrestrial_horizontal_radiation@.take(n) == old.extraterrestrial_horizontal_radiation@
    &&& new.extraterrestrial_direct_normal_radiation@.take(n) == old.extraterrestrial_direct_normal_radiation@
    &&& new.horizontal_infrared_radiation_intensity@.take(n) == old.horizontal_infrared_radiation_intensity@
    &&& new.global_horizontal_radiation@.take(n) == old.global_horizontal_radiation@
    &&& new.direct_normal_radiation@.take(n) == old.direct_normal_radiation@
    &&& new.diffuse_horizontal_radiation@.take(n) == old.diffuse_horizontal_radiation@
    &&& new.global_horizontal_illuminance@.take(n) == old.global_horizontal_illuminance@
    &&& new.direct_normal_illuminance@.take(n) == old.direct_normal_illuminance@
    &&& new.diffuse_horizontal_illuminance@.take(n) == old.diffuse_horizontal_illuminance@
    &&& new.zenith_luminance@.take(n) == old.zenith_luminance@
    &&& new.wind_direction@.take(n) == old.wind_direction@
    &&& new.wind_speed@.take(n) == old.wind_speed@
    &&& new.total_sky_cover@.take(n) == old.total_sky_cover@
    &&& new.opaque_sky_cover@.take(n) == old.opaque_sky_cover@
    &&& new.visibility@.take(n) == old.visibility@
    &&& new.ceiling_height@.take(n) == old.ceiling_height@
    &&& new.present_weather_observation@.take(n) == old.present_weather_observation@
    &&& new.present_weather_codes@.take(n) == old.present_weather_codes@
    &&& new.precipitable_water@.take(n) == old.precipitable_water@
    &&& new.aerosol_optical_depth@.take(n) == old.aerosol_optical_depth@
    &&& new.snow_depth@.take(n) == old.snow_depth@
    &&& new.days_since_last_snowfall@.take(n) == old.days_since_last_snowfall@
    &&& new.albedo@.take(n) == old.albedo@
    &&& new.liquid_precipitation_depth@.take(n) == old.liquid_precipitation_depth@
    &&& new.liquid_precipitation_quantity@.take(n) == old.liquid_precipitation_quantity@
    &&& row_at(new, n, f, tz)
}

proof fn lemma_row_kept(old: WeatherData, new: WeatherData, f: Seq<Seq<char>>, tz: int, g: Seq<Seq<char>>, i: int)
    requires
        old.wf(),
        row_appended(old, new, f, tz),
        0 <= i < old.len(),
        row_at(old, i, g, tz),
    ensures
        row_at(new, i, g, tz),
{
    reveal(row_at);
    let n = old.len() as int;
    assert(new.timestamp@[i] == new.timestamp@.take(n)[i]);
    assert(new.flags@[i] == new.flags@.take(n)[i]);
    assert(new.dry_bulb_temperature@[i] == new.dry_bulb_temperature@.take(n)[i]);
    assert(new.dew_point_temperature@[i] == new.dew_point_temperature@.take(n)[i]);
    assert(new.relative_humidity@[i] == new.relative_humidity@.take(n)[i]);
    assert(new.atmospheric_pressure@[i] == new.atmospheric_pressure@.take(n)[i]);
    assert(new.extraterrestrial_horizontal_radiation@[i] == new.extraterrestrial_horizontal_radiation@.take(n)[i]);
    assert(new.extraterrestrial_direct_normal_radiation@[i] == new.extraterrestrial_direct_normal_radiation@.take(n)[i]);
    assert(new.horizontal_infrared_radiation_intensity@[i] == new.horizontal_infrared_radiation_intensity@.take(n)[i]);
    assert(new.global_horizontal_radiation@[i] == new.global_horizontal_radiation@.take(n)[i]);
    assert(new.direct_normal_radiation@[i] == new.direct_normal_radiation@.take(n)[i]);
    assert(new.diffuse_horizontal_radiation@[i] == new.diffuse_horizontal_radiation@.take(n)[i]);
    assert(new.global_horizontal_illuminance@[i] == new.global_horizontal_illuminance@.take(n)[i]);
    assert(new.direct_normal_illuminance@[i] == new.direct_normal_illuminance@.take(n)[i]);
    assert(new.diffuse_horizontal_illuminance@[i] == new.diffuse_horizontal_illuminance@.take(n)[i]);
    assert(new.zenith_luminance@[i] == new.zenith_luminance@.take(n)[i]);
    assert(new.wind_direction@[i] == new.wind_direction@.take(n)[i]);
    assert(new.wind_speed@[i] == new.wind_speed@.take(n)[i]);
    assert(new.total_sky_cover@[i] == new.total_sky_cover@.take(n)[i]);
    assert(new.opaque_sky_cover@[i] == new.opaque_sky_cover@.take(n)[i]);
    assert(new.visibility@[i] == new.visibility@.take(n)[i]);
    assert(new.ceiling_height@[i] == new.ceiling_height@.take(n)[i]);
    assert(new.present_weather_observation@[i] == new.present_weather_observation@.take(n)[i]);
    assert(new.present_weather_codes@[i] == new.present_weather_codes@.take(n)[i]);
    assert(new.precipitable_water@[i] == new.precipitable_water@.take(n)[i]);
    assert(new.aerosol_optical_depth@[i] == new.aerosol_optical_depth@.take(n)[i]);
    assert(new.snow_depth@[i] == new.snow_depth@.take(n)[i]);
    assert(new.days_since_last_snowfall@[i] == new.days_since_last_snowfall@.take(n)[i]);
    assert(new.albedo@[i] == new.albedo@.take(n)[i]);
    assert(new.liquid_precipitation_depth@[i] == new.liquid_precipitation_depth@.take(n)[i]);
    assert(new.liquid_precipitation_quantity@[i] == new.liquid_precipitation_quantity@.take(n)[i]);
}

#[verifier::rlimit(60)]
/// Parses one data line and appends its record to `dest`. On an error `dest`
/// is left as it was: the whole line is read before any column grows.
pub fn _parse_row(line: &str, dest: &mut WeatherData, timezone: i32) -> (r: Result<(), EPWParseError>)
    requires
        old(dest).wf(),
        -86_400 < timezone < 86_400,
    ensures
        r is Ok ==> row_ok(split_on(line@, ','), timezone as int) && row_appended(
            *old(dest),
            *final(dest),
            split_on(line@, ','),
            timezone as int,
        ),
        row_ok(split_on(line@, ','), timezone as int) && row_in_range(split_on(line@, ',')) ==> r is Ok,
        r is Err ==> *final(dest) == *old(dest),
        r matches Err(e) ==> e matches EPWParseError::Data(m) && (away_from_year_limits(split_on(line@, ','))
            ==> m@ == row_failure(split_on(line@, ','), line@, timezone as int)),
{
    reveal(row_ok);
    reveal(row_at);
    let chars = chars_of(line);
    let f = split_fields(&chars, ',');
    let ghost fs = split_on(line@, ',');
    if f.len() < 32 {
        return Err(EPWParseError::Data(message("Invalid Data Row: ", &chars)));
    }
    assert forall|k: int| 0 <= k < f.len() implies #[trigger] fs[k] == f@[k]@ by {}
    let year: i32 = match parse_signed(&f[0], i32::MIN as i64, i32::MAX as i64) {
        Some(v) => v as i32,
        None => {
            return Err(EPWParseError::Data(message("Invalid Year: ", &f[0])));
        },
    };
    let month: u32 = match parse_unsigned(&f[1], u32::MAX as u64) {
        Some(v) => v as u32,
        None => {
            return Err(EPWParseError::Data(message("Invalid Month: ", &f[1])));
        },
    };
    let day: u32 = match parse_unsigned(&f[2], u32::MAX as u64) {
        Some(v) => v as u32,
        None => {
            return Err(EPWParseError::Data(message("Invalid Day: ", &f[2])));
        },
    };
    let hour: u32 = match parse_unsigned(&f[3], u32::MAX as u64) {
        Some(v) => v as u32,
        None => {
            return Err(EPWParseError::Data(message("Invalid Hour: ", &f[3])));
        },
    };
    let minute: u32 = match parse_unsigned(&f[4], u32::MAX as u64) {
        Some(v) => v as u32,
        None => {
            return Err(EPWParseError::Data(message("Invalid Minute: ", &f[4])));
        },
    };
    let resolved = if hour >= 1 {
        timestamp_at(year, month, day, hour - 1, if minute == 60 { 0 } else { minute }, timezone)
    } else {
        None
    };
    let timestamp = match resolved {
        Some(t) => t,
        None => {
            let composed = timestamp_message(year, month, day, hour, minute);
            proof {
                assert(timestamp_text(fs) == signed_decimal_chars(year as int) + "-"@ + decimal_chars(month as nat) + "-"@
                    + decimal_chars(day as nat) + " "@ + decimal_chars(hour as nat) + ":"@ + decimal_chars(minute as nat) + ":00"@);
            }
            return Err(EPWParseError::Data(composed));
        },
    };
    assert(row_time(fs, timezone as int) == Some(timestamp));
    let dry_bulb_temperature = measure(&f[6], "Invalid Dry Bulb Temperature value: ", 999)?;
    let dew_point_temperature = measure(&f[7], "Invalid Dew Point Temperature value: ", 999)?;
    let relative_humidity = measure(&f[8], "Invalid Relative Humidity value: ", 9990)?;
    let atmospheric_pressure = measure(&f[9], "Invalid Atmospheric Pressure value: ", 9999990)?;
    let extraterrestrial_horizontal_radiation = measure(&f[10], "Invalid Extraterrestrial Horizontal Radiation value: ", 99990)?;
    let extraterrestrial_direct_normal_radiation = measure(&f[11], "Invalid Extraterrestrial Direct Normal Radiation value: ", 99990)?;
    let horizontal_infrared_radiation_intensity = measure(&f[12], "Invalid Horizontal Infrared Radiation Intensity value: ", 99990)?;
    let global_horizontal_radiation = measure(&f[13], "Invalid Global Horizontal Radiation value: ", 99990)?;
    let direct_normal_radiation = measure(&f[14], "Invalid Direct Normal Radiation value: ", 99990)?;
    let diffuse_horizontal_radiation = measure(&f[15], "Invalid Diffuse Horizontal Radiation value: ", 99990)?;
    let global_horizontal_illuminance = measure_below(&f[16], "Invalid Global Horizontal Illuminance value: ", 999900)?;
    let direct_normal_illuminance = measure_below(&f[17], "Invalid Direct Normal Illuminance value: ", 999900)?;
    let diffuse_horizontal_illuminance = measure_below(&f[18], "Invalid Diffuse Horizontal Illuminance value: ", 999900)?;
    let zenith_luminance = measure(&f[19], "Invalid Zenith Luminance value: ", 99990)?;
    let wind_direction = measure(&f[20], "Invalid Wind Direction value: ", 9990)?;
    let wind_speed = measure(&f[21], "Invalid Wind Speed value: ", 9990)?;
    let total_sky_cover = measure(&f[22], "Invalid Total Sky Cover value: ", 990)?;
    let opaque_sky_cover = measure(&f[23], "Invalid Opaque Sky Cover value: ", 990)?;
    let visibility = measure(&f[24], "Invalid Visibility value: ", 99990)?;
    let ceiling_height = measure(&f[25], "Invalid Ceiling Height value: ", 999990)?;
    let present_weather = decode_present_weather(&f[27])?;
    let precipitable_water = measure(&f[28], "Invalid Precipitable water value: ", 9990)?;
    let aerosol_optical_depth = measure(&f[29], "Invalid Aerosol Optical Depth value: ", 9990)?;
    let snow_depth = measure(&f[30], "Invalid Snow Depth value: ", 9990)?;
    let days_since_last_snowfall = measure(&f[31], "Invalid Days Since Last Snowfall value: ", 990)?;
    let albedo = measure_optional(&f, 32, "Invalid Albedo value: ", 9990)?;
    let liquid_precipitation_depth = measure_optional(&f, 33, "Invalid Liquid Precipitation Depth value: ", 9990)?;
    let liquid_precipitation_quantity = measure_optional(&f, 34, "Invalid Liquid Precipitation Quantity value: ", 9990)?;
    proof {
        reveal_strlit("0");
        assert("0"@ =~= seq!['0']);
    }
    let observed = same_text(&f[26], "0");
    let flags = string_of(&f[5]);
    let ghost before = *dest;
    dest.timestamp.push(timestamp);
    dest.flags.push(flags);
    dest.dry_bulb_temperature.push(dry_bulb_temperature);
    dest.dew_point_temperature.push(dew_point_temperature);
    dest.relative_humidity.push(relative_humidity);
    dest.atmospheric_pressure.push(atmospheric_pressure);
    dest.extraterrestrial_horizontal_radiation.push(extraterrestrial_horizontal_radiation);
    dest.extraterrestrial_direct_normal_radiation.push(extraterrestrial_direct_normal_radiation);
    dest.horizontal_infrared_radiation_intensity.push(horizontal_infrared_radiation_intensity);
    dest.global_horizontal_radiation.push(global_horizontal_radiation);
    dest.direct_normal_radiation.push(direct_normal_radiation);
    dest.diffuse_horizontal_radiation.push(diffuse_horizontal_radiation);
    dest.global_horizontal_illuminance.push(global_horizontal_illuminance);
    dest.direct_normal_illuminance.push(direct_normal_illuminance);
    dest.diffuse_horizontal_illuminance.push(diffuse_horizontal_illuminance);
    dest.zenith_luminance.push(zenith_luminance);
    dest.wind_direction.push(wind_direction);
    dest.wind_speed.push(wind_speed);
    dest.total_sky_cover.push(total_sky_cover);
    dest.opaque_sky_cover.push(opaque_sky_cover);
    dest.visibility.push(visibility);
    dest.ceiling_height.push(ceiling_height);
    dest.present_weather_observation.push(observed);
    dest.present_weather_codes.push(present_weather);
    dest.precipitable_water.push(precipitable_water);
    dest.aerosol_optical_depth.push(aerosol_optical_depth);
    dest.snow_depth.push(snow_depth);
    dest.days_since_last_snowfall.push(days_since_last_snowfall);
    dest.albedo.push(albedo);
    dest.liquid_precipitation_depth.push(liquid_precipitation_depth);
    dest.liquid_precipitation_quantity.push(liquid_precipitation_quantity);
    proof {
        let n = before.len() as int;
        assert(dest.timestamp@.take(n) =~= before.timestamp@);
        assert(dest.flags@.take(n) =~= before.flags@);
        assert(dest.dry_bulb_temperature@.take(n) =~= before.dry_bulb_temperature@);
        assert(dest.dew_point_temperature@.take(n) =~= before.dew_point_temperature@);
        assert(dest.relative_humidity@.take(n) =~= before.relative_humidity@);
        assert(dest.atmospheric_pressure@.take(n) =~= before.atmospheric_pressure@);
        assert(dest.extraterrestrial_horizontal_radiation@.take(n) =~= before.extraterrestrial_horizontal_radiation@);
        assert(dest.extraterrestrial_direct_normal_radiation@.take(n) =~= before.extraterrestrial_direct_normal_radiation@);
        assert(dest.horizontal_infrared_radiation_intensity@.take(n) =~= before.horizontal_infrared_radiation_intensity@);
        assert(dest.global_horizontal_radiation@.take(n) =~= before.global_horizontal_radiation@);
        assert(dest.direct_normal_radiation@.take(n) =~= before.direct_normal_radiation@);
        assert(dest.diffuse_horizontal_radiation@.take(n) =~= before.diffuse_horizontal_radiation@);
        assert(dest.global_horizontal_illuminance@.take(n) =~= before.global_horizontal_illuminance@);
        assert(dest.direct_normal_illuminance@.take(n) =~= before.direct_normal_illuminance@);
        assert(dest.diffuse_horizontal_illuminance@.take(n) =~= before.diffuse_horizontal_illuminance@);
        assert(dest.zenith_luminance@.take(n) =~= before.zenith_luminance@);
        assert(dest.wind_direction@.take(n) =~= before.wind_direction@);
        assert(dest.wind_speed@.take(n) =~= before.wind_speed@);
        assert(dest.total_sky_cover@.take(n) =~= before.total_sky_cover@);
        assert(dest.opaque_sky_cover@.take(n) =~= before.opaque_sky_cover@);
        assert(dest.visibility@.take(n) =~= before.visibility@);
        assert(dest.ceiling_height@.take(n) =~= before.ceiling_height@);
        assert(dest.present_weather_observation@.take(n) =~= before.present_weather_observation@);
        assert(dest.present_weather_codes@.take(n) =~= before.present_weather_codes@);
        assert(dest.precipitable_water@.take(n) =~= before.precipitable_water@);
        assert(dest.aerosol_optical_depth@.take(n) =~= before.aerosol_optical_depth@);
        assert(dest.snow_depth@.take(n) =~= before.snow_depth@);
        assert(dest.days_since_last_snowfall@.take(n) =~= before.days_since_last_snowfall@);
        assert(dest.albedo@.take(n) =~= before.albedo@);
        assert(dest.liquid_precipitation_depth@.take(n) =~= before.liquid_precipitation_depth@);
        assert(dest.liquid_precipitation_quantity@.take(n) =~= before.liquid_precipitation_quantity@);
    }
    Ok(())
}

proof fn lemma_rows_kept(before: WeatherData, after: WeatherData, ls: Seq<Seq<char>>, i: int, tz: int, f: Seq<Seq<char>>)
    requires
        before.wf(),
        before.len() == i,
        row_appended(before, after, f, tz),
        forall|j: int| 0 <= j < i ==> #[trigger] row_done(before, ls, j, tz),
    ensures
        forall|j: int| 0 <= j < i ==> #[trigger] row_done(after, ls, j, tz),
{
    assert forall|j: int| 0 <= j < i implies #[trigger] row_done(after, ls, j, tz) by {
        assert(row_done(before, ls, j, tz));
        lemma_row_kept(before, after, f, tz, split_on(ls[j], ','), j);
    }
}

/// "Invalid Timestamp: Y-M-D H:M:00".
fn timestamp_message(year: i32, month: u32, day: u32, hour: u32, minute: u32) -> (r: String)
    ensures
        r@ == "Invalid Timestamp: "@ + (signed_decimal_chars(year as int) + "-"@ + decimal_chars(month as nat) + "-"@
            + decimal_chars(day as nat) + " "@ + decimal_chars(hour as nat) + ":"@ + decimal_chars(minute as nat) + ":00"@),
{
    let mut out = signed_decimal_text(year as i64);
    out = concat(&out, &chars_of("-"));
    out = concat(&out, &decimal_text(month as u64));
    out = concat(&out, &chars_of("-"));
    out = concat(&out, &decimal_text(day as u64));
    out = concat(&out, &chars_of(" "));
    out = concat(&out, &decimal_text(hour as u64));
    out = concat(&out, &chars_of(":"));
    out = concat(&out, &decimal_text(minute as u64));
    out = concat(&out, &chars_of(":00"));
    message("Invalid Timestamp: ", &out)
}

/// Line `i` of `ls` forms a record.
pub open spec fn line_row_ok(ls: Seq<Seq<char>>, i: int, tz: int) -> bool {
    row_ok(split_on(ls[i], ','), tz)
}

/// Entry `i` of `d` holds the record of line `i` of `ls`.
pub open spec fn line_row_at(d: WeatherData, ls: Seq<Seq<char>>, i: int, tz: int) -> bool {
    row_at(d, i, split_on(ls[i], ','), tz)
}

/// Line `i` of `ls` forms a record, held at entry `i` of `d`.
pub open spec fn row_done(d: WeatherData, ls: Seq<Seq<char>>, i: int, tz: int) -> bool {
    line_row_ok(ls, i, tz) && line_row_at(d, ls, i, tz)
}

/// Line `i` of `ls` forms a record whose year lies inside chrono's range.
pub open spec fn line_ok_in_range(ls: Seq<Seq<char>>, i: int, tz: int) -> bool {
    line_row_ok(ls, i, tz) && row_in_range(split_on(ls[i], ','))
}

/// `e` is the error of line `k` of `ls`, the first that does not form a
/// record.
pub open spec fn failing_line_error(e: EPWParseError, ls: Seq<Seq<char>>, k: int, tz: int) -> bool {
    &&& 0 <= k < ls.len()
    &&& forall|j: int| 0 <= j < k ==> #[trigger] line_row_ok(ls, j, tz)
    &&& !line_ok_in_range(ls, k, tz)
    &&& e matches EPWParseError::Data(m) && (away_from_year_limits(split_on(ls[k], ','))
        ==> m@ == row_failure(split_on(ls[k], ','), ls[k], tz))
}

/// Some line of `ls` is the first that fails, and `e` is its error.
pub open spec fn first_failing_line(e: EPWParseError, ls: Seq<Seq<char>>, tz: int) -> bool {
    exists|k: int| #[trigger] failing_line_error(e, ls, k, tz)
}

/// Every line of `ls` forms a record whose year lies inside chrono's range.
pub open spec fn rows_ok_in_range(ls: Seq<Seq<char>>, tz: int) -> bool {
    forall|i: int| 0 <= i < ls.len() ==> #[trigger] line_ok_in_range(ls, i, tz)
}

/// `d` holds one record per line of `ls`, in order.
pub open spec fn data_matches(d: WeatherData, ls: Seq<Seq<char>>, tz: int) -> bool {
    &&& d.wf()
    &&& d.len() == ls.len()
    &&& forall|i: int| 0 <= i < ls.len() ==> #[trigger] row_done(d, ls, i, tz)
}

fn empty_data() -> (r: WeatherData)
    ensures
        r.wf(),
        r.len() == 0,
{
    WeatherData {
        timestamp: Vec::new(),
        flags: Vec::new(),
        dry_bulb_temperature: Vec::new(),
        dew_point_temperature: Vec::new(),
        relative_humidity: Vec::new(),
        atmospheric_pressure: Vec::new(),
        extraterrestrial_horizontal_radiation: Vec::new(),
        extraterrestrial_direct_normal_radiation: Vec::new(),
        horizontal_infrared_radiation_intensity: Vec::new(),
        global_horizontal_radiation: Vec::new(),
        direct_normal_radiation: Vec::new(),
        diffuse_horizontal_radiation: Vec::new(),
        global_horizontal_illuminance: Vec::new(),
        direct_normal_illuminance: Vec::new(),
        diffuse_horizontal_illuminance: Vec::new(),
        zenith_luminance: Vec::new(),
        wind_direction: Vec::new(),
        wind_speed: Vec::new(),
        total_sky_cover: Vec::new(),
        opaque_sky_cover: Vec::new(),
        visibility: Vec::new(),
        ceiling_height: Vec::new(),
        present_weather_observation: Vec::new(),
        present_weather_codes: Vec::new(),
        precipitable_water: Vec::new(),
        aerosol_optical_depth: Vec::new(),
        snow_depth: Vec::new(),
        days_since_last_snowfall: Vec::new(),
        albedo: Vec::new(),
        liquid_precipitation_depth: Vec::new(),
        liquid_precipitation_quantity: Vec::new(),
    }
}

/// Parses every line of `lines` as a data record at the time zone of
/// `header`'s location. Any line that is not a record fails the whole parse.
pub fn _parse_data(lines: &Vec<String>, header: &Header) -> (r: Result<WeatherData, EPWParseError>)
    requires
        -86_400 < header.location.time_zone < 86_400,
    ensures
        r matches Ok(d) ==> data_matches(d, string_views(lines@), header.location.time_zone as int),
        rows_ok_in_range(string_views(lines@), header.location.time_zone as int) ==> r is Ok,
        r matches Err(e) ==> e is Data && !rows_ok_in_range(string_views(lines@), header.location.time_zone as int),
        r matches Err(e) ==> first_failing_line(e, string_views(lines@), header.location.time_zone as int),
{
    let tz = header.location.time_zone;
    let ghost ls = string_views(lines@);
    let mut data = empty_data();
    let mut i: usize = 0;
    while i < lines.len()
        invariant
            ls == string_views(lines@),
            tz == header.location.time_zone,
            -86_400 < tz < 86_400,
            i <= lines.len(),
            data.wf(),
            data.len() == i,
            forall|j: int| 0 <= j < i ==> #[trigger] row_done(data, ls, j, tz as int),
        decreases lines.len() - i,
    {
        let ghost before = data;
        assert(forall|j: int| 0 <= j < i ==> #[trigger] row_done(before, ls, j, tz as int));
        let line = lines[i].as_str();
        assert(ls.len() == lines.len());
        assert(ls[i as int] == line@);
        match _parse_row(line, &mut data, tz) {
            Ok(()) => {
                proof {
                    lemma_rows_kept(before, data, ls, i as int, tz as int, split_on(line@, ','));
                    assert(row_done(data, ls, i as int, tz as int));
                }
            },
            Err(e) => {
                assert(!line_ok_in_range(ls, i as int, tz as int));
                assert(!rows_ok_in_range(ls, tz as int));
                assert(forall|j: int| 0 <= j < i ==> #[trigger] line_row_ok(ls, j, tz as int)) by {
                    assert forall|j: int| 0 <= j < i implies #[trigger] line_row_ok(ls, j, tz as int) by {
                        assert(row_done(before, ls, j, tz as int));
                    }
                }
                assert(failing_line_error(e, ls, i as int, tz as int));
                return Err(e);
            },
        }
        i += 1;
    }
    Ok(data)
}

// Properties of parsed records.

/// `o` is what a field with missing-value marker `tenths / 10` gives: `None`
/// exactly when the field's number equals the marker, else that number.
pub open spec fn marks_missing(o: Option<Number>, s: Seq<char>, tenths: nat) -> bool {
    number_value(s) matches Some(m) && if equals_tenths(m, tenths) {
        o is None
    } else {
        opt_model(o) == Some(m)
    }
}

/// `o` is what an illuminance field gives: the field's number when it is
/// below `bound`, else `None`.
pub open spec fn passes_below(o: Option<Number>, s: Seq<char>, bound: nat) -> bool {
    number_value(s) matches Some(m) && if is_below(m, bound) {
        opt_model(o) == Some(m)
    } else {
        o is None
    }
}

/// Parsing `n` lines gives `n` entries in every column.
pub proof fn lemma_parsed_columns_have_line_count(d: WeatherData, ls: Seq<Seq<char>>, tz: int)
    requires
        data_matches(d, ls, tz),
    ensures
        d.timestamp@.len() == ls.len(),
        d.flags@.len() == ls.len(),
        d.dry_bulb_temperature@.len() == ls.len(),
        d.dew_point_temperature@.len() == ls.len(),
        d.relative_humidity@.len() == ls.len(),
        d.atmospheric_pressure@.len() == ls.len(),
        d.extraterrestrial_horizontal_radiation@.len() == ls.len(),
        d.extraterrestrial_direct_normal_radiation@.len() == ls.len(),
        d.horizontal_infrared_radiation_intensity@.len() == ls.len(),
        d.global_horizontal_radiation@.len() == ls.len(),
        d.direct_normal_radiation@.len() == ls.len(),
        d.diffuse_horizontal_radiation@.len() == ls.len(),
        d.global_horizontal_illuminance@.len() == ls.len(),
        d.direct_normal_illuminance@.len() == ls.len(),
        d.diffuse_horizontal_illuminance@.len() == ls.len(),
        d.zenith_luminance@.len() == ls.len(),
        d.wind_direction@.len() == ls.len(),
        d.wind_speed@.len() == ls.len(),
        d.total_sky_cover@.len() == ls.len(),
        d.opaque_sky_cover@.len() == ls.len(),
        d.visibility@.len() == ls.len(),
        d.ceiling_height@.len() == ls.len(),
        d.present_weather_observation@.len() == ls.len(),
        d.present_weather_codes@.len() == ls.len(),
        d.precipitable_water@.len() == ls.len(),
        d.aerosol_optical_depth@.len() == ls.len(),
        d.snow_depth@.len() == ls.len(),
        d.days_since_last_snowfall@.len() == ls.len(),
        d.albedo@.len() == ls.len(),
        d.liquid_precipitation_depth@.len() == ls.len(),
        d.liquid_precipitation_quantity@.len() == ls.len(),
{
}

/// In a parsed record, a field with an exact missing-value marker is
/// missing exactly when its number equals the marker, and otherwise holds
/// that number unchanged.
pub proof fn lemma_exact_markers(d: WeatherData, i: int, f: Seq<Seq<char>>, tz: int)
    requires
        row_ok(f, tz),
        row_at(d, i, f, tz),
    ensures
        marks_missing(d.dry_bulb_temperature@[i], f[6], 999),
        marks_missing(d.dew_point_temperature@[i], f[7], 999),
        marks_missing(d.relative_humidity@[i], f[8], 9990),
        marks_missing(d.atmospheric_pressure@[i], f[9], 9999990),
        marks_missing(d.extraterrestrial_horizontal_radiation@[i], f[10], 99990),
        marks_missing(d.extraterrestrial_direct_normal_radiation@[i], f[11], 99990),
        marks_missing(d.horizontal_infrared_radiation_intensity@[i], f[12], 99990),
        marks_missing(d.global_horizontal_radiation@[i], f[13], 99990),
        marks_missing(d.direct_normal_radiation@[i], f[14], 99990),
        marks_missing(d.diffuse_horizontal_radiation@[i], f[15], 99990),
        marks_missing(d.zenith_luminance@[i], f[19], 99990),
        marks_missing(d.wind_direction@[i], f[20], 9990),
        marks_missing(d.wind_speed@[i], f[21], 9990),
        marks_missing(d.total_sky_cover@[i], f[22], 990),
        marks_missing(d.opaque_sky_cover@[i], f[23], 990),
        marks_missing(d.visibility@[i], f[24], 99990),
        marks_missing(d.ceiling_height@[i], f[25], 999990),
        marks_missing(d.precipitable_water@[i], f[28], 9990),
        marks_missing(d.aerosol_optical_depth@[i], f[29], 9990),
        marks_missing(d.snow_depth@[i], f[30], 9990),
        marks_missing(d.days_since_last_snowfall@[i], f[31], 990),
{
    reveal(row_ok);
    reveal(row_at);
}

/// In a parsed record, an illuminance of 999900 or more is missing, and a
/// smaller one is kept unchanged.
pub proof fn lemma_illuminance_threshold(d: WeatherData, i: int, f: Seq<Seq<char>>, tz: int)
    requires
        row_ok(f, tz),
        row_at(d, i, f, tz),
    ensures
        passes_below(d.global_horizontal_illuminance@[i], f[16], 999900),
        passes_below(d.direct_normal_illuminance@[i], f[17], 999900),
        passes_below(d.diffuse_horizontal_illuminance@[i], f[18], 999900),
{
    reveal(row_ok);
    reveal(row_at);
}

/// A line of 32 fields has no albedo or liquid precipitation; a line of 35
/// or more has all three, read with their missing-value markers.
pub proof fn lemma_trailing_fields(d: WeatherData, i: int, f: Seq<Seq<char>>, tz: int)
    requires
        row_ok(f, tz),
        row_at(d, i, f, tz),
    ensures
        f.len() == 32 ==> d.albedo@[i] is None && d.liquid_precipitation_depth@[i] is None
            && d.liquid_precipitation_quantity@[i] is None,
        f.len() >= 35 ==> marks_missing(d.albedo@[i], f[32], 9990) && marks_missing(
            d.liquid_precipitation_depth@[i],
            f[33],
            9990,
        ) && marks_missing(d.liquid_precipitation_quantity@[i], f[34], 9990),
{
    reveal(row_ok);
    reveal(row_at);
}

/// The time of a parsed record: the file's hour `h` is stored as `h - 1`,
/// minute 60 as minute 0 of that same hour, other minutes as they are, at
/// the header's offset.
pub proof fn lemma_record_time(d: WeatherData, i: int, f: Seq<Seq<char>>, tz: int)
    requires
        -86_400 < tz < 86_400,
        row_ok(f, tz),
        row_at(d, i, f, tz),
    ensures
        i32_value(f[0]) == Some(d.timestamp@[i].year as int),
        u32_value(f[1]) == Some(d.timestamp@[i].month as nat),
        u32_value(f[2]) == Some(d.timestamp@[i].day as nat),
        u32_value(f[3]) == Some((d.timestamp@[i].hour + 1) as nat),
        u32_value(f[4]) == Some(60nat) ==> d.timestamp@[i].minute == 0,
        u32_value(f[4]) != Some(60nat) ==> u32_value(f[4]) == Some(d.timestamp@[i].minute as nat),
        d.timestamp@[i].utc_offset == tz,
{
    reveal(row_ok);
    reveal(row_at);
}

} // verus!
