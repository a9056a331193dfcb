use epw_rs::header::parse_header;
use epw_rs::number::{parse_number, Number};
use epw_rs::time::{offset_exists, timestamp_at, Timestamp};
use epw_rs::weather_data::{_parse_float_value, _parse_present_weather, _parse_row, PresentWeather};
use epw_rs::{EPWFile, EPWParseError, WeatherData};

const HEADER: [&str; 8] = [
    "LOCATION,TAMPA,FL,USA,TMY2-12842,722110,27.97,-82.53,-5.0,11.0",
    "DESIGN CONDITIONS,0",
    "TYPICAL/EXTREME PERIODS,1,Summer - Week Nearest Max Temperature For Period,Extreme,7/ 6,7/12",
    "GROUND TEMPERATURES,1,.5,,,,16.22,17.29,19.37,21.34,25.08,27.04,27.58,26.59,24.28,21.42,18.59,16.72",
    "HOLIDAYS/DAYLIGHT SAVINGS,No,0,0,0",
    "COMMENTS 1,TMY2-12842 -- WMO#722110",
    "COMMENTS 2,none",
    "DATA PERIODS,1,1,Data,Sunday, 1/ 1,12/31",
];

const ROW_1: &str = "1987,1,1,1,0,?9?9?9?9E0?9?9?9?9?9?9?9?9?9?9?9?9?9*_*9*9*9?9?9,20.6,18.9,90,101700,0,0,352,0,0,0,0,0,0,0,0,0.0,10,10,16.1,77777,0,999999999,38,0.0620,0,88";
const ROW_2: &str = "1987,1,1,2,0,?9?9?9?9E0?9?9?9?9?9?9?9?9?9?9?9?9?9*_*9*9*9?9?9,20.0,18.3,90,101700,0,0,350,0,0,0,0,0,0,0,0,0.0,10,10,16.1,77777,0,999999999,38,0.0620,0,88,0.2,1.5,1.0";

fn empty() -> WeatherData {
    WeatherData {
        timestamp: vec![],
        flags: vec![],
        dry_bulb_temperature: vec![],
        dew_point_temperature: vec![],
        relative_humidity: vec![],
        atmospheric_pressure: vec![],
        extraterrestrial_horizontal_radiation: vec![],
        extraterrestrial_direct_normal_radiation: vec![],
        horizontal_infrared_radiation_intensity: vec![],
        global_horizontal_radiation: vec![],
        direct_normal_radiation: vec![],
        diffuse_horizontal_radiation: vec![],
        global_horizontal_illuminance: vec![],
        direct_normal_illuminance: vec![],
        diffuse_horizontal_illuminance: vec![],
        zenith_luminance: vec![],
        wind_direction: vec![],
        wind_speed: vec![],
        total_sky_cover: vec![],
        opaque_sky_cover: vec![],
        visibility: vec![],
        ceiling_height: vec![],
        present_weather_observation: vec![],
        present_weather_codes: vec![],
        precipitable_water: vec![],
        aerosol_optical_depth: vec![],
        snow_depth: vec![],
        days_since_last_snowfall: vec![],
        albedo: vec![],
        liquid_precipitation_depth: vec![],
        liquid_precipitation_quantity: vec![],
    }
}

fn column_lengths(d: &WeatherData) -> Vec<usize> {
    vec![
        d.timestamp.len(),
        d.flags.len(),
        d.dry_bulb_temperature.len(),
        d.dew_point_temperature.len(),
        d.relative_humidity.len(),
        d.atmospheric_pressure.len(),
        d.extraterrestrial_horizontal_radiation.len(),
        d.extraterrestrial_direct_normal_radiation.len(),
        d.horizontal_infrared_radiation_intensity.len(),
        d.global_horizontal_radiation.len(),
        d.direct_normal_radiation.len(),
        d.diffuse_horizontal_radiation.len(),
        d.global_horizontal_illuminance.len(),
        d.direct_normal_illuminance.len(),
        d.diffuse_horizontal_illuminance.len(),
        d.zenith_luminance.len(),
        d.wind_direction.len(),
        d.wind_speed.len(),
        d.total_sky_cover.len(),
        d.opaque_sky_cover.len(),
        d.visibility.len(),
        d.ceiling_height.len(),
        d.present_weather_observation.len(),
        d.present_weather_codes.len(),
        d.precipitable_water.len(),
        d.aerosol_optical_depth.len(),
        d.snow_depth.len(),
        d.days_since_last_snowfall.len(),
        d.albedo.len(),
        d.liquid_precipitation_depth.len(),
        d.liquid_precipitation_quantity.len(),
    ]
}

fn as_f64(n: &Number) -> f64 {
    match n {
        Number::Finite(d) => {
            let digits: String = d.digits.iter().map(|x| char::from(b'0' + *x)).collect();
            let sign = if d.negative { "-" } else { "" };
            format!("{}{}e{}", sign, digits, d.exponent).parse().unwrap()
        }
        Number::Infinite { negative } => {
            if *negative {
                f64::NEG_INFINITY
            } else {
                f64::INFINITY
            }
        }
        Number::NotANumber => f64::NAN,
    }
}

fn value(o: &Option<Number>) -> Option<f64> {
    o.as_ref().map(as_f64)
}

/// A row whose fields are all given; `fields[i]` replaces field `i`.
fn row_with(changes: &[(usize, &str)], count: usize) -> String {
    let mut fields: Vec<String> = ROW_2.split(',').map(|s| s.to_string()).collect();
    fields.truncate(count);
    for (i, v) in changes {
        fields[*i] = v.to_string();
    }
    fields.join(",")
}

#[test]
fn parsing_n_lines_gives_n_entries_per_column() {
    let mut lines: Vec<String> = HEADER.iter().map(|l| l.to_string()).collect();
    lines.push(ROW_1.to_string());
    lines.push(ROW_2.to_string());
    lines.push(ROW_1.to_string());
    let mut epw = EPWFile::from_lines(lines).unwrap();
    assert_eq!(epw.get_header().location.city, "TAMPA");
    let data = epw.get_data().unwrap();
    assert!(column_lengths(data).iter().all(|n| *n == 3));
    assert_eq!(as_f64(data.dry_bulb_temperature[1].as_ref().unwrap()), 20.0);
    assert_eq!(data.timestamp[0], Timestamp { year: 1987, month: 1, day: 1, hour: 0, minute: 0, utc_offset: -18000 });
    let first_flags = data.flags.clone();
    let again = epw.get_data().unwrap();
    assert_eq!(again.timestamp.len(), 3);
    assert_eq!(again.flags, first_flags);
}

#[test]
fn one_bad_line_fails_the_whole_parse() {
    let lines: Vec<String> = HEADER.iter().map(|l| l.to_string()).collect();
    let header = parse_header(&lines).unwrap();
    let data = vec![ROW_1.to_string(), "1987,1,1".to_string()];
    assert!(matches!(WeatherData::parse(&data, &header), Err(EPWParseError::Data(_))));
    let ok = WeatherData::parse(&vec![ROW_1.to_string(), ROW_2.to_string()], &header).unwrap();
    assert_eq!(column_lengths(&ok), vec![2; 31]);
}

#[test]
fn exact_markers_map_to_missing() {
    assert_eq!(_parse_float_value("99.9", "Dry Bulb Temperature", 999).unwrap().is_none(), true);
    assert_eq!(_parse_float_value("99.90", "Dry Bulb Temperature", 999).unwrap().is_none(), true);
    assert_eq!(_parse_float_value("999", "Relative Humidity", 9990).unwrap().is_none(), true);
    assert_eq!(_parse_float_value("999.0", "Relative Humidity", 9990).unwrap().is_none(), true);
    assert_eq!(_parse_float_value("9999", "Global Horizontal Radiation", 99990).unwrap().is_none(), true);
    assert_eq!(_parse_float_value("999999", "Atmospheric Pressure", 9999990).unwrap().is_none(), true);
}

#[test]
fn other_values_pass_unchanged() {
    assert_eq!(value(&_parse_float_value("0", "Dry Bulb Temperature", 999).unwrap()), Some(0.0));
    assert_eq!(value(&_parse_float_value("-40", "Dry Bulb Temperature", 999).unwrap()), Some(-40.0));
    assert_eq!(value(&_parse_float_value("998.9", "Relative Humidity", 9990).unwrap()), Some(998.9));
    assert_eq!(value(&_parse_float_value("-99.9", "Dry Bulb Temperature", 999).unwrap()), Some(-99.9));
    assert_eq!(value(&_parse_float_value("99.8", "Dry Bulb Temperature", 999).unwrap()), Some(99.8));
    assert!(matches!(_parse_float_value("warm", "Dry Bulb Temperature", 999), Err(EPWParseError::Data(_))));
    assert!(matches!(_parse_float_value("", "Dry Bulb Temperature", 999), Err(EPWParseError::Data(_))));
}

#[test]
fn illuminance_threshold() {
    let mut d = empty();
    let line = row_with(&[(16, "999900"), (17, "999899.9"), (18, "1e6")], 35);
    _parse_row(&line, &mut d, 0).unwrap();
    assert!(d.global_horizontal_illuminance[0].is_none());
    assert_eq!(value(&d.direct_normal_illuminance[0]), Some(999899.9));
    assert!(d.diffuse_horizontal_illuminance[0].is_none());
}

#[test]
fn every_marker_in_a_row() {
    let mut d = empty();
    let line = "1990,1,1,24,0,F,99.9,99.9,999,999999,9999,9999,9999,9999,9999,9999,999900,999900,999900,9999,999,999,99,99,9999,99999,9,999999999,999,999,999,99,999,999,999";
    _parse_row(line, &mut d, 0).unwrap();
    assert!(d.dry_bulb_temperature[0].is_none());
    assert!(d.dew_point_temperature[0].is_none());
    assert!(d.relative_humidity[0].is_none());
    assert!(d.atmospheric_pressure[0].is_none());
    assert!(d.extraterrestrial_horizontal_radiation[0].is_none());
    assert!(d.extraterrestrial_direct_normal_radiation[0].is_none());
    assert!(d.horizontal_infrared_radiation_intensity[0].is_none());
    assert!(d.global_horizontal_radiation[0].is_none());
    assert!(d.direct_normal_radiation[0].is_none());
    assert!(d.diffuse_horizontal_radiation[0].is_none());
    assert!(d.global_horizontal_illuminance[0].is_none());
    assert!(d.direct_normal_illuminance[0].is_none());
    assert!(d.diffuse_horizontal_illuminance[0].is_none());
    assert!(d.zenith_luminance[0].is_none());
    assert!(d.wind_direction[0].is_none());
    assert!(d.wind_speed[0].is_none());
    assert!(d.total_sky_cover[0].is_none());
    assert!(d.opaque_sky_cover[0].is_none());
    assert!(d.visibility[0].is_none());
    assert!(d.ceiling_height[0].is_none());
    assert!(d.precipitable_water[0].is_none());
    assert!(d.aerosol_optical_depth[0].is_none());
    assert!(d.snow_depth[0].is_none());
    assert!(d.days_since_last_snowfall[0].is_none());
    assert!(d.albedo[0].is_none());
    assert!(d.liquid_precipitation_depth[0].is_none());
    assert!(d.liquid_precipitation_quantity[0].is_none());
    assert!(!d.present_weather_observation[0]);
    assert_eq!(d.flags[0], "F");
}

#[test]
fn hour_twenty_four_is_stored_as_twenty_three() {
    let mut d = empty();
    let line = row_with(&[(0, "1990"), (1, "1"), (2, "1"), (3, "24"), (4, "0")], 35);
    _parse_row(&line, &mut d, -5 * 3600).unwrap();
    assert_eq!(d.timestamp[0], Timestamp { year: 1990, month: 1, day: 1, hour: 23, minute: 0, utc_offset: -18000 });
}

#[test]
fn minute_sixty_is_minute_zero_of_the_same_hour() {
    let mut d = empty();
    let line = row_with(&[(0, "1990"), (1, "1"), (2, "1"), (3, "24"), (4, "60")], 35);
    _parse_row(&line, &mut d, 0).unwrap();
    assert_eq!(d.timestamp[0], Timestamp { year: 1990, month: 1, day: 1, hour: 23, minute: 0, utc_offset: 0 });
    let line = row_with(&[(3, "5"), (4, "30")], 35);
    _parse_row(&line, &mut d, 0).unwrap();
    assert_eq!(d.timestamp[1].hour, 4);
    assert_eq!(d.timestamp[1].minute, 30);
}

#[test]
fn invalid_times_are_errors_and_leave_the_table_unchanged() {
    let mut d = empty();
    for changes in [
        vec![(1, "13")],
        vec![(2, "32")],
        vec![(1, "2"), (2, "29"), (0, "1987")],
        vec![(3, "0")],
        vec![(3, "25")],
        vec![(4, "61")],
        vec![(0, "year")],
    ] {
        let line = row_with(&changes, 35);
        assert!(matches!(_parse_row(&line, &mut d, 0), Err(EPWParseError::Data(_))), "{}", line);
    }
    assert!(column_lengths(&d).iter().all(|n| *n == 0));
    let leap = row_with(&[(0, "1988"), (1, "2"), (2, "29")], 35);
    assert!(_parse_row(&leap, &mut d, 0).is_ok());
}

#[test]
fn short_rows_are_errors() {
    let mut d = empty();
    let line = row_with(&[], 31);
    match _parse_row(&line, &mut d, 0) {
        Err(EPWParseError::Data(m)) => assert!(m.contains(&line)),
        other => panic!("unexpected result: {:?}", other),
    }
    assert!(d.timestamp.is_empty());
}

#[test]
fn thirty_two_fields_leave_trailing_values_missing() {
    let mut d = empty();
    _parse_row(ROW_1, &mut d, 0).unwrap();
    assert_eq!(ROW_1.split(',').count(), 32);
    assert!(d.albedo[0].is_none());
    assert!(d.liquid_precipitation_depth[0].is_none());
    assert!(d.liquid_precipitation_quantity[0].is_none());
    assert_eq!(value(&d.days_since_last_snowfall[0]), Some(88.0));
}

#[test]
fn thirty_five_fields_decode_trailing_values() {
    let mut d = empty();
    _parse_row(ROW_2, &mut d, 0).unwrap();
    assert_eq!(value(&d.albedo[0]), Some(0.2));
    assert_eq!(value(&d.liquid_precipitation_depth[0]), Some(1.5));
    assert_eq!(value(&d.liquid_precipitation_quantity[0]), Some(1.0));
    let line = row_with(&[(32, "999"), (33, "999"), (34, "2")], 35);
    _parse_row(&line, &mut d, 0).unwrap();
    assert!(d.albedo[1].is_none());
    assert!(d.liquid_precipitation_depth[1].is_none());
    assert_eq!(value(&d.liquid_precipitation_quantity[1]), Some(2.0));
    let bad = row_with(&[(33, "wet")], 35);
    assert!(_parse_row(&bad, &mut d, 0).is_err());
}

#[test]
fn row_values_in_order() {
    let mut d = empty();
    _parse_row(ROW_1, &mut d, 0).unwrap();
    assert_eq!(value(&d.dry_bulb_temperature[0]), Some(20.6));
    assert_eq!(value(&d.dew_point_temperature[0]), Some(18.9));
    assert_eq!(value(&d.relative_humidity[0]), Some(90.0));
    assert_eq!(value(&d.atmospheric_pressure[0]), Some(101700.0));
    assert_eq!(value(&d.horizontal_infrared_radiation_intensity[0]), Some(352.0));
    assert_eq!(value(&d.total_sky_cover[0]), Some(10.0));
    assert_eq!(value(&d.visibility[0]), Some(16.1));
    assert_eq!(value(&d.ceiling_height[0]), Some(77777.0));
    assert!(d.present_weather_observation[0]);
    assert_eq!(d.present_weather_codes[0].rain, 9);
    assert_eq!(value(&d.precipitable_water[0]), Some(38.0));
    assert_eq!(value(&d.aerosol_optical_depth[0]), Some(0.062));
    assert_eq!(value(&d.snow_depth[0]), Some(0.0));
}

#[test]
fn present_weather_all_zero_and_all_nine() {
    let p = _parse_present_weather("000000000").unwrap();
    assert_eq!(
        p,
        PresentWeather { thunderstorm: 0, rain: 0, rain_squalls: 0, snow: 0, snow_showers: 0, sleet: 0, fog: 0, smoke: 0, ice_pellets: 0 }
    );
    let p = _parse_present_weather("999999999").unwrap();
    assert_eq!(
        p,
        PresentWeather { thunderstorm: 9, rain: 9, rain_squalls: 9, snow: 9, snow_showers: 9, sleet: 9, fog: 9, smoke: 9, ice_pellets: 9 }
    );
}

#[test]
fn present_weather_positions_in_order() {
    let p = _parse_present_weather("012345678").unwrap();
    assert_eq!(
        p,
        PresentWeather { thunderstorm: 0, rain: 1, rain_squalls: 2, snow: 3, snow_showers: 4, sleet: 5, fog: 6, smoke: 7, ice_pellets: 8 }
    );
}

#[test]
fn present_weather_errors() {
    assert!(matches!(_parse_present_weather("12345678"), Err(EPWParseError::Data(_))));
    assert!(matches!(_parse_present_weather("1234x5678"), Err(EPWParseError::Data(_))));
    assert!(matches!(_parse_present_weather(""), Err(EPWParseError::Data(_))));
    assert!(matches!(_parse_present_weather("+23456789"), Err(EPWParseError::Data(_))));
    match _parse_present_weather("0000a0000") {
        Err(EPWParseError::Data(m)) => assert_eq!(m, "Invalid Conditions: 0000a0000"),
        other => panic!("unexpected result: {:?}", other),
    }
}

#[test]
fn number_grammar() {
    let n = |s: &str| parse_number(&s.chars().collect()).map(|x| as_f64(&x));
    assert_eq!(n("+1.5e2"), Some(150.0));
    assert_eq!(n("-.5"), Some(-0.5));
    assert_eq!(n("5."), Some(5.0));
    assert_eq!(n("2E-3"), Some(0.002));
    assert_eq!(n("-inf"), Some(f64::NEG_INFINITY));
    assert_eq!(n("Infinity"), Some(f64::INFINITY));
    assert!(n("NaN").unwrap().is_nan());
    assert_eq!(n("."), None);
    assert_eq!(n(""), None);
    assert_eq!(n("1e"), None);
    assert_eq!(n("1.2.3"), None);
    assert_eq!(n(" 1"), None);
    assert_eq!(n("0x10"), None);
}

#[test]
fn offsets_and_dates_follow_chrono() {
    assert!(offset_exists(-86399));
    assert!(offset_exists(0));
    assert!(!offset_exists(86400));
    assert!(!offset_exists(-86400));
    assert_eq!(
        timestamp_at(2000, 2, 29, 23, 59, 3600),
        Some(Timestamp { year: 2000, month: 2, day: 29, hour: 23, minute: 59, utc_offset: 3600 })
    );
    assert_eq!(timestamp_at(1900, 2, 29, 0, 0, 0), None);
    assert_eq!(timestamp_at(2001, 4, 31, 0, 0, 0), None);
    assert_eq!(timestamp_at(2001, 4, 30, 24, 0, 0), None);
}

fn data_message<T: std::fmt::Debug>(r: Result<T, EPWParseError>) -> String {
    match r {
        Err(EPWParseError::Data(m)) => m,
        other => panic!("unexpected result: {:?}", other),
    }
}

#[test]
fn row_messages_name_the_field() {
    let mut d = empty();
    assert_eq!(data_message(_parse_row("1987,1,1", &mut d, 0)), "Invalid Data Row: 1987,1,1");
    assert_eq!(data_message(_parse_row(&row_with(&[(0, "year")], 35), &mut d, 0)), "Invalid Year: year");
    assert_eq!(data_message(_parse_row(&row_with(&[(3, "x")], 35), &mut d, 0)), "Invalid Hour: x");
    assert_eq!(
        data_message(_parse_row(&row_with(&[(1, "13")], 35), &mut d, 0)),
        "Invalid Timestamp: 1987-13-1 2:0:00"
    );
    assert_eq!(
        data_message(_parse_row(&row_with(&[(3, "0")], 35), &mut d, 0)),
        "Invalid Timestamp: 1987-1-1 0:0:00"
    );
    assert_eq!(
        data_message(_parse_row(&row_with(&[(6, "hot")], 35), &mut d, 0)),
        "Invalid Dry Bulb Temperature value: hot"
    );
    assert_eq!(
        data_message(_parse_row(&row_with(&[(27, "12")], 35), &mut d, 0)),
        "Invalid Conditions: 12"
    );
    assert_eq!(
        data_message(_parse_row(&row_with(&[(34, "lots")], 35), &mut d, 0)),
        "Invalid Liquid Precipitation Quantity value: lots"
    );
    assert!(d.timestamp.is_empty());
    assert_eq!(
        data_message(_parse_float_value("12a", "Invalid Wind Speed value: ", 9990)),
        "Invalid Wind Speed value: 12a"
    );
}

#[test]
fn data_error_is_that_of_the_first_failing_line() {
    let lines: Vec<String> = HEADER.iter().map(|l| l.to_string()).collect();
    let header = parse_header(&lines).unwrap();
    let data = vec![ROW_1.to_string(), row_with(&[(6, "hot")], 35), "1987".to_string()];
    assert_eq!(data_message(WeatherData::parse(&data, &header)), "Invalid Dry Bulb Temperature value: hot");
}
