use epw_rs::header::{
    _parse_comment, _parse_data_periods, _parse_design_conditions, _parse_ground_temperature,
    _parse_holiday_daylight_savings, _parse_location, _parse_typical_extreme_periods, parse_header,
    DayOfWeek, GroundTemperatureSample, PeriodType,
};
use epw_rs::number::Number;
use epw_rs::EPWParseError;

const TAMPA_HEADER: [&str; 8] = [
    "LOCATION,TAMPA,FL,USA,TMY2-12842,722110,27.97,-82.53,-5.0,11.0",
    "DESIGN CONDITIONS,0",
    "TYPICAL/EXTREME PERIODS,6,Summer - Week Nearest Max Temperature For Period,Extreme,7/ 6,7/12,Summer - Week Nearest Average Temperature For Period,Typical,8/ 3,8/ 9,Winter - Week Nearest Min Temperature For Period,Extreme,2/10,2/16,Winter - Week Nearest Average Temperature For Period,Typical,12/22,1/ 5,Autumn - Week Nearest Average Temperature For Period,Typical,10/20,10/26,Spring - Week Nearest Average Temperature For Period,Typical,4/19,4/25",
    "GROUND TEMPERATURES,3,.5,,,,16.22,17.29,19.37,21.34,25.08,27.04,27.58,26.59,24.28,21.42,18.59,16.72,2,,,,17.69,17.95,19.14,20.46,23.33,25.17,26.08,25.87,24.56,22.58,20.35,18.60,4,,,,19.22,19.03,19.55,20.30,22.20,23.62,24.54,24.77,24.19,23.02,21.51,20.15",
    "HOLIDAYS/DAYLIGHT SAVINGS,No,0,0,0",
    "COMMENTS 1,TMY2-12842 -- WMO#722110",
    "COMMENTS 2, -- Ground temps produced with a standard soil diffusivity of 2.3225760E-03 {m**2/day}",
    "DATA PERIODS,1,1,Data,Sunday, 1/ 1,12/31",
];

fn tampa_lines() -> Vec<String> {
    TAMPA_HEADER.iter().map(|l| l.to_string()).collect()
}

fn as_f64(n: &Number) -> f64 {
    match n {
        Number::Finite(d) => {
            let digits: String = d.digits.iter().map(|x| char::from(b'0' + *x)).collect();
            let sign = if d.negative { "-" } else { "" };
            format!("{}{}e{}", sign, digits, d.exponent).parse().unwrap()
        }
        Number::Infinite { negative } => {
            if *negative {
                f64::NEG_INFINITY
            } else {
                f64::INFINITY
            }
        }
        Number::NotANumber => f64::NAN,
    }
}

fn sample_values(s: &GroundTemperatureSample) -> Vec<f64> {
    vec![
        as_f64(&s.depth),
        as_f64(&s.january),
        as_f64(&s.february),
        as_f64(&s.march),
        as_f64(&s.april),
        as_f64(&s.may),
        as_f64(&s.june),
        as_f64(&s.july),
        as_f64(&s.august),
        as_f64(&s.september),
        as_f64(&s.october),
        as_f64(&s.november),
        as_f64(&s.december),
    ]
}

#[test]
fn test_parse_location_from_file() {
    let header = parse_header(&tampa_lines());

    assert!(header.is_ok());
    let header = header.unwrap();
    let location = header.location;

    assert_eq!(location.city, "TAMPA");
    assert_eq!(location.state_province_region, "FL");
    assert_eq!(location.country, "USA");
    assert_eq!(location.source, "TMY2-12842");
    assert_eq!(location.wmo, "722110");
    assert_eq!(as_f64(&location.latitude), 27.97);
    assert_eq!(as_f64(&location.longitude), -82.53);
    assert_eq!(location.time_zone, -5 * 3600);
}

#[test]
fn test_parse_typical_extreme_periods_from_file() {
    let header = parse_header(&tampa_lines());

    assert!(header.is_ok());
    let header = header.unwrap();
    let periods = header.typical_extreme_periods;
    assert_eq!(6, periods.len());

    assert_eq!("Summer - Week Nearest Max Temperature For Period", periods[0].name);
    assert_eq!(PeriodType::Extreme, periods[0].period_type);
    assert_eq!("7/ 6", periods[0].start);
    assert_eq!("7/12", periods[0].end);

    assert_eq!("Summer - Week Nearest Average Temperature For Period", periods[1].name);
    assert_eq!(PeriodType::Typical, periods[1].period_type);
    assert_eq!("8/ 3", periods[1].start);
    assert_eq!("8/ 9", periods[1].end);

    assert_eq!("Winter - Week Nearest Min Temperature For Period", periods[2].name);
    assert_eq!(PeriodType::Extreme, periods[2].period_type);
    assert_eq!("2/10", periods[2].start);
    assert_eq!("2/16", periods[2].end);

    assert_eq!("Winter - Week Nearest Average Temperature For Period", periods[3].name);
    assert_eq!(PeriodType::Typical, periods[3].period_type);
    assert_eq!("12/22", periods[3].start);
    assert_eq!("1/ 5", periods[3].end);

    assert_eq!("Autumn - Week Nearest Average Temperature For Period", periods[4].name);
    assert_eq!(PeriodType::Typical, periods[4].period_type);
    assert_eq!("10/20", periods[4].start);
    assert_eq!("10/26", periods[4].end);

    assert_eq!("Spring - Week Nearest Average Temperature For Period", periods[5].name);
    assert_eq!(PeriodType::Typical, periods[5].period_type);
    assert_eq!("4/19", periods[5].start);
    assert_eq!("4/25", periods[5].end);
}

#[test]
fn test_parse_ground_temperature_from_file() {
    let header = parse_header(&tampa_lines());

    assert!(header.is_ok());
    let header = header.unwrap();
    let temperatures = header.ground_temperatures;

    assert_eq!(3, temperatures.len());

    assert_eq!(
        vec![0.5, 16.22, 17.29, 19.37, 21.34, 25.08, 27.04, 27.58, 26.59, 24.28, 21.42, 18.59, 16.72],
        sample_values(&temperatures[0])
    );
    assert!(temperatures[0].soil_conductivity.is_none());
    assert!(temperatures[0].soil_density.is_none());
    assert!(temperatures[0].soil_specific_heat.is_none());

    assert_eq!(
        vec![2.0, 17.69, 17.95, 19.14, 20.46, 23.33, 25.17, 26.08, 25.87, 24.56, 22.58, 20.35, 18.60],
        sample_values(&temperatures[1])
    );
    assert!(temperatures[1].soil_conductivity.is_none());
    assert!(temperatures[1].soil_density.is_none());
    assert!(temperatures[1].soil_specific_heat.is_none());

    assert_eq!(
        vec![4.0, 19.22, 19.03, 19.55, 20.3, 22.2, 23.62, 24.54, 24.77, 24.19, 23.02, 21.51, 20.15],
        sample_values(&temperatures[2])
    );
    assert!(temperatures[2].soil_conductivity.is_none());
    assert!(temperatures[2].soil_density.is_none());
    assert!(temperatures[2].soil_specific_heat.is_none());
}

#[test]
fn header_keeps_comments_design_conditions_and_periods() {
    let header = parse_header(&tampa_lines()).unwrap();
    assert_eq!(
        header.comments,
        vec![
            "TMY2-12842 -- WMO#722110".to_string(),
            " -- Ground temps produced with a standard soil diffusivity of 2.3225760E-03 {m**2/day}".to_string()
        ]
    );
    assert_eq!(header.design_conditions, Some(vec!["0".to_string()]));
    assert_eq!(header.data_periods.records_per_hour, 1);
    assert_eq!(header.data_periods.periods.len(), 1);
    assert_eq!(header.data_periods.periods[0].name, "Data");
    assert_eq!(header.data_periods.periods[0].start_day_of_week, DayOfWeek::Sunday);
    assert_eq!(header.data_periods.periods[0].start_day, " 1/ 1");
    assert_eq!(header.data_periods.periods[0].end_day, "12/31");
    assert!(!header.holidays_daylight_savings.leap_year);
    assert_eq!(header.holidays_daylight_savings.holidays.len(), 0);
}

#[test]
fn header_missing_data_periods_is_data_periods_error() {
    let mut lines = tampa_lines();
    lines[7] = "COMMENTS 3,no data periods here".to_string();
    match parse_header(&lines) {
        Err(EPWParseError::DataPeriods(_)) => {}
        other => panic!("unexpected result: {:?}", other.map(|_| ())),
    }
}

#[test]
fn header_missing_location_is_location_error() {
    let mut lines = tampa_lines();
    lines[0] = "COMMENTS 0,no location".to_string();
    match parse_header(&lines) {
        Err(EPWParseError::Location(_)) => {}
        other => panic!("unexpected result: {:?}", other.map(|_| ())),
    }
}

#[test]
fn header_unknown_tag_names_the_line() {
    let mut lines = tampa_lines();
    lines[5] = "SOMETHING ELSE,1,2".to_string();
    match parse_header(&lines) {
        Err(EPWParseError::UnexpectedData(m)) => assert_eq!(m, "Unexpected Row: SOMETHING ELSE,1,2"),
        other => panic!("unexpected result: {:?}", other.map(|_| ())),
    }
}

#[test]
fn header_reads_only_eight_lines() {
    let mut lines = tampa_lines();
    lines.push("NOT A HEADER LINE".to_string());
    assert!(parse_header(&lines).is_ok());
}

#[test]
fn location_end_to_end() {
    let l = _parse_location("LOCATION,TAMPA,FL,USA,TMY2-12842,722110,27.97,-82.53,-5.0,11.0").unwrap();
    assert_eq!(l.city, "TAMPA");
    assert_eq!(l.state_province_region, "FL");
    assert_eq!(l.country, "USA");
    assert_eq!(as_f64(&l.latitude), 27.97);
    assert_eq!(as_f64(&l.longitude), -82.53);
    assert_eq!(l.time_zone, -18000);
    assert_eq!(as_f64(&l.elevation), 11.0);
}

#[test]
fn location_time_zone_truncates_toward_zero() {
    let l = _parse_location("LOCATION,A,B,C,D,E,1,2,-5.9,3").unwrap();
    assert_eq!(l.time_zone, -5 * 3600);
    let l = _parse_location("LOCATION,A,B,C,D,E,1,2,23.5,3").unwrap();
    assert_eq!(l.time_zone, 23 * 3600);
}

#[test]
fn location_errors() {
    assert!(matches!(_parse_location("LOCATION,A,B,C,D,E,1,2,3"), Err(EPWParseError::Location(_))));
    assert!(matches!(_parse_location("LOCATION,A,B,C,D,E,north,2,3,4"), Err(EPWParseError::Location(_))));
    assert!(matches!(_parse_location("LOCATION,A,B,C,D,E,1,2,24,4"), Err(EPWParseError::Location(_))));
    assert!(matches!(_parse_location("LOCATION,A,B,C,D,E,1,2,-3000000000,4"), Err(EPWParseError::Location(_))));
    assert!(matches!(_parse_location("LOCATION,A,B,C,D,E,1,2,x,4"), Err(EPWParseError::Location(_))));
    assert!(matches!(_parse_location("LOCATION,A,B,C,D,E,1,2,3,high"), Err(EPWParseError::Location(_))));
}

#[test]
fn ground_temperature_short_data_names_the_sample() {
    let line = "GROUND TEMPERATURES,2,.5,,,,1,2,3,4,5,6,7,8,9,10,11,12,2,,,,1,2,3";
    match _parse_ground_temperature(line) {
        Err(EPWParseError::GroundTemperature(m)) => {
            assert_eq!(m, "Not enough data for sample at index 1: 2,,,,1,2,3")
        }
        other => panic!("unexpected result: {:?}", other.map(|_| ())),
    }
}

#[test]
fn ground_temperature_soil_properties_and_bad_month() {
    let line = "GROUND TEMPERATURES,1,.5,1.2,1500,x,1,2,3,4,5,6,7,8,9,10,11,12";
    let v = _parse_ground_temperature(line).unwrap();
    assert_eq!(v.len(), 1);
    assert_eq!(as_f64(v[0].soil_conductivity.as_ref().unwrap()), 1.2);
    assert_eq!(as_f64(v[0].soil_density.as_ref().unwrap()), 1500.0);
    assert!(v[0].soil_specific_heat.is_none());
    assert_eq!(as_f64(&v[0].december), 12.0);
    let bad = "GROUND TEMPERATURES,1,.5,,,,1,2,3,4,5,6,7,8,9,10,11,warm";
    assert!(matches!(_parse_ground_temperature(bad), Err(EPWParseError::GroundTemperature(_))));
    assert!(matches!(_parse_ground_temperature("GROUND TEMPERATURES,many"), Err(EPWParseError::GroundTemperature(_))));
    assert_eq!(_parse_ground_temperature("GROUND TEMPERATURES,0").unwrap().len(), 0);
}

#[test]
fn data_periods_parse_and_errors() {
    let p = _parse_data_periods("DATA PERIODS,2,4,First,Monday,1/1,6/30,Second,Saturday,7/1,12/31").unwrap();
    assert_eq!(p.records_per_hour, 4);
    assert_eq!(p.periods.len(), 2);
    assert_eq!(p.periods[0].start_day_of_week, DayOfWeek::Monday);
    assert_eq!(p.periods[1].name, "Second");
    assert_eq!(p.periods[1].start_day_of_week, DayOfWeek::Saturday);
    assert_eq!(p.periods[1].end_day, "12/31");
    assert!(matches!(_parse_data_periods("DATA PERIODS,1,1,Data,sunday,1/1,12/31"), Err(EPWParseError::DataPeriods(_))));
    assert!(matches!(_parse_data_periods("DATA PERIODS,2,1,Data,Sunday,1/1,12/31"), Err(EPWParseError::DataPeriods(_))));
    assert!(matches!(_parse_data_periods("DATA PERIODS,1,x,Data,Sunday,1/1,12/31"), Err(EPWParseError::DataPeriods(_))));
}

#[test]
fn typical_extreme_period_kind_must_match() {
    assert!(matches!(
        _parse_typical_extreme_periods("TYPICAL/EXTREME PERIODS,1,Week,typical,1/1,1/7"),
        Err(EPWParseError::TypicalExtremePeriods(_))
    ));
    assert!(matches!(
        _parse_typical_extreme_periods("TYPICAL/EXTREME PERIODS,2,Week,Typical,1/1,1/7"),
        Err(EPWParseError::TypicalExtremePeriods(_))
    ));
}

#[test]
fn holidays_parse_and_errors() {
    let h = _parse_holiday_daylight_savings("HOLIDAYS/DAYLIGHT SAVINGS,Yes,4/1,10/31,2,New Year,1/1,Christmas,12/25").unwrap();
    assert!(h.leap_year);
    assert_eq!(h.daylight_savings_start, "4/1");
    assert_eq!(h.daylight_savings_end, "10/31");
    assert_eq!(h.holidays.len(), 2);
    assert_eq!(h.holidays[0].name, "New Year");
    assert_eq!(h.holidays[0].date, "1/1");
    assert_eq!(h.holidays[1].name, "Christmas");
    assert_eq!(h.holidays[1].date, "12/25");
    assert!(matches!(
        _parse_holiday_daylight_savings("HOLIDAYS/DAYLIGHT SAVINGS,Maybe,0,0,0"),
        Err(EPWParseError::HolidayDaylightSavings(_))
    ));
    assert!(matches!(
        _parse_holiday_daylight_savings("HOLIDAYS/DAYLIGHT SAVINGS,No,0,0,1,Christmas"),
        Err(EPWParseError::HolidayDaylightSavings(_))
    ));
    assert!(matches!(
        _parse_holiday_daylight_savings("HOLIDAYS/DAYLIGHT SAVINGS,No,0"),
        Err(EPWParseError::HolidayDaylightSavings(_))
    ));
}

#[test]
fn comments_and_design_conditions_are_text() {
    assert_eq!(_parse_comment("COMMENTS 1,first, second"), "first, second");
    assert_eq!(_parse_comment("COMMENTS 2"), "");
    assert_eq!(
        _parse_design_conditions("DESIGN CONDITIONS,1,Climate Design Data,,Heating"),
        vec!["1".to_string(), "Climate Design Data".to_string(), "".to_string(), "Heating".to_string()]
    );
}

fn message_of<T>(r: Result<T, EPWParseError>) -> String {
    match r {
        Ok(_) => panic!("expected an error"),
        Err(EPWParseError::UnexpectedData(m))
        | Err(EPWParseError::Location(m))
        | Err(EPWParseError::GroundTemperature(m))
        | Err(EPWParseError::HolidayDaylightSavings(m))
        | Err(EPWParseError::DataPeriods(m))
        | Err(EPWParseError::TypicalExtremePeriods(m))
        | Err(EPWParseError::DesignConditions(m))
        | Err(EPWParseError::Data(m))
        | Err(EPWParseError::FileNotFound(m)) => m,
    }
}

#[test]
fn location_messages_name_the_field() {
    assert_eq!(message_of(_parse_location("LOCATION,TAMPA,FL")), "Invalid Location Line: LOCATION,TAMPA,FL");
    assert_eq!(message_of(_parse_location("LOCATION,A,B,C,D,E,north,2,3,4")), "Invalid Latitude: north");
    assert_eq!(message_of(_parse_location("LOCATION,A,B,C,D,E,1,west,3,4")), "Invalid Longitude: west");
    assert_eq!(message_of(_parse_location("LOCATION,A,B,C,D,E,1,2,EST,4")), "Invalid Time Zone: EST");
    assert_eq!(message_of(_parse_location("LOCATION,A,B,C,D,E,1,2,24,4")), "Invalid Time Zone: 24");
    assert_eq!(message_of(_parse_location("LOCATION,A,B,C,D,E,1,2,nan,4")), "Invalid Time Zone: nan");
    assert_eq!(message_of(_parse_location("LOCATION,A,B,C,D,E,1,2,3,high")), "Invalid Elevation: high");
}

#[test]
fn ground_temperature_bad_number_names_index_and_text() {
    let line = "GROUND TEMPERATURES,2,.5,,,,1,2,3,4,5,6,7,8,9,10,11,12,2,,,,1,2,3,4,5,6,7,8,9,10,11,cold";
    assert_eq!(message_of(_parse_ground_temperature(line)), "Invalid December temp value at index 1: cold");
    let line = "GROUND TEMPERATURES,1,deep,,,,1,2,3,4,5,6,7,8,9,10,11,12";
    assert_eq!(message_of(_parse_ground_temperature(line)), "Invalid Depth at index 0: deep");
    assert_eq!(message_of(_parse_ground_temperature("GROUND TEMPERATURES,1")), "Not enough data for sample at index 0: ");
}

#[test]
fn period_messages_name_index_and_value() {
    assert_eq!(
        message_of(_parse_data_periods("DATA PERIODS,2,1,A,Sunday,1/1,6/30,B,sunday,7/1,12/31")),
        "Invalid day of week at index 1: sunday"
    );
    assert_eq!(
        message_of(_parse_data_periods("DATA PERIODS,2,1,A,Sunday,1/1,6/30,B")),
        "Not enough data for period at index 1: B"
    );
    assert_eq!(message_of(_parse_data_periods("DATA PERIODS,1")), "Invalid Data Periods Line: DATA PERIODS,1");
    assert_eq!(
        message_of(_parse_typical_extreme_periods("TYPICAL/EXTREME PERIODS,1,Week,Normal,1/1,1/7")),
        "Invalid period type at index 0: Normal"
    );
    assert_eq!(
        message_of(_parse_typical_extreme_periods("TYPICAL/EXTREME PERIODS,2,Week,Typical,1/1,1/7,Other,Extreme")),
        "Not enough data for period at index 1: Other,Extreme"
    );
}

#[test]
fn holiday_messages_name_flag_and_index() {
    assert_eq!(
        message_of(_parse_holiday_daylight_savings("HOLIDAYS/DAYLIGHT SAVINGS,Maybe,0,0,0")),
        "Invalid Leap Year Value: Maybe"
    );
    assert_eq!(
        message_of(_parse_holiday_daylight_savings("HOLIDAYS/DAYLIGHT SAVINGS,No,0,0,2,New Year,1/1,Christmas")),
        "Not enough data for holiday at index 1: Christmas"
    );
}

#[test]
fn header_returns_the_failing_line_error_unchanged() {
    let mut lines = tampa_lines();
    lines[0] = "LOCATION,A,B,C,D,E,north,2,3,4".to_string();
    lines[3] = "GROUND TEMPERATURES,1".to_string();
    assert!(matches!(parse_header(&lines), Err(EPWParseError::Location(ref m)) if m == "Invalid Latitude: north"));
    let mut lines = tampa_lines();
    lines[7] = "COMMENTS 3,x".to_string();
    assert_eq!(message_of(parse_header(&lines)), "No Data Periods Found");
}
