use cantus::weather::{coded_conditions, ordinal, weather_name, WeatherCode};

const CODES: [(u8, &str, [f32; 6]); 28] = [
    (0, "Clear", [0.0, 0.05, 0.0, 0.0, 0.0, 0.0]),
    (1, "Mainly Clear", [0.0, 0.25, 0.0, 0.0, 0.0, 0.0]),
    (2, "Partly Cloudy", [0.0, 0.55, 0.0, 0.0, 0.0, 0.0]),
    (3, "Overcast", [0.0, 0.9, 0.0, 0.0, 0.0, 0.0]),
    (45, "Fog", [0.6, 0.9, 0.0, 0.0, 0.0, 0.0]),
    (48, "Rime Fog", [0.75, 0.9, 0.0, 0.0, 0.0, 0.0]),
    (51, "Light Drizzle", [0.0, 0.9, 0.15, 0.0, 0.0, 0.0]),
    (53, "Moderate Drizzle", [0.0, 0.9, 0.3, 0.0, 0.0, 0.0]),
    (55, "Dense Drizzle", [0.0, 0.9, 0.45, 0.0, 0.0, 0.0]),
    (56, "Light Freezing Drizzle", [0.0, 0.9, 0.2, 0.0, 0.0, 0.0]),
    (57, "Dense Freezing Drizzle", [0.0, 0.9, 0.4, 0.0, 0.0, 0.0]),
    (61, "Light Rain", [0.0, 0.9, 0.3, 0.0, 0.0, 0.0]),
    (63, "Moderate Rain", [0.0, 0.9, 0.6, 0.0, 0.0, 0.0]),
    (65, "Heavy Rain", [0.0, 0.9, 1.0, 0.0, 0.0, 0.0]),
    (66, "Light Freezing Rain", [0.0, 0.9, 0.35, 0.0, 0.0, 0.0]),
    (67, "Heavy Freezing Rain", [0.0, 0.9, 0.9, 0.0, 0.0, 0.0]),
    (71, "Light Snow", [0.0, 0.9, 0.0, 0.3, 0.0, 0.0]),
    (73, "Moderate Snow", [0.0, 0.9, 0.0, 0.6, 0.0, 0.0]),
    (75, "Heavy Snow", [0.0, 0.9, 0.0, 1.0, 0.0, 0.0]),
    (77, "Snow Grains", [0.0, 0.9, 0.0, 0.25, 0.0, 0.0]),
    (80, "Light Rain Showers", [0.0, 0.9, 0.35, 0.0, 0.0, 0.0]),
    (81, "Moderate Rain Showers", [0.0, 0.9, 0.65, 0.0, 0.0, 0.0]),
    (82, "Violent Rain Showers", [0.0, 0.9, 1.0, 0.0, 0.0, 0.0]),
    (85, "Light Snow Showers", [0.0, 0.9, 0.0, 0.35, 0.0, 0.0]),
    (86, "Heavy Snow Showers", [0.0, 0.9, 0.0, 0.9, 0.0, 0.0]),
    (95, "Thunderstorm", [0.0, 0.9, 0.7, 0.0, 1.0, 0.0]),
    (96, "Thunderstorm Light Hail", [0.0, 0.9, 0.75, 0.0, 1.0, 0.6]),
    (99, "Thunderstorm Heavy Hail", [0.0, 0.9, 0.85, 0.0, 1.0, 1.0]),
];

fn pack(value: f32, max: f32) -> u32 {
    (value.clamp(0.0, 1.0) * max) as u32
}

#[test]
fn codes_have_title_case_names() {
    for (code, name, _) in CODES {
        assert_eq!(WeatherCode::name(code), name);
        assert!(WeatherCode::from_repr(code).is_some());
    }
    assert_eq!(WeatherCode::name(4), "Unknown weather");
    assert_eq!(WeatherCode::name(255), "Unknown weather");
    assert!(WeatherCode::from_repr(100).is_none());
}

#[test]
fn coded_conditions_pack_the_code_levels() {
    for (code, _, [fog, cloud, rain, snow, lightning, hail]) in CODES {
        let condition = coded_conditions(code);
        assert_eq!(condition.fog_raw(), pack(fog, 15.0), "fog of {code}");
        assert_eq!(condition.cloud_raw(), pack(cloud, 127.0), "cloud of {code}");
        assert_eq!(condition.rain_raw(), pack(rain, 255.0), "rain of {code}");
        assert_eq!(condition.snow_raw(), pack(snow, 255.0), "snow of {code}");
        assert_eq!(condition.lightning(), lightning > 0.0, "lightning of {code}");
        assert_eq!(condition.hail_raw(), pack(hail, 15.0), "hail of {code}");
    }
}

#[test]
fn unknown_codes_are_overcast() {
    let condition = coded_conditions(42);
    assert_eq!(condition.into_bits(), 114 << 4);
    assert_eq!(coded_conditions(0).into_bits(), 6 << 4);
    assert_eq!(coded_conditions(99).into_bits(), 114 << 4 | 216 << 11 | 1 << 27 | 15 << 28);
}

#[test]
fn code_values_are_thousandths() {
    assert_eq!(WeatherCode::ThunderstormLightHail.values(), [0, 900, 750, 0, 1000, 600]);
    assert_eq!(WeatherCode::Clear.values(), [0, 50, 0, 0, 0, 0]);
    assert_eq!(WeatherCode::RimeFog.title(), "Rime Fog");
}

#[test]
fn weather_names_group_codes() {
    assert_eq!(weather_name(0), "Clear skies");
    assert_eq!(weather_name(1), "Mostly clear");
    assert_eq!(weather_name(2), "Partly cloudy");
    assert_eq!(weather_name(3), "Overcast");
    assert_eq!(weather_name(48), "Foggy");
    assert_eq!(weather_name(53), "Drizzle");
    assert_eq!(weather_name(57), "Freezing drizzle");
    assert_eq!(weather_name(61), "Rain");
    assert_eq!(weather_name(66), "Freezing rain");
    assert_eq!(weather_name(77), "Snow");
    assert_eq!(weather_name(81), "Rain showers");
    assert_eq!(weather_name(86), "Snow showers");
    assert_eq!(weather_name(97), "Thunderstorms");
    assert_eq!(weather_name(50), "Unknown weather");
}

#[test]
fn ordinals_of_days() {
    assert_eq!(ordinal(1), "st");
    assert_eq!(ordinal(2), "nd");
    assert_eq!(ordinal(3), "rd");
    assert_eq!(ordinal(4), "th");
    assert_eq!(ordinal(11), "th");
    assert_eq!(ordinal(12), "th");
    assert_eq!(ordinal(13), "th");
    assert_eq!(ordinal(21), "st");
    assert_eq!(ordinal(22), "nd");
    assert_eq!(ordinal(23), "rd");
    assert_eq!(ordinal(31), "st");
    assert_eq!(ordinal(111), "th");
    assert_eq!(ordinal(-1), "th");
}
