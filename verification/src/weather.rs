use vstd::prelude::*;
use crate::packing::{
    CLOUD_OFFSET, CLOUD_WIDTH, FOG_OFFSET, FOG_WIDTH, HAIL_OFFSET, HAIL_WIDTH, LIGHTNING_OFFSET, RAIN_OFFSET,
    RAIN_WIDTH, SNOW_OFFSET, SNOW_WIDTH, WeatherCondition, condition_fields, field_mask, lemma_field_masks,
    with_field,
};

verus! {

/// WMO weather interpretation codes, as used by Open-Meteo's `weather_code`
/// field.
#[derive(Clone, Copy, PartialEq, Eq, Structural, Debug)]
pub enum WeatherCode {
    Clear,
    MainlyClear,
    PartlyCloudy,
    Overcast,
    Fog,
    RimeFog,
    LightDrizzle,
    ModerateDrizzle,
    DenseDrizzle,
    LightFreezingDrizzle,
    DenseFreezingDrizzle,
    LightRain,
    ModerateRain,
    HeavyRain,
    LightFreezingRain,
    HeavyFreezingRain,
    LightSnow,
    ModerateSnow,
    HeavySnow,
    SnowGrains,
    LightRainShowers,
    ModerateRainShowers,
    ViolentRainShowers,
    LightSnowShowers,
    HeavySnowShowers,
    Thunderstorm,
    ThunderstormLightHail,
    ThunderstormHeavyHail,
}

/// The weather code that a WMO number stands for, if any.
pub open spec fn code_of(code: u8) -> Option<WeatherCode> {
    match code {
        0 => Some(WeatherCode::Clear),
        1 => Some(WeatherCode::MainlyClear),
        2 => Some(WeatherCode::PartlyCloudy),
        3 => Some(WeatherCode::Overcast),
        45 => Some(WeatherCode::Fog),
        48 => Some(WeatherCode::RimeFog),
        51 => Some(WeatherCode::LightDrizzle),
        53 => Some(WeatherCode::ModerateDrizzle),
        55 => Some(WeatherCode::DenseDrizzle),
        56 => Some(WeatherCode::LightFreezingDrizzle),
        57 => Some(WeatherCode::DenseFreezingDrizzle),
        61 => Some(WeatherCode::LightRain),
        63 => Some(WeatherCode::ModerateRain),
        65 => Some(WeatherCode::HeavyRain),
        66 => Some(WeatherCode::LightFreezingRain),
        67 => Some(WeatherCode::HeavyFreezingRain),
        71 => Some(WeatherCode::LightSnow),
        73 => Some(WeatherCode::ModerateSnow),
        75 => Some(WeatherCode::HeavySnow),
        77 => Some(WeatherCode::SnowGrains),
        80 => Some(WeatherCode::LightRainShowers),
        81 => Some(WeatherCode::ModerateRainShowers),
        82 => Some(WeatherCode::ViolentRainShowers),
        85 => Some(WeatherCode::LightSnowShowers),
        86 => Some(WeatherCode::HeavySnowShowers),
        95 => Some(WeatherCode::Thunderstorm),
        96 => Some(WeatherCode::ThunderstormLightHail),
        99 => Some(WeatherCode::ThunderstormHeavyHail),
        _ => None,
    }
}

/// The title of each code, its variant name in title case.
pub open spec fn code_title(code: WeatherCode) -> Seq<char> {
    match code {
        WeatherCode::Clear => "Clear"@,
        WeatherCode::MainlyClear => "Mainly Clear"@,
        WeatherCode::PartlyCloudy => "Partly Cloudy"@,
        WeatherCode::Overcast => "Overcast"@,
        WeatherCode::Fog => "Fog"@,
        WeatherCode::RimeFog => "Rime Fog"@,
        WeatherCode::LightDrizzle => "Light Drizzle"@,
        WeatherCode::ModerateDrizzle => "Moderate Drizzle"@,
        WeatherCode::DenseDrizzle => "Dense Drizzle"@,
        WeatherCode::LightFreezingDrizzle => "Light Freezing Drizzle"@,
        WeatherCode::DenseFreezingDrizzle => "Dense Freezing Drizzle"@,
        WeatherCode::LightRain => "Light Rain"@,
        WeatherCode::ModerateRain => "Moderate Rain"@,
        WeatherCode::HeavyRain => "Heavy Rain"@,
        WeatherCode::LightFreezingRain => "Light Freezing Rain"@,
        WeatherCode::HeavyFreezingRain => "Heavy Freezing Rain"@,
        WeatherCode::LightSnow => "Light Snow"@,
        WeatherCode::ModerateSnow => "Moderate Snow"@,
        WeatherCode::HeavySnow => "Heavy Snow"@,
        WeatherCode::SnowGrains => "Snow Grains"@,
        WeatherCode::LightRainShowers => "Light Rain Showers"@,
        WeatherCode::ModerateRainShowers => "Moderate Rain Showers"@,
        WeatherCode::ViolentRainShowers => "Violent Rain Showers"@,
        WeatherCode::LightSnowShowers => "Light Snow Showers"@,
        WeatherCode::HeavySnowShowers => "Heavy Snow Showers"@,
        WeatherCode::Thunderstorm => "Thunderstorm"@,
        WeatherCode::ThunderstormLightHail => "Thunderstorm Light Hail"@,
        WeatherCode::ThunderstormHeavyHail => "Thunderstorm Heavy Hail"@,
    }
}

/// The levels `[fog, cloud, rain, snow, lightning, hail]` of each code, in
/// thousandths.
pub open spec fn code_levels(code: WeatherCode) -> Seq<u32> {
    match code {
        WeatherCode::Clear => seq![0, 50, 0, 0, 0, 0],
        WeatherCode::MainlyClear => seq![0, 250, 0, 0, 0, 0],
        WeatherCode::PartlyCloudy => seq![0, 550, 0, 0, 0, 0],
        WeatherCode::Overcast => seq![0, 900, 0, 0, 0, 0],
        WeatherCode::Fog => seq![600, 900, 0, 0, 0, 0],
        WeatherCode::RimeFog => seq![750, 900, 0, 0, 0, 0],
        WeatherCode::LightDrizzle => seq![0, 900, 150, 0, 0, 0],
        WeatherCode::ModerateDrizzle => seq![0, 900, 300, 0, 0, 0],
        WeatherCode::DenseDrizzle => seq![0, 900, 450, 0, 0, 0],
        WeatherCode::LightFreezingDrizzle => seq![0, 900, 200, 0, 0, 0],
        WeatherCode::DenseFreezingDrizzle => seq![0, 900, 400, 0, 0, 0],
        WeatherCode::LightRain => seq![0, 900, 300, 0, 0, 0],
        WeatherCode::ModerateRain => seq![0, 900, 600, 0, 0, 0],
        WeatherCode::HeavyRain => seq![0, 900, 1000, 0, 0, 0],
        WeatherCode::LightFreezingRain => seq![0, 900, 350, 0, 0, 0],
        WeatherCode::HeavyFreezingRain => seq![0, 900, 900, 0, 0, 0],
        WeatherCode::LightSnow => seq![0, 900, 0, 300, 0, 0],
        WeatherCode::ModerateSnow => seq![0, 900, 0, 600, 0, 0],
        WeatherCode::HeavySnow => seq![0, 900, 0, 1000, 0, 0],
        WeatherCode::SnowGrains => seq![0, 900, 0, 250, 0, 0],
        WeatherCode::LightRainShowers => seq![0, 900, 350, 0, 0, 0],
        WeatherCode::ModerateRainShowers => seq![0, 900, 650, 0, 0, 0],
        WeatherCode::ViolentRainShowers => seq![0, 900, 1000, 0, 0, 0],
        WeatherCode::LightSnowShowers => seq![0, 900, 0, 350, 0, 0],
        WeatherCode::HeavySnowShowers => seq![0, 900, 0, 900, 0, 0],
        WeatherCode::Thunderstorm => seq![0, 900, 700, 0, 1000, 0],
        WeatherCode::ThunderstormLightHail => seq![0, 900, 750, 0, 1000, 600],
        WeatherCode::ThunderstormHeavyHail => seq![0, 900, 850, 0, 1000, 1000],
    }
}

impl WeatherCode {
    /// The code with the given WMO number.
    pub fn from_repr(code: u8) -> (found: Option<WeatherCode>)
        ensures
            found == code_of(code),
    {
        match code {
            0 => Some(WeatherCode::Clear),
            1 => Some(WeatherCode::MainlyClear),
            2 => Some(WeatherCode::PartlyCloudy),
            3 => Some(WeatherCode::Overcast),
            45 => Some(WeatherCode::Fog),
            48 => Some(WeatherCode::RimeFog),
            51 => Some(WeatherCode::LightDrizzle),
            53 => Some(WeatherCode::ModerateDrizzle),
            55 => Some(WeatherCode::DenseDrizzle),
            56 => Some(WeatherCode::LightFreezingDrizzle),
            57 => Some(WeatherCode::DenseFreezingDrizzle),
            61 => Some(WeatherCode::LightRain),
            63 => Some(WeatherCode::ModerateRain),
            65 => Some(WeatherCode::HeavyRain),
            66 => Some(WeatherCode::LightFreezingRain),
            67 => Some(WeatherCode::HeavyFreezingRain),
            71 => Some(WeatherCode::LightSnow),
            73 => Some(WeatherCode::ModerateSnow),
            75 => Some(WeatherCode::HeavySnow),
            77 => Some(WeatherCode::SnowGrains),
            80 => Some(WeatherCode::LightRainShowers),
            81 => Some(WeatherCode::ModerateRainShowers),
            82 => Some(WeatherCode::ViolentRainShowers),
            85 => Some(WeatherCode::LightSnowShowers),
            86 => Some(WeatherCode::HeavySnowShowers),
            95 => Some(WeatherCode::Thunderstorm),
            96 => Some(WeatherCode::ThunderstormLightHail),
            99 => Some(WeatherCode::ThunderstormHeavyHail),
            _ => None,
        }
    }

    /// The title of the code with the given WMO number, or
    /// `"Unknown weather"`.
    pub fn name(code: u8) -> (name: &'static str)
        ensures
            name@ == match code_of(code) {
                Some(known) => code_title(known),
                None => "Unknown weather"@,
            },
    {
        match Self::from_repr(code) {
            Some(known) => known.title(),
            None => "Unknown weather",
        }
    }

    /// The title of the code.
    pub fn title(self) -> (title: &'static str)
        ensures
            title@ == code_title(self),
    {
        match self {
            WeatherCode::Clear => "Clear",
            WeatherCode::MainlyClear => "Mainly Clear",
            WeatherCode::PartlyCloudy => "Partly Cloudy",
            WeatherCode::Overcast => "Overcast",
            WeatherCode::Fog => "Fog",
            WeatherCode::RimeFog => "Rime Fog",
            WeatherCode::LightDrizzle => "Light Drizzle",
            WeatherCode::ModerateDrizzle => "Moderate Drizzle",
            WeatherCode::DenseDrizzle => "Dense Drizzle",
            WeatherCode::LightFreezingDrizzle => "Light Freezing Drizzle",
            WeatherCode::DenseFreezingDrizzle => "Dense Freezing Drizzle",
            WeatherCode::LightRain => "Light Rain",
            WeatherCode::ModerateRain => "Moderate Rain",
            WeatherCode::HeavyRain => "Heavy Rain",
            WeatherCode::LightFreezingRain => "Light Freezing Rain",
            WeatherCode::HeavyFreezingRain => "Heavy Freezing Rain",
            WeatherCode::LightSnow => "Light Snow",
            WeatherCode::ModerateSnow => "Moderate Snow",
            WeatherCode::HeavySnow => "Heavy Snow",
            WeatherCode::SnowGrains => "Snow Grains",
            WeatherCode::LightRainShowers => "Light Rain Showers",
            WeatherCode::ModerateRainShowers => "Moderate Rain Showers",
            WeatherCode::ViolentRainShowers => "Violent Rain Showers",
            WeatherCode::LightSnowShowers => "Light Snow Showers",
            WeatherCode::HeavySnowShowers => "Heavy Snow Showers",
            WeatherCode::Thunderstorm => "Thunderstorm",
            WeatherCode::ThunderstormLightHail => "Thunderstorm Light Hail",
            WeatherCode::ThunderstormHeavyHail => "Thunderstorm Heavy Hail",
        }
    }

    /// The levels `[fog, cloud, rain, snow, lightning, hail]` of the code, in
    /// thousandths.
    pub fn values(self) -> (levels: [u32; 6])
        ensures
            levels@ == code_levels(self),
    {
        let cloud: u32 = match self {
            WeatherCode::Clear => 50,
            WeatherCode::MainlyClear => 250,
            WeatherCode::PartlyCloudy => 550,
            _ => 900,
        };
        let fog: u32 = match self {
            WeatherCode::Fog => 600,
            WeatherCode::RimeFog => 750,
            _ => 0,
        };
        let rain: u32 = match self {
            WeatherCode::LightDrizzle => 150,
            WeatherCode::ModerateDrizzle | WeatherCode::LightRain => 300,
            WeatherCode::DenseDrizzle => 450,
            WeatherCode::LightFreezingDrizzle => 200,
            WeatherCode::DenseFreezingDrizzle => 400,
            WeatherCode::ModerateRain => 600,
            WeatherCode::HeavyRain | WeatherCode::ViolentRainShowers => 1000,
            WeatherCode::LightFreezingRain | WeatherCode::LightRainShowers => 350,
            WeatherCode::HeavyFreezingRain => 900,
            WeatherCode::ModerateRainShowers => 650,
            WeatherCode::Thunderstorm => 700,
            WeatherCode::ThunderstormLightHail => 750,
            WeatherCode::ThunderstormHeavyHail => 850,
            _ => 0,
        };
        let snow: u32 = match self {
            WeatherCode::SnowGrains => 250,
            WeatherCode::LightSnow => 300,
            WeatherCode::LightSnowShowers => 350,
            WeatherCode::ModerateSnow => 600,
            WeatherCode::HeavySnowShowers => 900,
            WeatherCode::HeavySnow => 1000,
            _ => 0,
        };
        let lightning: u32 = match self {
            WeatherCode::Thunderstorm | WeatherCode::ThunderstormLightHail | WeatherCode::ThunderstormHeavyHail => 1000,
            _ => 0,
        };
        let hail: u32 = match self {
            WeatherCode::ThunderstormHeavyHail => 1000,
            WeatherCode::ThunderstormLightHail => 600,
            _ => 0,
        };
        let levels = [fog, cloud, rain, snow, lightning, hail];
        assert(levels@ =~= code_levels(self));
        levels
    }
}

/// The levels of a WMO number: those of its code, or an overcast sky for an
/// unknown number.
pub open spec fn number_levels(code: u8) -> Seq<u32> {
    match code_of(code) {
        Some(known) => code_levels(known),
        None => seq![0, 900, 0, 0, 0, 0],
    }
}

/// A level in thousandths, clamped to 1, scaled to `0..=max` and truncated.
pub open spec fn pack_level(level: u32, max: u32) -> u32 {
    let clamped = if level > 1000 { 1000 } else { level };
    (clamped * max / 1000) as u32
}

fn pack(level: u32, max: u32) -> (packed: u32)
    requires
        max <= 255,
    ensures
        packed == pack_level(level, max),
        packed <= max,
{
    let clamped = if level > 1000 { 1000 } else { level };
    assert(clamped * max <= 1000 * max) by (nonlinear_arith)
        requires
            clamped <= 1000,
    ;
    assert(clamped * max / 1000 <= max) by (nonlinear_arith)
        requires
            clamped <= 1000,
            clamped * max <= 1000 * max,
    ;
    clamped * max / 1000
}

/// The packed fields `[fog, cloud, rain, snow, lightning, hail]` of a WMO
/// number.
pub open spec fn coded_fields(code: u8) -> Seq<u32> {
    let levels = number_levels(code);
    seq![
        pack_level(levels[0], 15),
        pack_level(levels[1], 127),
        pack_level(levels[2], 255),
        pack_level(levels[3], 255),
        if levels[4] > 0 { 1 } else { 0 },
        pack_level(levels[5], 15),
    ]
}

/// Writing the six fields one after another into an empty word gives a word
/// whose fields read back as written.
proof fn lemma_six_fields(fog: u32, cloud: u32, rain: u32, snow: u32, lightning: u32, hail: u32)
    requires
        fog <= 15,
        cloud <= 127,
        rain <= 255,
        snow <= 255,
        lightning <= 1,
        hail <= 15,
    ensures
        condition_fields(
            with_field(
                with_field(
                    with_field(
                        with_field(
                            with_field(with_field(0, FOG_OFFSET, FOG_WIDTH, fog), CLOUD_OFFSET, CLOUD_WIDTH, cloud),
                            RAIN_OFFSET,
                            RAIN_WIDTH,
                            rain,
                        ),
                        SNOW_OFFSET,
                        SNOW_WIDTH,
                        snow,
                    ),
                    LIGHTNING_OFFSET,
                    1,
                    lightning,
                ),
                HAIL_OFFSET,
                HAIL_WIDTH,
                hail,
            ),
        ) == seq![fog, cloud, rain, snow, lightning, hail],
{
    lemma_field_masks();
    let w = with_field(
        with_field(
            with_field(
                with_field(
                    with_field(with_field(0, FOG_OFFSET, FOG_WIDTH, fog), CLOUD_OFFSET, CLOUD_WIDTH, cloud),
                    RAIN_OFFSET,
                    RAIN_WIDTH,
                    rain,
                ),
                SNOW_OFFSET,
                SNOW_WIDTH,
                snow,
            ),
            LIGHTNING_OFFSET,
            1,
            lightning,
        ),
        HAIL_OFFSET,
        HAIL_WIDTH,
        hail,
    );
    assert(w == (fog | (cloud << 4u32) | (rain << 11u32) | (snow << 19u32) | (lightning << 27u32) | (hail << 28u32))) by (bit_vector)
        requires
            w == ((((((((((((0u32 & !(15u32 << 0u32)) | (fog << 0u32)) & !(127u32 << 4u32)) | (cloud << 4u32)) & !(255u32
                << 11u32)) | (rain << 11u32)) & !(255u32 << 19u32)) | (snow << 19u32)) & !(1u32 << 27u32)) | (lightning
                << 27u32)) & !(15u32 << 28u32)) | (hail << 28u32)),
            fog <= 15,
            cloud <= 127,
            rain <= 255,
            snow <= 255,
            lightning <= 1,
            hail <= 15,
    ;
    let f = fog | (cloud << 4u32) | (rain << 11u32) | (snow << 19u32) | (lightning << 27u32) | (hail << 28u32);
    assert((f >> 0u32) & 15u32 == fog && (f >> 4u32) & 127u32 == cloud && (f >> 11u32) & 255u32 == rain && (f
        >> 19u32) & 255u32 == snow && (f >> 27u32) & 1u32 == lightning && (f >> 28u32) & 15u32 == hail) by (bit_vector)
        requires
            f == fog | (cloud << 4u32) | (rain << 11u32) | (snow << 19u32) | (lightning << 27u32) | (hail << 28u32),
            fog <= 15,
            cloud <= 127,
            rain <= 255,
            snow <= 255,
            lightning <= 1,
            hail <= 15,
    ;
    assert(condition_fields(w) =~= seq![fog, cloud, rain, snow, lightning, hail]);
}

/// The packed condition that a WMO number stands for.
pub fn coded_conditions(code: u8) -> (condition: WeatherCondition)
    ensures
        condition_fields(condition.bits) == coded_fields(code),
{
    let levels = match WeatherCode::from_repr(code) {
        Some(known) => known.values(),
        None => [0, 900, 0, 0, 0, 0],
    };
    assert(levels@ == number_levels(code));
    let fog = pack(levels[0], 15);
    let cloud = pack(levels[1], 127);
    let rain = pack(levels[2], 255);
    let snow = pack(levels[3], 255);
    let hail = pack(levels[5], 15);
    let mut result = WeatherCondition::from_bits(0);
    result.set_fog_raw(fog);
    result.set_cloud_raw(cloud);
    result.set_rain_raw(rain);
    result.set_snow_raw(snow);
    result.set_lightning(levels[4] > 0);
    result.set_hail_raw(hail);
    proof {
        lemma_six_fields(fog, cloud, rain, snow, if levels[4] > 0 { 1 } else { 0 }, hail);
    }
    result
}

/// A short description of a WMO number, for the weather details line.
pub open spec fn weather_summary(code: u8) -> Seq<char> {
    if code == 0 {
        "Clear skies"@
    } else if code == 1 {
        "Mostly clear"@
    } else if code == 2 {
        "Partly cloudy"@
    } else if code == 3 {
        "Overcast"@
    } else if code == 45 || code == 48 {
        "Foggy"@
    } else if code == 51 || code == 53 || code == 55 {
        "Drizzle"@
    } else if code == 56 || code == 57 {
        "Freezing drizzle"@
    } else if code == 61 || code == 63 || code == 65 {
        "Rain"@
    } else if code == 66 || code == 67 {
        "Freezing rain"@
    } else if code == 71 || code == 73 || code == 75 || code == 77 {
        "Snow"@
    } else if 80 <= code <= 82 {
        "Rain showers"@
    } else if code == 85 || code == 86 {
        "Snow showers"@
    } else if 95 <= code <= 99 {
        "Thunderstorms"@
    } else {
        "Unknown weather"@
    }
}

/// A short description of a WMO number.
pub fn weather_name(code: u8) -> (name: &'static str)
    ensures
        name@ == weather_summary(code),
{
    match code {
        0 => "Clear skies",
        1 => "Mostly clear",
        2 => "Partly cloudy",
        3 => "Overcast",
        45 | 48 => "Foggy",
        51 | 53 | 55 => "Drizzle",
        56 | 57 => "Freezing drizzle",
        61 | 63 | 65 => "Rain",
        66 | 67 => "Freezing rain",
        71 | 73 | 75 | 77 => "Snow",
        80..=82 => "Rain showers",
        85 | 86 => "Snow showers",
        95..=99 => "Thunderstorms",
        _ => "Unknown weather",
    }
}

/// The English ordinal suffix of a day of the month: "st", "nd", "rd" or
/// "th", with "th" for 11 to 13 (and for negative numbers).
pub open spec fn ordinal_suffix(day: i8) -> Seq<char> {
    if day < 0 || 11 <= day % 100 <= 13 {
        "th"@
    } else if day % 10 == 1 {
        "st"@
    } else if day % 10 == 2 {
        "nd"@
    } else if day % 10 == 3 {
        "rd"@
    } else {
        "th"@
    }
}

/// The ordinal suffix of `day`.
pub fn ordinal(day: i8) -> (suffix: &'static str)
    ensures
        suffix@ == ordinal_suffix(day),
{
    if day < 0 {
        return "th";
    }
    let last_two = day % 100;
    if 11 <= last_two && last_two <= 13 {
        "th"
    } else {
        match day % 10 {
            1 => "st",
            2 => "nd",
            3 => "rd",
            _ => "th",
        }
    }
}

} // verus!

verus! {

/// Whether a description names a kind of rain: drizzle, rain or showers,
/// frozen or not.
pub open spec fn describes_rain(name: Seq<char>) -> bool {
    name == "Drizzle"@ || name == "Freezing drizzle"@ || name == "Rain"@ || name == "Freezing rain"@ || name
        == "Rain showers"@
}

/// Whether a description names snow, falling steadily or in showers.
pub open spec fn describes_snow(name: Seq<char>) -> bool {
    name == "Snow"@ || name == "Snow showers"@
}

/// Whether a description names a dry sky, from clear to overcast.
pub open spec fn describes_dry_sky(name: Seq<char>) -> bool {
    name == "Clear skies"@ || name == "Mostly clear"@ || name == "Partly cloudy"@ || name == "Overcast"@
}

/// Which kind of weather each description names.
proof fn lemma_description_kinds()
    ensures
        describes_snow("Clear skies"@) == false && describes_rain("Clear skies"@) == false && describes_dry_sky("Clear skies"@) == true,
        ("Clear skies"@ == "Thunderstorms"@) == false && ("Clear skies"@ == "Foggy"@) == false && ("Clear skies"@ == "Rain"@) == false,
        describes_snow("Mostly clear"@) == false && describes_rain("Mostly clear"@) == false && describes_dry_sky("Mostly clear"@) == true,
        ("Mostly clear"@ == "Thunderstorms"@) == false && ("Mostly clear"@ == "Foggy"@) == false && ("Mostly clear"@ == "Rain"@) == false,
        describes_snow("Partly cloudy"@) == false && describes_rain("Partly cloudy"@) == false && describes_dry_sky("Partly cloudy"@) == true,
        ("Partly cloudy"@ == "Thunderstorms"@) == false && ("Partly cloudy"@ == "Foggy"@) == false && ("Partly cloudy"@ == "Rain"@) == false,
        describes_snow("Overcast"@) == false && describes_rain("Overcast"@) == false && describes_dry_sky("Overcast"@) == true,
        ("Overcast"@ == "Thunderstorms"@) == false && ("Overcast"@ == "Foggy"@) == false && ("Overcast"@ == "Rain"@) == false,
        describes_snow("Foggy"@) == false && describes_rain("Foggy"@) == false && describes_dry_sky("Foggy"@) == false,
        ("Foggy"@ == "Thunderstorms"@) == false && ("Foggy"@ == "Foggy"@) == true && ("Foggy"@ == "Rain"@) == false,
        describes_snow("Drizzle"@) == false && describes_rain("Drizzle"@) == true && describes_dry_sky("Drizzle"@) == false,
        ("Drizzle"@ == "Thunderstorms"@) == false && ("Drizzle"@ == "Foggy"@) == false && ("Drizzle"@ == "Rain"@) == false,
        describes_snow("Freezing drizzle"@) == false && describes_rain("Freezing drizzle"@) == true && describes_dry_sky("Freezing drizzle"@) == false,
        ("Freezing drizzle"@ == "Thunderstorms"@) == false && ("Freezing drizzle"@ == "Foggy"@) == false && ("Freezing drizzle"@ == "Rain"@) == false,
        describes_snow("Rain"@) == false && describes_rain("Rain"@) == true && describes_dry_sky("Rain"@) == false,
        ("Rain"@ == "Thunderstorms"@) == false && ("Rain"@ == "Foggy"@) == false && ("Rain"@ == "Rain"@) == true,
        describes_snow("Freezing rain"@) == false && describes_rain("Freezing rain"@) == true && describes_dry_sky("Freezing rain"@) == false,
        ("Freezing rain"@ == "Thunderstorms"@) == false && ("Freezing rain"@ == "Foggy"@) == false && ("Freezing rain"@ == "Rain"@) == false,
        describes_snow("Snow"@) == true && describes_rain("Snow"@) == false && describes_dry_sky("Snow"@) == false,
        ("Snow"@ == "Thunderstorms"@) == false && ("Snow"@ == "Foggy"@) == false && ("Snow"@ == "Rain"@) == false,
        describes_snow("Rain showers"@) == false && describes_rain("Rain showers"@) == true && describes_dry_sky("Rain showers"@) == false,
        ("Rain showers"@ == "Thunderstorms"@) == false && ("Rain showers"@ == "Foggy"@) == false && ("Rain showers"@ == "Rain"@) == false,
        describes_snow("Snow showers"@) == true && describes_rain("Snow showers"@) == false && describes_dry_sky("Snow showers"@) == false,
        ("Snow showers"@ == "Thunderstorms"@) == false && ("Snow showers"@ == "Foggy"@) == false && ("Snow showers"@ == "Rain"@) == false,
        describes_snow("Thunderstorms"@) == false && describes_rain("Thunderstorms"@) == false && describes_dry_sky("Thunderstorms"@) == false,
        ("Thunderstorms"@ == "Thunderstorms"@) == true && ("Thunderstorms"@ == "Foggy"@) == false && ("Thunderstorms"@ == "Rain"@) == false,
{
    reveal_strlit("Clear skies");
    reveal_strlit("Mostly clear");
    reveal_strlit("Partly cloudy");
    reveal_strlit("Overcast");
    reveal_strlit("Foggy");
    reveal_strlit("Drizzle");
    reveal_strlit("Freezing drizzle");
    reveal_strlit("Rain");
    reveal_strlit("Freezing rain");
    reveal_strlit("Snow");
    reveal_strlit("Rain showers");
    reveal_strlit("Snow showers");
    reveal_strlit("Thunderstorms");
    assert("Clear skies"@.len() == 11 && "Clear skies"@[0] == 'C');
    assert("Mostly clear"@.len() == 12 && "Mostly clear"@[0] == 'M');
    assert("Partly cloudy"@.len() == 13 && "Partly cloudy"@[0] == 'P');
    assert("Overcast"@.len() == 8 && "Overcast"@[0] == 'O');
    assert("Foggy"@.len() == 5 && "Foggy"@[0] == 'F');
    assert("Drizzle"@.len() == 7 && "Drizzle"@[0] == 'D');
    assert("Freezing drizzle"@.len() == 16 && "Freezing drizzle"@[0] == 'F');
    assert("Rain"@.len() == 4 && "Rain"@[0] == 'R');
    assert("Freezing rain"@.len() == 13 && "Freezing rain"@[0] == 'F');
    assert("Snow"@.len() == 4 && "Snow"@[0] == 'S');
    assert("Rain showers"@.len() == 12 && "Rain showers"@[0] == 'R');
    assert("Snow showers"@.len() == 12 && "Snow showers"@[0] == 'S');
    assert("Thunderstorms"@.len() == 13 && "Thunderstorms"@[0] == 'T');
    assert(describes_snow("Clear skies"@) == false && describes_rain("Clear skies"@) == false && describes_dry_sky("Clear skies"@) == true);
    assert(("Clear skies"@ == "Thunderstorms"@) == false && ("Clear skies"@ == "Foggy"@) == false && ("Clear skies"@ == "Rain"@) == false);
    assert(describes_snow("Mostly clear"@) == false && describes_rain("Mostly clear"@) == false && describes_dry_sky("Mostly clear"@) == true);
    assert(("Mostly clear"@ == "Thunderstorms"@) == false && ("Mostly clear"@ == "Foggy"@) == false && ("Mostly clear"@ == "Rain"@) == false);
    assert(describes_snow("Partly cloudy"@) == false && describes_rain("Partly cloudy"@) == false && describes_dry_sky("Partly cloudy"@) == true);
    assert(("Partly cloudy"@ == "Thunderstorms"@) == false && ("Partly cloudy"@ == "Foggy"@) == false && ("Partly cloudy"@ == "Rain"@) == false);
    assert(describes_snow("Overcast"@) == false && describes_rain("Overcast"@) == false && describes_dry_sky("Overcast"@) == true);
    assert(("Overcast"@ == "Thunderstorms"@) == false && ("Overcast"@ == "Foggy"@) == false && ("Overcast"@ == "Rain"@) == false);
    assert(describes_snow("Foggy"@) == false && describes_rain("Foggy"@) == false && describes_dry_sky("Foggy"@) == false);
    assert(("Foggy"@ == "Thunderstorms"@) == false && ("Foggy"@ == "Foggy"@) == true && ("Foggy"@ == "Rain"@) == false);
    assert(describes_snow("Drizzle"@) == false && describes_rain("Drizzle"@) == true && describes_dry_sky("Drizzle"@) == false);
    assert(("Drizzle"@ == "Thunderstorms"@) == false && ("Drizzle"@ == "Foggy"@) == false && ("Drizzle"@ == "Rain"@) == false);
    assert(describes_snow("Freezing drizzle"@) == false && describes_rain("Freezing drizzle"@) == true && describes_dry_sky("Freezing drizzle"@) == false);
    assert(("Freezing drizzle"@ == "Thunderstorms"@) == false && ("Freezing drizzle"@ == "Foggy"@) == false && ("Freezing drizzle"@ == "Rain"@) == false);
    assert(describes_snow("Rain"@) == false && describes_rain("Rain"@) == true && describes_dry_sky("Rain"@) == false);
    assert(("Rain"@ == "Thunderstorms"@) == false && ("Rain"@ == "Foggy"@) == false && ("Rain"@ == "Rain"@) == true);
    assert(describes_snow("Freezing rain"@) == false && describes_rain("Freezing rain"@) == true && describes_dry_sky("Freezing rain"@) == false);
    assert(("Freezing rain"@ == "Thunderstorms"@) == false && ("Freezing rain"@ == "Foggy"@) == false && ("Freezing rain"@ == "Rain"@) == false);
    assert(describes_snow("Snow"@) == true && describes_rain("Snow"@) == false && describes_dry_sky("Snow"@) == false);
    assert(("Snow"@ == "Thunderstorms"@) == false && ("Snow"@ == "Foggy"@) == false && ("Snow"@ == "Rain"@) == false);
    assert(describes_snow("Rain showers"@) == false && describes_rain("Rain showers"@) == true && describes_dry_sky("Rain showers"@) == false);
    assert(("Rain showers"@ == "Thunderstorms"@) == false && ("Rain showers"@ == "Foggy"@) == false && ("Rain showers"@ == "Rain"@) == false);
    assert(describes_snow("Snow showers"@) == true && describes_rain("Snow showers"@) == false && describes_dry_sky("Snow showers"@) == false);
    assert(("Snow showers"@ == "Thunderstorms"@) == false && ("Snow showers"@ == "Foggy"@) == false && ("Snow showers"@ == "Rain"@) == false);
    assert(describes_snow("Thunderstorms"@) == false && describes_rain("Thunderstorms"@) == false && describes_dry_sky("Thunderstorms"@) == false);
    assert(("Thunderstorms"@ == "Thunderstorms"@) == true && ("Thunderstorms"@ == "Foggy"@) == false && ("Thunderstorms"@ == "Rain"@) == false);
}

/// A known code's description agrees with what falls from its sky: it names
/// snow exactly when the code brings snow, a thunderstorm exactly when it
/// brings lightning, fog exactly when it brings fog, a kind of rain exactly
/// when it brings rain without lightning, and a dry sky exactly when nothing
/// falls and there is no fog. So a code whose levels have rain and no snow
/// (such as WMO 61, 63 and 65) is never described as snow, and a steady
/// rain code that is not freezing (WMO 61, 63 and 65) is described as "Rain".
pub proof fn weather_names_follow_levels(code: u8)
    requires
        code_of(code) is Some,
    ensures
        ({
            let levels = code_levels(code_of(code)->Some_0);
            let name = weather_summary(code);
            &&& describes_snow(name) <==> levels[3] > 0
            &&& (name == "Thunderstorms"@) <==> levels[4] > 0
            &&& (name == "Foggy"@) <==> levels[0] > 0
            &&& describes_rain(name) <==> (levels[2] > 0 && levels[4] == 0)
            &&& describes_dry_sky(name) <==> (levels[0] == 0 && levels[2] == 0 && levels[3] == 0)
            &&& (code_of(code) == Some(WeatherCode::LightRain) || code_of(code) == Some(WeatherCode::ModerateRain)
                || code_of(code) == Some(WeatherCode::HeavyRain)) ==> name == "Rain"@
        }),
{
    lemma_description_kinds();
}

} // verus!
