use cantus::packing::{pack_u16x2, unpack_u16x2, Unorm8x4, UsageHistory, WeatherCondition};

#[test]
fn halves_pack_into_one_word() {
    assert_eq!(pack_u16x2([0x1234, 0xabcd]), 0xabcd_1234);
    assert_eq!(unpack_u16x2(0xabcd_1234), [0x1234, 0xabcd]);
    assert_eq!(unpack_u16x2(pack_u16x2([65535, 7])), [65535, 7]);
}

#[test]
fn weather_fields_read_back() {
    let mut condition = WeatherCondition::from_bits(0);
    condition.set_fog_raw(9);
    condition.set_cloud_raw(114);
    condition.set_rain_raw(216);
    condition.set_snow_raw(63);
    condition.set_lightning(true);
    condition.set_hail_raw(15);
    assert_eq!(condition.fog_raw(), 9);
    assert_eq!(condition.cloud_raw(), 114);
    assert_eq!(condition.rain_raw(), 216);
    assert_eq!(condition.snow_raw(), 63);
    assert!(condition.lightning());
    assert_eq!(condition.hail_raw(), 15);
    assert_eq!(condition.into_bits(), 9 | 114 << 4 | 216 << 11 | 63 << 19 | 1 << 27 | 15 << 28);
    condition.set_cloud_raw(0);
    assert_eq!(condition.cloud_raw(), 0);
    assert_eq!(condition.rain_raw(), 216);
}

#[test]
fn history_keeps_the_newest_forty_levels() {
    let mut history = UsageHistory::new();
    for i in 0..40 {
        assert_eq!(history.get(i), 0);
    }
    for level in 1..=45u8 {
        history.push(level);
    }
    assert_eq!(history.get(39), 45);
    assert_eq!(history.get(0), 6);
    for i in 0..40 {
        assert_eq!(history.get(i), i as u32 + 6);
    }
}

#[test]
fn history_push_shifts_older() {
    let mut history = UsageHistory::new();
    history.push(200);
    history.push(100);
    assert_eq!(history.get(38), 200);
    assert_eq!(history.get(39), 100);
    assert_eq!(history.get(37), 0);
}

#[test]
fn colors_pack_first_channel_lowest() {
    let color = Unorm8x4::from_channels([0x11, 0x22, 0x33, 0x44]);
    assert_eq!(color.word, 0x4433_2211);
    assert_eq!(color.channels(), [0x11, 0x22, 0x33, 0x44]);
}
