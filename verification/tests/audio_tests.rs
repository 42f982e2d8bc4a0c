use cantus::audio::{AudioEvent, PipeWireState};

#[test]
fn default_sink_volume_is_reported() {
    let mut state: PipeWireState<f32> = PipeWireState::new();
    // A sink's volume is kept, but reported only once it is the default.
    assert_eq!(state.update(AudioEvent::SinkVolume("speakers".to_string(), 0.5)), None);
    assert_eq!(state.update(AudioEvent::DefaultSink(Some("speakers".to_string()))), Some(0.5));
    assert_eq!(state.update(AudioEvent::SinkVolume("speakers".to_string(), -0.25)), Some(-0.25));
    assert_eq!(state.update(AudioEvent::SinkVolume("headphones".to_string(), 0.75)), None);
    assert_eq!(state.sinks.len(), 2);
    assert_eq!(state.update(AudioEvent::DefaultSink(Some("headphones".to_string()))), Some(0.75));
    assert_eq!(state.update(AudioEvent::DefaultSink(Some("hdmi".to_string()))), None);
    assert_eq!(state.update(AudioEvent::DefaultSink(None)), None);
    assert_eq!(state.update(AudioEvent::Other), None);
    assert_eq!(state.default_sink, None);
}
