use cantus::playback::TrackId;
use cantus::sync::{
    add_page_tracks, href_track_id, library_path, liked_request, missing_features, page_offsets, plan_playlist_sync,
    PollSchedule, PollState, SyncDecision,
};

#[test]
fn pages_cover_every_track() {
    assert_eq!(page_offsets(0), Vec::<u32>::new());
    assert_eq!(page_offsets(1), vec![0]);
    assert_eq!(page_offsets(50), vec![0]);
    assert_eq!(page_offsets(51), vec![0, 50]);
    assert_eq!(page_offsets(120), vec![0, 50, 100]);
}

#[test]
fn page_tracks_are_added_once() {
    let mut tracks = vec![TrackId(1), TrackId(2)];
    add_page_tracks(&mut tracks, &vec![Some(TrackId(2)), None, Some(TrackId(3)), Some(TrackId(3))]);
    assert_eq!(tracks, vec![TrackId(1), TrackId(2), TrackId(3)]);
}

fn plan(name: &str, snapshot: &str, seen: Option<&str>, cached: Option<&str>) -> (Option<u8>, SyncDecision) {
    let targets = vec!["Favourites".to_string()];
    let seen = seen.map(str::to_string);
    let cached = cached.map(str::to_string);
    plan_playlist_sync(
        &targets,
        true,
        &name.to_string(),
        &snapshot.to_string(),
        seen.as_ref(),
        cached.as_ref(),
    )
}

#[test]
fn playlist_sync_reuses_cached_snapshots() {
    assert_eq!(plan("Other", "s1", None, None), (None, SyncDecision::Skip));
    assert_eq!(plan("Favourites", "s1", None, None), (None, SyncDecision::Fetch));
    assert_eq!(plan("Favourites", "s1", Some("s1"), None), (None, SyncDecision::Skip));
    assert_eq!(plan("Favourites", "s2", Some("s1"), Some("s2")), (None, SyncDecision::Reuse));
    assert_eq!(plan("Favourites", "s3", Some("s1"), Some("s2")), (None, SyncDecision::Fetch));
    assert_eq!(plan("3.5", "s1", None, None), (Some(6), SyncDecision::Fetch));
    assert_eq!(plan("0.5", "s1", None, Some("s1")), (Some(0), SyncDecision::Reuse));
    let none: Vec<String> = Vec::new();
    assert_eq!(
        plan_playlist_sync(&none, false, &"3.5".to_string(), &"s".to_string(), None, None),
        (None, SyncDecision::Skip)
    );
}

#[test]
fn liked_requests_only_when_they_change_something() {
    assert_eq!(liked_request(Some(false), true), Some(true));
    assert_eq!(liked_request(Some(true), false), Some(false));
    assert_eq!(liked_request(Some(true), true), None);
    assert_eq!(liked_request(None, true), None);
}

#[test]
fn library_paths_are_form_encoded() {
    assert_eq!(library_path("spotify:track:abc"), "me/library?&uris=spotify%3Atrack%3Aabc");
}

#[test]
fn poll_state_tracks_context_changes() {
    let mut state = PollState::new(100_000);
    assert_eq!(state.last_grabbed_queue, 40_000);
    assert!(state.queue_due(100_000));
    assert!(!state.take_queue(100_000));
    assert!(!state.queue_due(114_999));
    assert!(state.queue_due(115_000));

    let context = "spotify:album:x".to_string();
    state.observe_context(Some(&context), 101_000);
    assert!(state.context_updated);
    assert_eq!(state.current_context.as_deref(), Some("spotify:album:x"));
    assert!(state.queue_due(101_000));
    state.observe_context(Some(&context), 102_000);
    assert_eq!(state.last_grabbed_queue, 41_000);
    assert!(state.take_queue(103_000));
    assert!(!state.context_updated);
    state.observe_context(None, 104_000);
    assert!(state.context_updated);
    assert_eq!(state.current_context, None);

    assert_eq!(PollState::new(5).last_grabbed_queue, 5);
}

#[test]
fn missing_features_are_new_and_unique() {
    let ids = vec![TrackId(3), TrackId(1), TrackId(3), TrackId(2), TrackId(4)];
    let cached = vec![TrackId(1), TrackId(4)];
    assert_eq!(missing_features(&ids, &cached), vec![TrackId(3), TrackId(2)]);
    assert_eq!(missing_features(&ids, &ids), Vec::<TrackId>::new());
}

#[test]
fn track_ids_come_from_the_last_segment() {
    assert_eq!(href_track_id("https://open.spotify.com/track/4uLU6hMCjMI75M1A2tKUQC"), "4uLU6hMCjMI75M1A2tKUQC");
    assert_eq!(href_track_id("plain"), "plain");
    assert_eq!(href_track_id("ends/"), "");
}

#[test]
fn poll_schedule_waits_for_the_next_poll() {
    let mut schedule = PollSchedule::new(10_000);
    assert_eq!(schedule.due(10_000), (true, false));
    assert_eq!(schedule.timeout(10_000), 0);
    schedule.playback_polled(10_200);
    assert_eq!(schedule.timeout(10_200), 800);
    assert_eq!(schedule.due(11_000), (false, true));
    schedule.playlists_polled(11_000);
    assert_eq!(schedule.next_playlists, 31_000);
    assert_eq!(schedule.timeout(11_000), 200);
    assert_eq!(schedule.timeout(40_000), 0);
}
