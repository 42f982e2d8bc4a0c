use std::sync::Arc;

use cantus::art::{art_request, AlbumArt, ArtState};
use cantus::playback::{track_index, AlbumId, CondensedPlaylist, PlaybackState, PlaylistId, Track, TrackId};

fn track(id: u64, name: &str, image: Option<&str>) -> Track<u32> {
    Track {
        id: Some(TrackId(id)),
        name: name.to_string(),
        album_id: Some(AlbumId(id + 1000)),
        album_image: image.map(str::to_string),
        duration_ms: 200_000,
        art: ArtState::Missing,
        runtime: 0,
    }
}

fn art(key: u64) -> Arc<AlbumArt> {
    Arc::new(AlbumArt { key, pixels: vec![1, 2, 3, 4], palette: [key as u32, 2, 3, 4] })
}

fn state(queue: Vec<Track<u32>>, playlists: Vec<CondensedPlaylist>) -> PlaybackState<u32> {
    PlaybackState {
        queue,
        queue_index: 0,
        playlists,
        playing: false,
        volume: Some(50),
        progress_ms: 0,
        last_progress_update: 0,
        last_interaction: 0,
    }
}

fn playlist(id: u64, name: &str, image: Option<&str>) -> CondensedPlaylist {
    CondensedPlaylist {
        id: PlaylistId(id),
        name: name.to_string(),
        image_url: image.map(str::to_string),
        tracks: vec![],
        rating_index: None,
        art: ArtState::Missing,
    }
}

#[test]
fn track_index_prefers_id_then_name() {
    let queue = vec![track(1, "One", None), track(2, "Two", None), track(3, "Two", None)];
    assert_eq!(track_index(&queue, Some(TrackId(3)), &"One".to_string()), Some(2));
    assert_eq!(track_index(&queue, Some(TrackId(9)), &"Two".to_string()), Some(1));
    assert_eq!(track_index(&queue, None, &"One".to_string()), Some(0));
    assert_eq!(track_index(&queue, Some(TrackId(9)), &"Nine".to_string()), None);
}

#[test]
fn queue_update_keeps_history_and_points_at_playing() {
    let mut old = vec![track(1, "a", None), track(2, "b", None), track(3, "c", None), track(4, "d", None)];
    old[3].runtime = 44;
    old[3].art = ArtState::Fetching;
    let mut playback = state(old, vec![]);
    let fresh = vec![track(3, "c", None), track(4, "d", None), track(5, "e", None)];
    playback.apply_queue(fresh, false, 1);
    let ids: Vec<u64> = playback.queue.iter().map(|t| t.id.unwrap().0).collect();
    assert_eq!(ids, vec![2, 3, 4, 5]);
    assert_eq!(playback.queue_index, 1);
    assert_eq!(playback.queue[playback.queue_index].name, "c");
    // The fresh track 4 kept the render state and art of the old one.
    assert_eq!(playback.queue[2].runtime, 44);
    assert!(matches!(playback.queue[2].art, ArtState::Fetching));
}

#[test]
fn queue_update_with_new_context_drops_history() {
    let old = vec![track(1, "a", None), track(2, "b", None)];
    let mut playback = state(old, vec![]);
    playback.apply_queue(vec![track(2, "b", None), track(7, "g", None)], true, 5);
    let ids: Vec<u64> = playback.queue.iter().map(|t| t.id.unwrap().0).collect();
    assert_eq!(ids, vec![2, 7]);
    assert_eq!(playback.queue_index, 0);
}

#[test]
fn fresh_tracks_reuse_decoded_art_of_their_image() {
    let mut old = vec![track(1, "a", Some("http://img/x"))];
    old[0].art = ArtState::Ready(art(5));
    let mut playback = state(old, vec![]);
    playback.apply_queue(vec![track(1, "a", Some("http://img/x")), track(8, "h", Some("http://img/x"))], true, 0);
    match &playback.queue[1].art {
        ArtState::Ready(a) => assert_eq!(a.key, 5),
        _ => panic!("expected shared art"),
    }
}

#[test]
fn art_states_and_requests() {
    assert!(ArtState::Missing.needs_fetch(0));
    assert!(!ArtState::Fetching.needs_fetch(100));
    assert!(ArtState::RetryAt(10).needs_fetch(10));
    assert!(!ArtState::RetryAt(11).needs_fetch(10));
    assert_eq!(ArtState::Missing.palette(), [0; 4]);
    assert_eq!(ArtState::Ready(art(9)).palette(), [9, 2, 3, 4]);
    assert!(ArtState::Missing.ready().is_none());
    assert_eq!(art_request(&ArtState::Missing, Some("u"), 0), Some("u".to_string()));
    assert_eq!(art_request(&ArtState::Missing, None, 0), None);
    assert_eq!(art_request(&ArtState::Fetching, Some("u"), 0), None);
}

#[test]
fn missing_art_is_requested_once_per_url() {
    let queue = vec![
        track(1, "a", Some("http://img/1")),
        track(2, "b", Some("http://img/1")),
        track(3, "c", Some("http://img/2")),
    ];
    let mut lists = vec![playlist(10, "p", Some("http://img/2")), playlist(11, "q", None)];
    lists[0].art = ArtState::Missing;
    let mut playback = state(queue, lists);
    let downloads = playback.start_missing_art_downloads(0);
    assert_eq!(downloads, vec!["http://img/1".to_string(), "http://img/2".to_string()]);
    assert!(playback.queue.iter().all(|t| matches!(t.art, ArtState::Fetching)));
    assert!(matches!(playback.playlists[0].art, ArtState::Fetching));
    assert!(playback.start_missing_art_downloads(1).is_empty());
}

#[test]
fn ready_art_is_shared_instead_of_downloaded() {
    let mut queue = vec![track(1, "a", Some("http://img/1")), track(2, "b", Some("http://img/1"))];
    queue[0].art = ArtState::Ready(art(3));
    let mut playback = state(queue, vec![]);
    let downloads = playback.start_missing_art_downloads(0);
    assert!(downloads.is_empty());
    match &playback.queue[1].art {
        ArtState::Ready(a) => assert_eq!(a.key, 3),
        _ => panic!("expected shared art"),
    }
}

#[test]
fn set_art_state_touches_matching_slots() {
    let queue = vec![track(1, "a", Some("http://img/1")), track(2, "b", Some("http://img/2"))];
    let mut playback = state(queue, vec![playlist(5, "p", Some("http://img/1"))]);
    playback.set_art_state(&"http://img/1".to_string(), &ArtState::RetryAt(30_000));
    assert!(matches!(playback.queue[0].art, ArtState::RetryAt(30_000)));
    assert!(matches!(playback.queue[1].art, ArtState::Missing));
    assert!(matches!(playback.playlists[0].art, ArtState::RetryAt(30_000)));
}
