use cantus::art::ArtState;
use cantus::playback::{AlbumId, CondensedPlaylist, PlaybackState, PlaylistId, Track, TrackId};
use cantus::player::{icon_action, track_rating, PlayerCommand, TrackAction};
use cantus::playlists::{apply_playlist, rating_index};

fn track(id: u64, name: &str, duration_ms: u32) -> Track<()> {
    Track {
        id: Some(TrackId(id)),
        name: name.to_string(),
        album_id: Some(AlbumId(1)),
        album_image: None,
        duration_ms,
        art: ArtState::Missing,
        runtime: (),
    }
}

fn playlist(id: u64, name: &str, tracks: Vec<u64>, rating: Option<u8>) -> CondensedPlaylist {
    CondensedPlaylist {
        id: PlaylistId(id),
        name: name.to_string(),
        image_url: None,
        tracks: tracks.into_iter().map(TrackId).collect(),
        rating_index: rating,
        art: ArtState::Missing,
    }
}

fn state(playlists: Vec<CondensedPlaylist>) -> PlaybackState<()> {
    PlaybackState {
        queue: vec![track(1, "a", 200_000), track(2, "b", 100_000), track(3, "c", 90_000)],
        queue_index: 1,
        playlists,
        playing: true,
        volume: Some(50),
        progress_ms: 0,
        last_progress_update: 0,
        last_interaction: 0,
    }
}

fn ids(p: &CondensedPlaylist) -> Vec<u64> {
    let mut v: Vec<u64> = p.tracks.iter().map(|t| t.0).collect();
    v.sort();
    v
}

#[test]
fn rating_playlists_are_named_by_half_stars() {
    assert_eq!(rating_index(true, &"0.5".to_string()), Some(0));
    assert_eq!(rating_index(true, &"3.0".to_string()), Some(5));
    assert_eq!(rating_index(true, &"5.0".to_string()), Some(9));
    assert_eq!(rating_index(true, &"5.5".to_string()), None);
    assert_eq!(rating_index(true, &"Chill".to_string()), None);
    assert_eq!(rating_index(false, &"3.0".to_string()), None);
}

#[test]
fn membership_reads_back_and_second_set_changes_nothing() {
    let mut p = playlist(1, "x", vec![1, 2], None);
    assert!(p.set_membership(TrackId(3), true));
    assert!(p.contains(TrackId(3)));
    assert!(!p.set_membership(TrackId(3), true));
    assert!(p.set_membership(TrackId(1), false));
    assert!(!p.contains(TrackId(1)));
    assert!(!p.set_membership(TrackId(1), false));
    assert_eq!(ids(&p), vec![2, 3]);
}

#[test]
fn rating_moves_the_track_to_one_rating_playlist() {
    let lists = vec![
        playlist(1, "2.0", vec![7], Some(3)),
        playlist(2, "4.5", vec![], Some(8)),
        playlist(3, "Chill", vec![7], None),
        playlist(4, "5.0", vec![], Some(9)),
    ];
    let mut playback = state(lists);
    let command = playback.handle_track_action(TrackAction::Rate(TrackId(7), 9), 0);
    match command {
        Some(PlayerCommand::UpdateLibrary { track, changes, liked }) => {
            assert_eq!(track, TrackId(7));
            assert_eq!(changes, vec![(PlaylistId(1), false), (PlaylistId(4), true)]);
            assert_eq!(liked, Some(true));
        },
        _ => panic!("expected a library update"),
    }
    assert_eq!(ids(&playback.playlists[0]), Vec::<u64>::new());
    assert_eq!(ids(&playback.playlists[2]), vec![7]);
    assert_eq!(ids(&playback.playlists[3]), vec![7]);
    let again = playback.handle_track_action(TrackAction::Rate(TrackId(7), 3), 0);
    match again {
        Some(PlayerCommand::UpdateLibrary { changes, liked, .. }) => {
            assert_eq!(changes, vec![(PlaylistId(1), true), (PlaylistId(4), false)]);
            assert_eq!(liked, Some(false));
        },
        _ => panic!("expected a library update"),
    }
}

#[test]
fn toggling_a_playlist_flips_membership() {
    let mut playback = state(vec![playlist(1, "Chill", vec![], None)]);
    match playback.handle_track_action(TrackAction::TogglePlaylist(TrackId(2), PlaylistId(1)), 0) {
        Some(PlayerCommand::UpdateLibrary { changes, liked, .. }) => {
            assert_eq!(changes, vec![(PlaylistId(1), true)]);
            assert_eq!(liked, None);
        },
        _ => panic!("expected a library update"),
    }
    assert!(playback.playlists[0].contains(TrackId(2)));
    match playback.handle_track_action(TrackAction::TogglePlaylist(TrackId(2), PlaylistId(1)), 0) {
        Some(PlayerCommand::UpdateLibrary { changes, .. }) => assert_eq!(changes, vec![(PlaylistId(1), false)]),
        _ => panic!("expected a library update"),
    }
    assert!(!playback.playlists[0].contains(TrackId(2)));
    assert!(playback.handle_track_action(TrackAction::TogglePlaylist(TrackId(2), PlaylistId(9)), 0).is_none());
}

#[test]
fn seeking_within_the_playing_track() {
    let mut playback = state(vec![]);
    match playback.handle_track_action(TrackAction::Seek(TrackId(2), 500_000), 1_000) {
        Some(PlayerCommand::Seek { position_ms }) => assert_eq!(position_ms, 50_000),
        _ => panic!("expected a seek"),
    }
    assert_eq!(playback.progress_ms, 50_000);
    assert_eq!(playback.last_progress_update, 1_000);
    assert_eq!(playback.last_interaction, 3_000);
    match playback.handle_track_action(TrackAction::Seek(TrackId(2), 40_000), 1_000) {
        Some(PlayerCommand::Seek { position_ms }) => assert_eq!(position_ms, 0),
        _ => panic!("expected a seek"),
    }
    // A position past the end is not cut back: 1.2 of a 100 s track.
    match playback.handle_track_action(TrackAction::Seek(TrackId(2), 1_200_000), 1_000) {
        Some(PlayerCommand::Seek { position_ms }) => assert_eq!(position_ms, 120_000),
        _ => panic!("expected a seek"),
    }
    match playback.handle_track_action(TrackAction::Seek(TrackId(2), u32::MAX), 1_000) {
        Some(PlayerCommand::Seek { position_ms }) => assert_eq!(position_ms, 429_496_730),
        _ => panic!("expected a seek"),
    }
}

#[test]
fn seeking_to_another_track_skips() {
    let mut playback = state(vec![]);
    match playback.handle_track_action(TrackAction::Seek(TrackId(1), 500_000), 5) {
        Some(PlayerCommand::Skip { forward, count }) => {
            assert!(!forward);
            assert_eq!(count, 1);
        },
        _ => panic!("expected a skip"),
    }
    assert_eq!(playback.queue_index, 0);
    assert_eq!(playback.progress_ms, 0);
    assert!(playback.handle_track_action(TrackAction::Seek(TrackId(42), 0), 5).is_none());
}

#[test]
fn volume_steps_by_five_within_range() {
    let mut playback = state(vec![]);
    assert!(matches!(playback.adjust_playback_volume(-1), Some(PlayerCommand::SetVolume(55))));
    assert!(matches!(playback.adjust_playback_volume(1), Some(PlayerCommand::SetVolume(50))));
    playback.volume = Some(98);
    playback.adjust_playback_volume(-1);
    assert_eq!(playback.volume, Some(100));
    playback.volume = Some(3);
    playback.adjust_playback_volume(1);
    assert_eq!(playback.volume, Some(0));
    playback.volume = None;
    assert!(playback.adjust_playback_volume(1).is_none());
}

#[test]
fn toggling_play_flips_and_asks_the_player() {
    let mut playback = state(vec![]);
    assert!(matches!(playback.toggle_playing(), PlayerCommand::SetPlaying(false)));
    assert!(!playback.playing);
    assert!(matches!(playback.toggle_playing(), PlayerCommand::SetPlaying(true)));
}

#[test]
fn playback_reports_respect_recent_interaction() {
    let mut playback = state(vec![]);
    playback.playing = false;
    let started = playback.apply_playback(Some((Some(TrackId(3)), "c".to_string())), Some(30), true, Some(1234), 10);
    assert!(started);
    assert_eq!(playback.queue_index, 2);
    assert_eq!(playback.volume, Some(30));
    assert_eq!(playback.progress_ms, 1234);
    playback.last_interaction = 100;
    let started = playback.apply_playback(Some((None, "zzz".to_string())), None, false, Some(5), 50);
    assert!(!started);
    assert_eq!(playback.queue_index, 0);
    assert!(playback.playing);
    assert_eq!(playback.progress_ms, 1234);
    assert_eq!(playback.last_progress_update, 50);
}

#[test]
fn playlist_updates_keep_name_order_and_art() {
    let mut lists = vec![playlist(1, "b", vec![], None), playlist(2, "d", vec![], None)];
    lists[0].image_url = Some("http://i/1".to_string());
    lists[0].art = ArtState::Fetching;
    let mut update = playlist(1, "e", vec![5], None);
    update.image_url = Some("http://i/1".to_string());
    apply_playlist(&mut lists, update);
    let names: Vec<&str> = lists.iter().map(|p| p.name.as_str()).collect();
    assert_eq!(names, vec!["d", "e"]);
    assert!(matches!(lists[1].art, ArtState::Fetching));
    apply_playlist(&mut lists, playlist(3, "a", vec![], None));
    let names: Vec<&str> = lists.iter().map(|p| p.name.as_str()).collect();
    assert_eq!(names, vec!["a", "d", "e"]);
    let mut again = playlist(1, "e", vec![5], None);
    again.image_url = Some("http://i/1".to_string());
    apply_playlist(&mut lists, again);
    assert_eq!(lists.len(), 3);
    assert!(matches!(lists[2].art, ArtState::Fetching));
}

#[test]
fn pills_show_the_rating_they_were_given() {
    let lists = vec![
        playlist(1, "2.0", vec![], Some(3)),
        playlist(2, "Chill", vec![7], None),
        playlist(4, "5.0", vec![], Some(9)),
    ];
    let mut playback = state(lists);
    assert_eq!(track_rating(&playback.playlists, TrackId(7), true), 0);
    assert_eq!(track_rating(&playback.playlists, TrackId(7), false), -1);
    playback.handle_track_action(TrackAction::Rate(TrackId(7), 9), 0);
    assert_eq!(track_rating(&playback.playlists, TrackId(7), true), 10);
    playback.handle_track_action(TrackAction::Rate(TrackId(7), 3), 0);
    assert_eq!(track_rating(&playback.playlists, TrackId(7), true), 4);
    // With no playlist for the rating, the track shows no rating at all.
    playback.handle_track_action(TrackAction::Rate(TrackId(7), 5), 0);
    assert_eq!(track_rating(&playback.playlists, TrackId(7), true), 0);
    assert_eq!(track_rating(&playback.playlists, TrackId(8), true), 0);
}

#[test]
fn icon_clicks_rate_or_toggle() {
    let icons = vec![PlaylistId(10), PlaylistId(11)];
    let t = TrackId(7);
    assert!(matches!(icon_action(t, true, 5, 0, false, &icons), Some(TrackAction::Rate(TrackId(7), 0))));
    assert!(matches!(icon_action(t, true, 5, 2, true, &icons), Some(TrackAction::Rate(TrackId(7), 5))));
    assert!(matches!(icon_action(t, true, 5, 4, true, &icons), Some(TrackAction::Rate(TrackId(7), 9))));
    assert!(matches!(icon_action(t, true, 5, 6, false, &icons), Some(TrackAction::TogglePlaylist(TrackId(7), PlaylistId(11)))));
    assert!(matches!(icon_action(t, true, 0, 0, true, &icons), Some(TrackAction::TogglePlaylist(TrackId(7), PlaylistId(10)))));
    assert!(matches!(icon_action(t, false, 5, 1, false, &icons), Some(TrackAction::TogglePlaylist(TrackId(7), PlaylistId(11)))));
    assert!(icon_action(t, false, 5, 2, false, &icons).is_none());
    assert!(icon_action(t, true, 5, 7, false, &icons).is_none());
}
