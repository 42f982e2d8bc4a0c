use std::sync::Arc;

use cantus::art::{AlbumArt, ArtState};
use cantus::atlas::ImageAtlas;
use cantus::cache::{fit_to_atlas, required_image_urls, AppCaches, ImageCacheState, RgbaPixels, IMAGE_SIZE};
use cantus::playback::{AlbumId, CondensedPlaylist, PlaybackState, PlaylistId, Track, TrackId};

fn track(id: u64, album: u64, image: Option<&str>) -> Track<()> {
    Track {
        id: Some(TrackId(id)),
        name: format!("t{id}"),
        album_id: Some(AlbumId(album)),
        album_image: image.map(str::to_string),
        duration_ms: 1,
        art: ArtState::Missing,
        runtime: (),
    }
}

fn playback(queue: Vec<Track<()>>, covers: Vec<Option<&str>>) -> PlaybackState<()> {
    PlaybackState {
        queue,
        queue_index: 0,
        playlists: covers
            .into_iter()
            .enumerate()
            .map(|(i, cover)| CondensedPlaylist {
                id: PlaylistId(i as u64),
                name: format!("p{i}"),
                image_url: cover.map(str::to_string),
                tracks: vec![],
                rating_index: None,
                art: ArtState::Missing,
            })
            .collect(),
        playing: false,
        volume: None,
        progress_ms: 0,
        last_progress_update: 0,
        last_interaction: 0,
    }
}

fn sorted(mut urls: Vec<String>) -> Vec<String> {
    urls.sort();
    urls
}

#[test]
fn required_urls_come_from_queue_and_covers_once_each() {
    let state = playback(
        vec![track(1, 1, Some("a")), track(2, 1, Some("a")), track(3, 2, None)],
        vec![Some("b"), None, Some("a")],
    );
    assert_eq!(sorted(required_image_urls(&state)), vec!["a".to_string(), "b".to_string()]);
}

#[test]
fn failed_and_finished_urls_leave_the_sets() {
    let mut cache = ImageCacheState::new();
    cache.mark_dirty();
    assert!(cache.dirty);
    let state = playback(vec![track(1, 1, Some("a"))], vec![]);
    let mut caches: AppCaches<u8> = AppCaches { images: vec![], album_palettes: vec![] };
    assert_eq!(cache.sync(&mut caches, &state), vec!["a".to_string()]);
    assert_eq!(cache.in_flight, vec!["a".to_string()]);
    cache.fail("a".to_string());
    assert!(cache.in_flight.is_empty());
    assert_eq!(cache.failed, vec!["a".to_string()]);
    // A failed URL is not asked for again until it arrives.
    assert!(cache.sync(&mut caches, &state).is_empty());
    cache.finish("a");
    assert!(cache.failed.is_empty());
}

#[test]
fn sync_drops_what_is_no_longer_shown_and_asks_once() {
    let mut cache = ImageCacheState::new();
    cache.in_flight = vec!["gone".to_string(), "b".to_string()];
    cache.failed = vec!["old".to_string()];
    let mut caches = AppCaches {
        images: vec![("a".to_string(), 1u8), ("stale".to_string(), 2u8)],
        album_palettes: vec![(AlbumId(1), [1, 2, 3, 4]), (AlbumId(9), [0; 4])],
    };
    let state = playback(vec![track(1, 1, Some("a")), track(2, 2, Some("b")), track(3, 3, Some("c"))], vec![Some("d")]);
    let downloads = cache.sync(&mut caches, &state);
    assert_eq!(sorted(downloads), vec!["c".to_string(), "d".to_string()]);
    assert_eq!(caches.images, vec![("a".to_string(), 1u8)]);
    assert_eq!(caches.album_palettes, vec![(AlbumId(1), [1, 2, 3, 4])]);
    assert_eq!(sorted(cache.in_flight.clone()), vec!["b".to_string(), "c".to_string(), "d".to_string()]);
    assert!(cache.failed.is_empty());
    // Syncing again asks for nothing.
    assert!(cache.sync(&mut caches, &state).is_empty());
}

#[test]
fn decoded_images_are_cached_only_when_needed() {
    let mut cache = ImageCacheState::new();
    cache.in_flight = vec!["a".to_string(), "x".to_string()];
    let mut caches: AppCaches<u8> = AppCaches { images: vec![], album_palettes: vec![] };
    let state = playback(vec![track(1, 1, Some("a"))], vec![]);
    assert!(cache.store_decoded_image(&mut caches, &state, "a".to_string(), 7));
    assert_eq!(caches.images, vec![("a".to_string(), 7)]);
    assert!(cache.store_decoded_image(&mut caches, &state, "a".to_string(), 8));
    assert_eq!(caches.images, vec![("a".to_string(), 8)]);
    assert!(!cache.store_decoded_image(&mut caches, &state, "x".to_string(), 9));
    assert_eq!(caches.images.len(), 1);
    assert!(cache.in_flight.is_empty());
}

fn solid(width: u32, height: u32) -> RgbaPixels {
    RgbaPixels { width, height, pixels: [200u8, 10, 30, 255].repeat((width * height) as usize) }
}

#[test]
fn decoded_images_are_brought_to_the_atlas_size() {
    let mut cache = ImageCacheState::new();
    cache.in_flight = vec!["a".to_string()];
    let mut caches: AppCaches<RgbaPixels> = AppCaches { images: vec![], album_palettes: vec![] };
    let state = playback(vec![track(1, 1, Some("a"))], vec![]);
    assert!(cache.apply_decoded_image(&mut caches, &state, "a".to_string(), solid(300, 150)));
    let (url, image) = &caches.images[0];
    assert_eq!(url, "a");
    assert_eq!((image.width, image.height), (IMAGE_SIZE, IMAGE_SIZE));
    assert_eq!(image.pixels, solid(64, 64).pixels);
    // An image of the atlas size is kept as it is.
    let mut pattern = solid(64, 64);
    pattern.pixels[0] = 1;
    let kept = fit_to_atlas(RgbaPixels { width: 64, height: 64, pixels: pattern.pixels.clone() });
    assert_eq!(kept.pixels, pattern.pixels);
    // Other sizes are scaled as the image crate's fill does.
    let small = RgbaPixels { width: 3, height: 2, pixels: (0..24).map(|v| (v * 10) as u8).collect() };
    let expected = image::DynamicImage::ImageRgba8(image::RgbaImage::from_raw(3, 2, small.pixels.clone()).unwrap())
        .resize_to_fill(64, 64, image::imageops::FilterType::Lanczos3)
        .to_rgba8()
        .into_raw();
    assert_eq!(fit_to_atlas(small).pixels, expected);
}

fn art(key: u64) -> ArtState {
    ArtState::Ready(Arc::new(AlbumArt { key, pixels: vec![], palette: [0; 4] }))
}

#[test]
fn atlas_keeps_layers_within_a_frame() {
    let mut atlas = ImageAtlas::new();
    assert_eq!(atlas.image_index(10), (0, true));
    assert_eq!(atlas.image_index(11), (1, true));
    assert_eq!(atlas.image_index(10), (0, false));
    assert_eq!(atlas.used, 0b11);
    atlas.begin_frame();
    // Next frame: image 11 keeps its layer, a new image takes the first
    // layer this frame does not use.
    assert_eq!(atlas.image_index(11), (1, false));
    assert_eq!(atlas.image_index(12), (0, true));
    assert_eq!(atlas.slots[0], Some(12));
    assert_eq!(atlas.art_index(&ArtState::Missing), (-1, false));
    assert_eq!(atlas.art_index(&art(11)), (1, false));
}

#[test]
fn atlas_refuses_images_once_every_layer_is_used() {
    let mut atlas = ImageAtlas::new();
    for key in 0..32u64 {
        assert_eq!(atlas.image_index(key), (key as i32, true));
    }
    assert_eq!(atlas.used, u32::MAX);
    assert_eq!(atlas.image_index(99), (-1, false));
    assert_eq!(atlas.image_index(5), (5, false));
}
