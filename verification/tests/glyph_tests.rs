use cantus::glyphs::{glyph_atlas_coords, place_glyph, AtlasCursor, AtlasEntry, GlyphCache};

#[test]
fn glyphs_fill_rows_and_wrap() {
    let start = AtlasCursor { x: 0, y: 0, row_height: 0 };
    let (origin, cursor) = place_glyph(start, 10, 12, 32).unwrap();
    assert_eq!(origin, [2, 2]);
    assert_eq!(cursor, AtlasCursor { x: 14, y: 0, row_height: 16 });
    let (origin, cursor) = place_glyph(cursor, 8, 6, 32).unwrap();
    assert_eq!(origin, [16, 2]);
    assert_eq!(cursor, AtlasCursor { x: 26, y: 0, row_height: 16 });
    // Too wide for the rest of the row: the next row starts below the tallest glyph.
    let (origin, cursor) = place_glyph(cursor, 5, 5, 32).unwrap();
    assert_eq!(origin, [2, 18]);
    assert_eq!(cursor, AtlasCursor { x: 9, y: 16, row_height: 9 });
    // Too tall for what is left of the atlas.
    assert_eq!(place_glyph(cursor, 5, 20, 32), None);
}

#[test]
fn glyph_instances_pack_both_corners() {
    assert_eq!(glyph_atlas_coords([16, 2], 8, 6), [16 | 2 << 16, 24 | 8 << 16]);
}

#[test]
fn the_glyph_cache_places_each_glyph_once() {
    let mut cache = GlyphCache::new(32);
    assert_eq!(cache.get((700, 5, 64)), None);
    let a = cache.insert((700, 5, 64), 10, 12, [1, 9]).unwrap();
    assert_eq!(a, AtlasEntry { pos: [2, 2], size: [10, 12], bearing: [1, 9] });
    assert_eq!(cache.get((700, 5, 64)), Some(a));
    // A cached key gives its entry back and changes nothing.
    assert_eq!(cache.insert((700, 5, 64), 3, 3, [0, 0]), Some(a));
    assert_eq!(cache.entries.len(), 1);
    assert_eq!(cache.cursor, AtlasCursor { x: 14, y: 0, row_height: 16 });
    // An empty image caches nothing.
    assert_eq!(cache.insert((700, 6, 64), 0, 5, [0, 0]), None);
    assert_eq!(cache.entries.len(), 1);
    let b = cache.insert((700, 7, 64), 20, 4, [0, 3]).unwrap();
    assert_eq!(b.pos, [2, 18]);
    assert_eq!(cache.cursor, AtlasCursor { x: 24, y: 16, row_height: 8 });
    // No room left: nothing changes.
    assert_eq!(cache.insert((700, 8, 64), 4, 20, [0, 0]), None);
    assert_eq!(cache.entries.len(), 2);
    assert_eq!(cache.cursor, AtlasCursor { x: 24, y: 16, row_height: 8 });
}
