use vstd::prelude::*;
use crate::packing::{high_half, low_half, pack_u16x2};

verus! {

/// Transparent texels kept around each glyph, so that linear filtering
/// samples no coverage from a neighbour.
pub const ATLAS_PADDING: u32 = 2;

/// Where the next glyph goes in the atlas: glyphs fill rows left to right,
/// each row as tall as its tallest padded glyph.
#[derive(Clone, Copy, PartialEq, Eq, Structural, Debug)]
pub struct AtlasCursor {
    pub x: u32,
    pub y: u32,
    pub row_height: u32,
}

/// A rectangle of texels, `[x0, x1) × [y0, y1)`.
pub struct TexelRect {
    pub x0: int,
    pub y0: int,
    pub x1: int,
    pub y1: int,
}

/// The padded rectangle that a glyph of `width` by `height` placed at
/// `origin` occupies.
pub open spec fn padded(origin: [u32; 2], width: u32, height: u32) -> TexelRect {
    TexelRect {
        x0: origin[0] - ATLAS_PADDING,
        y0: origin[1] - ATLAS_PADDING,
        x1: origin[0] + width + ATLAS_PADDING,
        y1: origin[1] + height + ATLAS_PADDING,
    }
}

/// Whether a rectangle lies in the part of the atlas that the cursor has
/// passed: in an earlier row, or in the current row left of the cursor.
pub open spec fn passed(cursor: AtlasCursor, rect: TexelRect) -> bool {
    ||| rect.y1 <= cursor.y
    ||| cursor.y <= rect.y0 && rect.y1 <= cursor.y + cursor.row_height && rect.x1 <= cursor.x
}

/// Whether two rectangles share no texel.
pub open spec fn disjoint(a: TexelRect, b: TexelRect) -> bool {
    a.x1 <= b.x0 || b.x1 <= a.x0 || a.y1 <= b.y0 || b.y1 <= a.y0
}

/// Where a glyph of `width` by `height` texels goes in a square atlas of
/// `atlas_size` texels, and the cursor after it: on the cursor's row, or at
/// the start of the next row when the padded glyph does not fit across;
/// `None` when it does not fit down the atlas.
pub open spec fn placement(cursor: AtlasCursor, width: u32, height: u32, atlas_size: u32) -> Option<(
    [u32; 2],
    AtlasCursor,
)> {
    let pad = 2 * ATLAS_PADDING;
    let wrap = cursor.x + width + pad > atlas_size;
    let x = if wrap { 0 } else { cursor.x as int };
    let y = if wrap { cursor.y + cursor.row_height } else { cursor.y as int };
    let row = if wrap { 0 } else { cursor.row_height as int };
    if y + height + pad > atlas_size {
        None
    } else {
        Some(
            (
                [(x + ATLAS_PADDING) as u32, (y + ATLAS_PADDING) as u32],
                AtlasCursor {
                    x: (x + width + pad) as u32,
                    y: y as u32,
                    row_height: (if row > height + pad { row } else { height + pad }) as u32,
                },
            ),
        )
    }
}

/// Whether a cursor lies within an atlas of `atlas_size` texels.
pub open spec fn cursor_wf(cursor: AtlasCursor, atlas_size: u32) -> bool {
    cursor.y + cursor.row_height <= atlas_size
}

/// Places a glyph of `width` by `height` texels in the atlas: the texel
/// where its image goes, and the cursor for the next glyph.
pub fn place_glyph(cursor: AtlasCursor, width: u32, height: u32, atlas_size: u32) -> (placed: Option<
    ([u32; 2], AtlasCursor),
>)
    requires
        cursor.x + width + 2 * ATLAS_PADDING <= u32::MAX,
    ensures
        placed == placement(cursor, width, height, atlas_size),
        placed matches Some((_, next)) ==> (cursor_wf(cursor, atlas_size) ==> cursor_wf(next, atlas_size)),
{
    let pad: u64 = 2 * ATLAS_PADDING as u64;
    let wrap = cursor.x as u64 + width as u64 + pad > atlas_size as u64;
    let x: u64 = if wrap { 0 } else { cursor.x as u64 };
    let y: u64 = if wrap { cursor.y as u64 + cursor.row_height as u64 } else { cursor.y as u64 };
    let row: u64 = if wrap { 0 } else { cursor.row_height as u64 };
    if y + height as u64 + pad > atlas_size as u64 {
        return None;
    }
    let tall = height as u64 + pad;
    Some(
        (
            [(x + ATLAS_PADDING as u64) as u32, (y + ATLAS_PADDING as u64) as u32],
            AtlasCursor { x: (x + width as u64 + pad) as u32, y: y as u32, row_height: (if row > tall { row } else { tall }) as u32 },
        ),
    )
}

/// Glyphs never overlap: a glyph placed at the cursor shares no texel with
/// anything the cursor has passed, and afterwards the cursor has passed both
/// it and everything it had passed before. By induction, any number of
/// glyphs placed one after another are pairwise apart.
pub proof fn placed_glyphs_do_not_overlap(
    cursor: AtlasCursor,
    width: u32,
    height: u32,
    atlas_size: u32,
    earlier: TexelRect,
)
    requires
        cursor_wf(cursor, atlas_size),
        cursor.x + width + 2 * ATLAS_PADDING <= u32::MAX,
        placement(cursor, width, height, atlas_size) is Some,
        passed(cursor, earlier),
    ensures
        ({
            let (origin, next) = placement(cursor, width, height, atlas_size)->Some_0;
            let glyph = padded(origin, width, height);
            &&& disjoint(earlier, glyph)
            &&& passed(next, earlier)
            &&& passed(next, glyph)
            &&& 0 <= glyph.y0 && glyph.y1 <= atlas_size
            &&& width + 2 * ATLAS_PADDING <= atlas_size ==> 0 <= glyph.x0 && glyph.x1 <= atlas_size
        }),
{
}

/// The atlas coordinates of a glyph instance: its image's top-left and
/// bottom-right texels, each packed as `x | y << 16`.
pub fn glyph_atlas_coords(origin: [u32; 2], width: u32, height: u32) -> (atlas: [u32; 2])
    requires
        origin[0] + width < 0x1_0000,
        origin[1] + height < 0x1_0000,
    ensures
        low_half(atlas[0]) == origin[0],
        high_half(atlas[0]) == origin[1],
        low_half(atlas[1]) == origin[0] + width,
        high_half(atlas[1]) == origin[1] + height,
{
    [pack_u16x2(origin), pack_u16x2([origin[0] + width, origin[1] + height])]
}

/// A rasterized glyph's key: font weight, glyph ID and raster size (in
/// quarter steps).
pub type GlyphKey = (u16, u16, u16);

/// Where a rasterized glyph lies in the atlas, its size, and its placement
/// offsets (left and top) from the pen position.
#[derive(Clone, Copy, PartialEq, Eq, Debug)]
pub struct AtlasEntry {
    pub pos: [u32; 2],
    pub size: [u32; 2],
    pub bearing: [i32; 2],
}

/// The glyphs rasterized into the atlas so far, by key, and the cursor where
/// the next one goes.
pub struct GlyphCache {
    pub atlas_size: u32,
    pub entries: Vec<(GlyphKey, AtlasEntry)>,
    pub cursor: AtlasCursor,
}

/// Whether a glyph's padded box lies inside an atlas of `atlas_size`.
pub open spec fn inside_atlas(entry: AtlasEntry, atlas_size: u32) -> bool {
    &&& ATLAS_PADDING <= entry.pos[0] && ATLAS_PADDING <= entry.pos[1]
    &&& entry.pos[0] + entry.size[0] + ATLAS_PADDING <= atlas_size
    &&& entry.pos[1] + entry.size[1] + ATLAS_PADDING <= atlas_size
}

/// The padded box of a cached glyph.
pub open spec fn entry_box(entry: AtlasEntry) -> TexelRect {
    padded(entry.pos, entry.size[0], entry.size[1])
}

/// The position of the entry cached under `key`, if any.
pub open spec fn cached_at(entries: Seq<(GlyphKey, AtlasEntry)>, key: GlyphKey) -> Option<int> {
    if exists|i: int| 0 <= i < entries.len() && entries[i].0 == key {
        Some(choose|i: int| 0 <= i < entries.len() && entries[i].0 == key)
    } else {
        None
    }
}

/// The entry cached under `key`, if any.
pub open spec fn cached_entry(entries: Seq<(GlyphKey, AtlasEntry)>, key: GlyphKey) -> Option<AtlasEntry> {
    match cached_at(entries, key) {
        Some(i) => Some(entries[i].1),
        None => None,
    }
}

/// A glyph cached under a new key is found under that key, and every other
/// key finds what it found before.
pub proof fn inserted_glyphs_are_found(
    before: GlyphCache,
    after: GlyphCache,
    key: GlyphKey,
    placed: AtlasEntry,
    other: GlyphKey,
)
    requires
        before.wf(),
        cached_at(before.entries@, key) is None,
        after.entries@ == before.entries@.push((key, placed)),
    ensures
        cached_entry(after.entries@, key) == Some(placed),
        other != key ==> cached_entry(after.entries@, other) == cached_entry(before.entries@, other),
{
    let old_entries = before.entries@;
    let entries = after.entries@;
    let n = old_entries.len() as int;
    assert(entries[n].0 == key);
    let c = choose|i: int| 0 <= i < entries.len() && entries[i].0 == key;
    if c < n {
        assert(old_entries[c].0 == key);
    }
    if other != key {
        if exists|i: int| 0 <= i < entries.len() && entries[i].0 == other {
            let a = choose|i: int| 0 <= i < entries.len() && entries[i].0 == other;
            assert(old_entries[a] == entries[a]);
            let b = choose|i: int| 0 <= i < old_entries.len() && old_entries[i].0 == other;
            if a != b {
                if a < b {
                    assert(old_entries[a].0 != old_entries[b].0);
                } else {
                    assert(old_entries[b].0 != old_entries[a].0);
                }
            }
        } else {
            assert forall|i: int| 0 <= i < old_entries.len() implies old_entries[i].0 != other by {
                assert(entries[i] == old_entries[i]);
            }
        }
    }
}

impl GlyphCache {
    /// The cache keeps its entries apart: keys are distinct, every padded box
    /// lies inside the atlas and in the part the cursor has passed, and no
    /// two padded boxes share a texel.
    pub open spec fn wf(&self) -> bool {
        let entries = self.entries@;
        &&& cursor_wf(self.cursor, self.atlas_size)
        &&& forall|i: int, j: int| 0 <= i < j < entries.len() ==> #[trigger] entries[i].0 != #[trigger] entries[j].0
        &&& forall|i: int|
            0 <= i < entries.len() ==> inside_atlas(#[trigger] entries[i].1, self.atlas_size) && passed(
                self.cursor,
                entry_box(entries[i].1),
            )
        &&& forall|i: int, j: int|
            0 <= i < j < entries.len() ==> disjoint(entry_box(#[trigger] entries[i].1), entry_box(#[trigger] entries[j].1))
    }

    /// An empty atlas of `atlas_size` texels square.
    pub fn new(atlas_size: u32) -> (cache: Self)
        ensures
            cache.wf(),
            cache.atlas_size == atlas_size,
            cache.entries@ == Seq::<(GlyphKey, AtlasEntry)>::empty(),
            cache.cursor == (AtlasCursor { x: 0, y: 0, row_height: 0 }),
    {
        GlyphCache { atlas_size, entries: Vec::new(), cursor: AtlasCursor { x: 0, y: 0, row_height: 0 } }
    }

    /// The entry cached under `key`.
    pub fn get(&self, key: GlyphKey) -> (entry: Option<AtlasEntry>)
        requires
            self.wf(),
        ensures
            entry == cached_entry(self.entries@, key),
    {
        let mut i: usize = 0;
        while i < self.entries.len()
            invariant
                0 <= i <= self.entries@.len(),
                self.wf(),
                forall|k: int| 0 <= k < i ==> self.entries@[k].0 != key,
            decreases self.entries@.len() - i,
        {
            let (found, entry) = self.entries[i];
            if found.0 == key.0 && found.1 == key.1 && found.2 == key.2 {
                proof {
                    let c = choose|c: int| 0 <= c < self.entries@.len() && self.entries@[c].0 == key;
                    if c != i as int {
                        if c < i {
                            assert(self.entries@[c].0 != key);
                        } else {
                            assert(self.entries@[i as int].0 != self.entries@[c].0);
                        }
                    }
                }
                return Some(entry);
            }
            i += 1;
        }
        None
    }

    /// The atlas entry of the glyph under `key`, caching it when it is new:
    /// a cached key gives its entry and changes nothing; a new glyph of
    /// `width` by `height` texels with an empty image caches nothing;
    /// otherwise it is placed at the cursor (see `placement`) and cached,
    /// and the caller writes its pixels at the entry's position; `None`,
    /// with nothing changed, when no row has room.
    pub fn insert(&mut self, key: GlyphKey, width: u32, height: u32, bearing: [i32; 2]) -> (entry: Option<AtlasEntry>)
        requires
            old(self).wf(),
            old(self).cursor.x + width + 2 * ATLAS_PADDING <= u32::MAX,
        ensures
            final(self).atlas_size == old(self).atlas_size,
            match cached_entry(old(self).entries@, key) {
                Some(found) => entry == Some(found) && final(self).entries == old(self).entries
                    && final(self).cursor == old(self).cursor,
                None => match (if width == 0 || height == 0 { None } else { placement(old(self).cursor, width, height, old(self).atlas_size) }) {
                    None => entry is None && final(self).entries == old(self).entries && final(self).cursor == old(self).cursor,
                    Some((origin, next)) => {
                        let placed = AtlasEntry { pos: origin, size: [width, height], bearing };
                        &&& entry == Some(placed)
                        &&& final(self).entries@ == old(self).entries@.push((key, placed))
                        &&& final(self).cursor == next
                    },
                },
            },
            width + 2 * ATLAS_PADDING <= old(self).atlas_size ==> final(self).wf(),
    {
        let cached = self.get(key);
        if cached.is_some() {
            return cached;
        }
        if width == 0 || height == 0 {
            return None;
        }
        let placed = place_glyph(self.cursor, width, height, self.atlas_size);
        match placed {
            None => None,
            Some((origin, next)) => {
                let entry = AtlasEntry { pos: origin, size: [width, height], bearing };
                let ghost before = *old(self);
                self.entries.push((key, entry));
                self.cursor = next;
                proof {
                    if width + 2 * ATLAS_PADDING <= before.atlas_size {
                        let entries = self.entries@;
                        let n = before.entries@.len() as int;
                        assert forall|i: int| 0 <= i < n implies disjoint(entry_box(entries[i].1), entry_box(entry))
                            && passed(next, entry_box(entries[i].1)) by {
                            assert(entries[i] == before.entries@[i]);
                            placed_glyphs_do_not_overlap(before.cursor, width, height, before.atlas_size, entry_box(entries[i].1));
                        }
                        placed_glyphs_do_not_overlap(
                            before.cursor,
                            width,
                            height,
                            before.atlas_size,
                            TexelRect { x0: 0, y0: 0, x1: 0, y1: 0 },
                        );
                        assert forall|i: int, j: int| 0 <= i < j < entries.len() implies #[trigger] entries[i].0
                            != #[trigger] entries[j].0 by {
                            if j == n {
                                assert(entries[i] == before.entries@[i]);
                                assert(!(exists|k: int| 0 <= k < n && before.entries@[k].0 == key));
                            } else {
                                assert(entries[i] == before.entries@[i] && entries[j] == before.entries@[j]);
                            }
                        }
                        assert forall|i: int| 0 <= i < entries.len() implies inside_atlas(#[trigger] entries[i].1, self.atlas_size)
                            && passed(self.cursor, entry_box(entries[i].1)) by {
                            if i < n {
                                assert(entries[i] == before.entries@[i]);
                            }
                        }
                        assert forall|i: int, j: int| 0 <= i < j < entries.len() implies disjoint(
                            entry_box(#[trigger] entries[i].1),
                            entry_box(#[trigger] entries[j].1),
                        ) by {
                            assert(entries[i] == before.entries@[i]);
                            if j < n {
                                assert(entries[j] == before.entries@[j]);
                            }
                        }
                    }
                }
                Some(entry)
            },
        }
    }
}

} // verus!
