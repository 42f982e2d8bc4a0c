use vstd::prelude::*;
use crate::art::ArtState;
use crate::playback::{first_position, lemma_first_position};

verus! {

/// How many album images the texture atlas holds.
pub const MAX_TEXTURE_IMAGES: u32 = 32;

/// Whether bit `i` of `word` is set.
pub open spec fn bit_set(word: u32, i: u32) -> bool {
    (word >> i) & 1u32 == 1u32
}

/// The lowest slot whose bit in `used` is clear, if any.
pub open spec fn first_free(used: u32) -> Option<u32> {
    if exists|i: u32| i < 32 && !bit_set(used, i) {
        Some(choose|i: u32| i < 32 && !bit_set(used, i) && forall|k: u32| k < i ==> bit_set(used, k))
    } else {
        None
    }
}

/// Whether a slot holds the image with `key`.
pub open spec fn holds(key: u64) -> spec_fn(Option<u64>) -> bool {
    |slot: Option<u64>| slot == Some(key)
}

/// Where the image with `key` goes in an atlas with `slots` and `used`
/// layers: the layers and used set afterwards, the layer, and whether its
/// pixels must be uploaded. A layer that holds the image already is reused;
/// else the lowest layer the frame does not use yet takes it; with every
/// layer in use the image gets none (-1).
pub open spec fn placement(slots: Seq<Option<u64>>, used: u32, key: u64) -> (Seq<Option<u64>>, u32, i32, bool) {
    match first_position(slots, holds(key)) {
        Some(i) => (slots, used | (1u32 << (i as u32)), i as i32, false),
        None => match first_free(used) {
            Some(i) => (slots.update(i as int, Some(key)), used | (1u32 << i), i as i32, true),
            None => (slots, used, -1i32, false),
        },
    }
}

/// Within a frame an image keeps its layer: once placed, the layer holds
/// the image and counts as used, and asking again for the same image gives
/// the same layer with nothing to upload.
pub proof fn placed_image_keeps_its_layer(slots: Seq<Option<u64>>, used: u32, key: u64)
    requires
        slots.len() == MAX_TEXTURE_IMAGES,
    ensures
        ({
            let (after_slots, after_used, index, _) = placement(slots, used, key);
            index >= 0 ==> {
                &&& index < MAX_TEXTURE_IMAGES
                &&& after_slots[index as int] == Some(key)
                &&& bit_set(after_used, index as u32)
                &&& placement(after_slots, after_used, key) == (after_slots, after_used | (1u32 << (index as u32)), index, false)
                &&& after_used | (1u32 << (index as u32)) == after_used
            }
        }),
{
    let (after_slots, after_used, index, _) = placement(slots, used, key);
    match first_position(slots, holds(key)) {
        Some(i) => {
            let c = choose|j: int| 0 <= j < slots.len() && holds(key)(slots[j]) && forall|k: int| 0 <= k < j ==> !holds(key)(#[trigger] slots[k]);
            let w = choose|j: int| 0 <= j < slots.len() && holds(key)(#[trigger] slots[j]);
            crate::playback::lemma_first_exists(slots, holds(key), w);
            assert(0 <= c < 32);
            lemma_set_bit(used, c as u32);
            lemma_bit_idempotent(after_used, c as u32);
        },
        None => {
            if let Some(i) = first_free(used) {
                let w = choose|j: u32| j < 32 && !bit_set(used, j);
                lemma_first_free_exists(used, w);
                let c = choose|j: u32| j < 32 && !bit_set(used, j) && forall|k: u32| k < j ==> bit_set(used, k);
                lemma_set_bit(used, c);
                lemma_bit_idempotent(after_used, c);
                assert forall|k: int| 0 <= k < c implies !holds(key)(#[trigger] after_slots[k]) by {
                    assert(after_slots[k] == slots[k]);
                    if holds(key)(slots[k]) {
                        assert(exists|j: int| 0 <= j < slots.len() && holds(key)(#[trigger] slots[j]));
                    }
                }
                lemma_first_position(after_slots, holds(key), c as int);
            }
        },
    }
}

/// Where some slot is free, a lowest free slot exists.
proof fn lemma_first_free_exists(used: u32, i: u32)
    requires
        i < 32,
        !bit_set(used, i),
    ensures
        exists|j: u32| j < 32 && !bit_set(used, j) && forall|k: u32| k < j ==> bit_set(used, k),
    decreases i,
{
    if exists|k: u32| k < i && !bit_set(used, k) {
        let k = choose|k: u32| k < i && !bit_set(used, k);
        lemma_first_free_exists(used, k);
    } else {
        assert(forall|k: u32| k < i ==> bit_set(used, k));
    }
}

/// Setting a bit that is set changes nothing.
proof fn lemma_bit_idempotent(word: u32, i: u32)
    requires
        i < 32,
        bit_set(word, i),
    ensures
        word | (1u32 << i) == word,
{
    assert(((word >> i) & 1u32 == 1u32) ==> word | (1u32 << i) == word) by (bit_vector)
        requires
            i < 32,
    ;
}

/// The album images on the GPU: the image each texture layer holds, by key,
/// and which layers the frame being drawn uses.
pub struct ImageAtlas {
    pub slots: Vec<Option<u64>>,
    pub used: u32,
}

proof fn lemma_set_bit(used: u32, i: u32)
    requires
        i < 32,
    ensures
        bit_set(used | (1u32 << i), i),
        forall|k: u32| k < 32 && k != i ==> bit_set(used | (1u32 << i), k) == bit_set(used, k),
{
    assert(((used | (1u32 << i)) >> i) & 1u32 == 1u32) by (bit_vector)
        requires
            i < 32,
    ;
    assert forall|k: u32| k < 32 && k != i implies bit_set(used | (1u32 << i), k) == bit_set(used, k) by {
        assert((((used | (1u32 << i)) >> k) & 1u32 == 1u32) == (((used >> k) & 1u32) == 1u32)) by (bit_vector)
            requires
                i < 32,
                k < 32,
                k != i,
        ;
    }
}

impl ImageAtlas {
    /// The atlas has one slot per texture layer.
    pub open spec fn wf(&self) -> bool {
        self.slots@.len() == MAX_TEXTURE_IMAGES
    }

    /// An empty atlas.
    pub fn new() -> (atlas: Self)
        ensures
            atlas.wf(),
            atlas.used == 0,
            forall|i: int| 0 <= i < MAX_TEXTURE_IMAGES ==> #[trigger] atlas.slots@[i] is None,
    {
        let mut slots: Vec<Option<u64>> = Vec::new();
        let mut i: u32 = 0;
        while i < MAX_TEXTURE_IMAGES
            invariant
                0 <= i <= MAX_TEXTURE_IMAGES,
                slots@.len() == i,
                forall|k: int| 0 <= k < i ==> #[trigger] slots@[k] is None,
            decreases MAX_TEXTURE_IMAGES - i,
        {
            slots.push(None);
            i += 1;
        }
        ImageAtlas { slots, used: 0 }
    }

    /// Starts a frame: no layer is in use yet.
    pub fn begin_frame(&mut self)
        ensures
            final(self).used == 0,
            final(self).slots == old(self).slots,
    {
        self.used = 0;
    }

    /// The texture layer of the image with `key` for this frame, and whether
    /// its pixels must be uploaded: the layer that already holds it, else the
    /// lowest layer that this frame does not use yet (which now holds it), or
    /// -1 when every layer is in use. The layer counts as used.
    pub fn image_index(&mut self, key: u64) -> (placed: (i32, bool))
        requires
            old(self).wf(),
        ensures
            final(self).wf(),
            ({
                let (slots, used, index, upload) = placement(old(self).slots@, old(self).used, key);
                &&& final(self).slots@ == slots
                &&& final(self).used == used
                &&& placed == (index, upload)
            }),
    {
        let mut i: usize = 0;
        while i < self.slots.len()
            invariant
                0 <= i <= self.slots@.len(),
                self.slots@.len() == MAX_TEXTURE_IMAGES,
                *self == *old(self),
                forall|k: int| 0 <= k < i ==> !holds(key)(#[trigger] self.slots@[k]),
            decreases self.slots@.len() - i,
        {
            let found = match self.slots[i] {
                Some(k) => k == key,
                None => false,
            };
            if found {
                proof {
                    lemma_first_position(self.slots@, holds(key), i as int);
                }
                self.used = self.used | (1u32 << (i as u32));
                return (i as i32, false);
            }
            i += 1;
        }
        assert(!(exists|k: int| 0 <= k < self.slots@.len() && holds(key)(#[trigger] self.slots@[k])));
        let mut index: u32 = 0;
        while index < MAX_TEXTURE_IMAGES && (self.used >> index) & 1 == 1
            invariant
                0 <= index <= MAX_TEXTURE_IMAGES,
                *self == *old(self),
                self.slots@.len() == MAX_TEXTURE_IMAGES,
                forall|k: u32| k < index ==> bit_set(self.used, k),
            decreases MAX_TEXTURE_IMAGES - index,
        {
            index += 1;
        }
        if index >= MAX_TEXTURE_IMAGES {
            assert(!(exists|k: u32| k < 32 && !bit_set(self.used, k)));
            return (-1, false);
        }
        proof {
            assert(!bit_set(self.used, index));
            assert(index < 32 && !bit_set(self.used, index) && forall|k: u32| k < index ==> bit_set(self.used, k));
            let c = choose|c: u32| c < 32 && !bit_set(self.used, c) && forall|k: u32| k < c ==> bit_set(self.used, k);
            if c < index {
                assert(bit_set(self.used, c));
            } else if c > index {
                assert(bit_set(self.used, index));
            }
        }
        self.used = self.used | (1u32 << index);
        self.slots.set(index as usize, Some(key));
        (index as i32, true)
    }

    /// The texture layer for an album's art state: -1 unless the art is
    /// ready, else as `image_index` places its image.
    pub fn art_index(&mut self, art: &ArtState) -> (placed: (i32, bool))
        requires
            old(self).wf(),
        ensures
            final(self).wf(),
            match art {
                ArtState::Ready(a) => {
                    let (slots, used, index, upload) = placement(old(self).slots@, old(self).used, a.key);
                    &&& final(self).slots@ == slots
                    &&& final(self).used == used
                    &&& placed == (index, upload)
                },
                _ => placed == (-1i32, false) && final(self).slots@ == old(self).slots@ && final(self).used == old(self).used,
            },
    {
        match art {
            ArtState::Ready(a) => self.image_index(a.key),
            _ => (-1, false),
        }
    }
}

} // verus!
