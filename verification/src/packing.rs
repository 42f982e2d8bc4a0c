use vstd::prelude::*;

verus! {

/// The low 16-bit half of a packed word.
pub open spec fn low_half(word: u32) -> u32 {
    word & 0xffff
}

/// The high 16-bit half of a packed word.
pub open spec fn high_half(word: u32) -> u32 {
    word >> 16
}

/// Packs two values into one word: the first in the low half, the second
/// shifted into the high half.
pub fn pack_u16x2(value: [u32; 2]) -> (packed: u32)
    ensures
        packed == value[0] | (value[1] << 16u32),
        value[0] < 0x1_0000 && value[1] < 0x1_0000 ==> {
            &&& packed == value[0] + value[1] * 0x1_0000
            &&& low_half(packed) == value[0]
            &&& high_half(packed) == value[1]
        },
{
    let low = value[0];
    let high = value[1];
    let packed = low | high << 16u32;
    assert(low < 0x1_0000 && high < 0x1_0000 ==> packed == low + high * 0x1_0000) by (bit_vector)
        requires
            packed == low | high << 16u32,
    ;
    assert(low < 0x1_0000 && high < 0x1_0000 ==> (packed & 0xffff == low && packed >> 16 == high))
        by (bit_vector)
        requires
            packed == low | high << 16u32,
    ;
    packed
}

/// Splits a packed word into its `[low, high]` 16-bit halves.
pub fn unpack_u16x2(value: u32) -> (halves: [u32; 2])
    ensures
        halves[0] == low_half(value),
        halves[1] == high_half(value),
        halves[0] < 0x1_0000,
        halves[1] < 0x1_0000,
{
    let low = value & 0xffff;
    let high = value >> 16u32;
    assert(low < 0x1_0000 && high < 0x1_0000) by (bit_vector)
        requires
            low == value & 0xffff,
            high == value >> 16u32,
    ;
    [low, high]
}

/// Packing two 16-bit values and unpacking the word gives them back.
pub proof fn lemma_pack_unpack_u16x2(low: u32, high: u32)
    requires
        low < 0x1_0000,
        high < 0x1_0000,
    ensures
        low_half(low | (high << 16u32)) == low,
        high_half(low | (high << 16u32)) == high,
{
    assert((low | (high << 16u32)) & 0xffff == low && (low | (high << 16u32)) >> 16u32 == high)
        by (bit_vector)
        requires
            low < 0x1_0000,
            high < 0x1_0000,
    ;
}

} // verus!

verus! {

/// The mask of the low `width` bits.
pub open spec fn field_mask(width: u32) -> u32 {
    ((1u32 << width) - 1u32) as u32
}

/// The `width`-bit field of `word` that starts at bit `offset`.
pub open spec fn field_of(word: u32, offset: u32, width: u32) -> u32 {
    (word >> offset) & field_mask(width)
}

/// `word` with its `width`-bit field at `offset` replaced by `value`.
pub open spec fn with_field(word: u32, offset: u32, width: u32, value: u32) -> u32 {
    (word & !(field_mask(width) << offset)) | (value << offset)
}

/// Whether a field of `width` bits at `offset` lies inside a word.
pub open spec fn field_fits(offset: u32, width: u32) -> bool {
    0 < width && width < 32 && offset + width <= 32
}

/// Reading a field after writing it gives the written value, and leaves every
/// field that does not overlap it as it was.
pub proof fn lemma_field_write_read(
    word: u32,
    offset: u32,
    width: u32,
    value: u32,
    other_offset: u32,
    other_width: u32,
)
    requires
        field_fits(offset, width),
        field_fits(other_offset, other_width),
        value <= field_mask(width),
    ensures
        field_of(with_field(word, offset, width, value), offset, width) == value,
        other_offset + other_width <= offset || offset + width <= other_offset ==>
            field_of(with_field(word, offset, width, value), other_offset, other_width)
                == field_of(word, other_offset, other_width),
{
    assert(((((word & !((((1u32 << width) - 1u32) as u32) << offset)) | (value << offset)) >> offset)
        & (((1u32 << width) - 1u32) as u32)) == value) by (bit_vector)
        requires
            0 < width && width < 32 && offset + width <= 32,
            value <= (((1u32 << width) - 1u32) as u32),
    ;
    assert(other_offset + other_width <= offset || offset + width <= other_offset ==>
        ((((word & !((((1u32 << width) - 1u32) as u32) << offset)) | (value << offset)) >> other_offset)
        & (((1u32 << other_width) - 1u32) as u32))
        == ((word >> other_offset) & (((1u32 << other_width) - 1u32) as u32))) by (bit_vector)
        requires
            0 < width && width < 32 && offset + width <= 32,
            0 < other_width && other_width < 32 && other_offset + other_width <= 32,
            value <= (((1u32 << width) - 1u32) as u32),
    ;
}

fn read_field(word: u32, offset: u32, width: u32) -> (value: u32)
    requires
        field_fits(offset, width),
    ensures
        value == field_of(word, offset, width),
        value <= field_mask(width),
{
    assert(1u32 << width >= 1) by (bit_vector)
        requires
            width < 32,
    ;
    let value = (word >> offset) & ((1u32 << width) - 1);
    assert(((word >> offset) & (((1u32 << width) - 1u32) as u32)) <= (((1u32 << width) - 1u32) as u32))
        by (bit_vector);
    value
}

fn write_field(word: u32, offset: u32, width: u32, value: u32) -> (updated: u32)
    requires
        field_fits(offset, width),
        value <= field_mask(width),
    ensures
        updated == with_field(word, offset, width, value),
{
    assert(1u32 << width >= 1) by (bit_vector)
        requires
            width < 32,
    ;
    let mask = (1u32 << width) - 1;
    (word & !(mask << offset)) | (value << offset)
}

} // verus!

verus! {

/// The masks of the field widths that packed words use.
pub proof fn lemma_field_masks()
    ensures
        field_mask(1) == 1,
        field_mask(4) == 15,
        field_mask(7) == 127,
        field_mask(8) == 255,
{
    assert(((1u32 << 1u32) - 1u32) as u32 == 1u32 && ((1u32 << 4u32) - 1u32) as u32 == 15u32
        && ((1u32 << 7u32) - 1u32) as u32 == 127u32 && ((1u32 << 8u32) - 1u32) as u32 == 255u32)
        by (bit_vector);
}

/// Bit offset of the fog level in a packed weather condition.
pub const FOG_OFFSET: u32 = 0;
/// Width of the fog level.
pub const FOG_WIDTH: u32 = 4;
/// Bit offset of the cloud level.
pub const CLOUD_OFFSET: u32 = 4;
/// Width of the cloud level.
pub const CLOUD_WIDTH: u32 = 7;
/// Bit offset of the rain level.
pub const RAIN_OFFSET: u32 = 11;
/// Width of the rain level.
pub const RAIN_WIDTH: u32 = 8;
/// Bit offset of the snow level.
pub const SNOW_OFFSET: u32 = 19;
/// Width of the snow level.
pub const SNOW_WIDTH: u32 = 8;
/// Bit of the lightning flag.
pub const LIGHTNING_OFFSET: u32 = 27;
/// Bit offset of the hail level.
pub const HAIL_OFFSET: u32 = 28;
/// Width of the hail level.
pub const HAIL_WIDTH: u32 = 4;

/// Cloud, rain, snow, lightning and hail conditions packed into one word:
/// fog in bits 0..4, cloud in 4..11, rain in 11..19, snow in 19..27, the
/// lightning flag in bit 27 and hail in 28..32.
#[derive(Clone, Copy)]
pub struct WeatherCondition {
    pub bits: u32,
}

impl WeatherCondition {
    pub fn from_bits(bits: u32) -> (condition: Self)
        ensures
            condition.bits == bits,
    {
        WeatherCondition { bits }
    }

    pub fn into_bits(self) -> (bits: u32)
        ensures
            bits == self.bits,
    {
        self.bits
    }

    pub fn fog_raw(&self) -> (level: u32)
        ensures
            level == field_of(self.bits, FOG_OFFSET, FOG_WIDTH),
            level <= 15,
    {
        proof {
            lemma_field_masks();
        }
        read_field(self.bits, FOG_OFFSET, FOG_WIDTH)
    }

    pub fn cloud_raw(&self) -> (level: u32)
        ensures
            level == field_of(self.bits, CLOUD_OFFSET, CLOUD_WIDTH),
            level <= 127,
    {
        proof {
            lemma_field_masks();
        }
        read_field(self.bits, CLOUD_OFFSET, CLOUD_WIDTH)
    }

    pub fn rain_raw(&self) -> (level: u32)
        ensures
            level == field_of(self.bits, RAIN_OFFSET, RAIN_WIDTH),
            level <= 255,
    {
        proof {
            lemma_field_masks();
        }
        read_field(self.bits, RAIN_OFFSET, RAIN_WIDTH)
    }

    pub fn snow_raw(&self) -> (level: u32)
        ensures
            level == field_of(self.bits, SNOW_OFFSET, SNOW_WIDTH),
            level <= 255,
    {
        proof {
            lemma_field_masks();
        }
        read_field(self.bits, SNOW_OFFSET, SNOW_WIDTH)
    }

    pub fn lightning(&self) -> (flag: bool)
        ensures
            flag == (field_of(self.bits, LIGHTNING_OFFSET, 1) == 1),
    {
        proof {
            lemma_field_masks();
        }
        read_field(self.bits, LIGHTNING_OFFSET, 1) == 1
    }

    pub fn hail_raw(&self) -> (level: u32)
        ensures
            level == field_of(self.bits, HAIL_OFFSET, HAIL_WIDTH),
            level <= 15,
    {
        proof {
            lemma_field_masks();
        }
        read_field(self.bits, HAIL_OFFSET, HAIL_WIDTH)
    }

    pub fn set_fog_raw(&mut self, level: u32)
        requires
            level <= 15,
        ensures
            final(self).bits == with_field(old(self).bits, FOG_OFFSET, FOG_WIDTH, level),
    {
        proof {
            lemma_field_masks();
        }
        self.bits = write_field(self.bits, FOG_OFFSET, FOG_WIDTH, level);
    }

    pub fn set_cloud_raw(&mut self, level: u32)
        requires
            level <= 127,
        ensures
            final(self).bits == with_field(old(self).bits, CLOUD_OFFSET, CLOUD_WIDTH, level),
    {
        proof {
            lemma_field_masks();
        }
        self.bits = write_field(self.bits, CLOUD_OFFSET, CLOUD_WIDTH, level);
    }

    pub fn set_rain_raw(&mut self, level: u32)
        requires
            level <= 255,
        ensures
            final(self).bits == with_field(old(self).bits, RAIN_OFFSET, RAIN_WIDTH, level),
    {
        proof {
            lemma_field_masks();
        }
        self.bits = write_field(self.bits, RAIN_OFFSET, RAIN_WIDTH, level);
    }

    pub fn set_snow_raw(&mut self, level: u32)
        requires
            level <= 255,
        ensures
            final(self).bits == with_field(old(self).bits, SNOW_OFFSET, SNOW_WIDTH, level),
    {
        proof {
            lemma_field_masks();
        }
        self.bits = write_field(self.bits, SNOW_OFFSET, SNOW_WIDTH, level);
    }

    pub fn set_lightning(&mut self, flag: bool)
        ensures
            final(self).bits == with_field(old(self).bits, LIGHTNING_OFFSET, 1, if flag { 1 } else { 0 }),
    {
        proof {
            lemma_field_masks();
        }
        self.bits = write_field(self.bits, LIGHTNING_OFFSET, 1, if flag { 1 } else { 0 });
    }

    pub fn set_hail_raw(&mut self, level: u32)
        requires
            level <= 15,
        ensures
            final(self).bits == with_field(old(self).bits, HAIL_OFFSET, HAIL_WIDTH, level),
    {
        proof {
            lemma_field_masks();
        }
        self.bits = write_field(self.bits, HAIL_OFFSET, HAIL_WIDTH, level);
    }
}

/// The six fields of a packed weather condition: `[fog, cloud, rain, snow,
/// lightning, hail]`.
pub open spec fn condition_fields(bits: u32) -> Seq<u32> {
    seq![
        field_of(bits, FOG_OFFSET, FOG_WIDTH),
        field_of(bits, CLOUD_OFFSET, CLOUD_WIDTH),
        field_of(bits, RAIN_OFFSET, RAIN_WIDTH),
        field_of(bits, SNOW_OFFSET, SNOW_WIDTH),
        field_of(bits, LIGHTNING_OFFSET, 1),
        field_of(bits, HAIL_OFFSET, HAIL_WIDTH),
    ]
}

/// The packed word whose six fields hold the given levels.
pub open spec fn packed_condition(fields: Seq<u32>) -> u32 {
    fields[0] | (fields[1] << CLOUD_OFFSET) | (fields[2] << RAIN_OFFSET) | (fields[3] << SNOW_OFFSET)
        | (fields[4] << LIGHTNING_OFFSET) | (fields[5] << HAIL_OFFSET)
}

/// The six fields tile the whole word: a word is determined by its fields,
/// and packing the fields of a word gives the word back.
pub proof fn lemma_condition_fields_roundtrip(bits: u32)
    ensures
        packed_condition(condition_fields(bits)) == bits,
{
    lemma_field_masks();
    assert(((bits >> 0u32) & 15u32) | (((bits >> 4u32) & 127u32) << 4u32) | (((bits >> 11u32) & 255u32)
        << 11u32) | (((bits >> 19u32) & 255u32) << 19u32) | (((bits >> 27u32) & 1u32) << 27u32) | (((bits
        >> 28u32) & 15u32) << 28u32) == bits) by (bit_vector);
}

} // verus!

verus! {

/// Number of samples in a usage history.
pub const STATUS_HISTORY_SAMPLES: usize = 40;
/// Number of words that hold a usage history: four 8-bit samples per word.
pub const STATUS_HISTORY_PACKS: usize = 10;

/// The `index`-th 8-bit sample of a history packed four to a word, the
/// lowest byte first.
pub open spec fn history_sample(samples: Seq<u32>, index: int) -> u32 {
    field_of(samples[index / 4], (8 * (index % 4)) as u32, 8)
}

/// A rolling history of 40 levels from 0 to 255, oldest first, packed four to
/// a word so the shader reads them directly.
#[derive(Clone, Copy)]
pub struct UsageHistory {
    samples: [u32; STATUS_HISTORY_PACKS],
}

impl View for UsageHistory {
    type V = Seq<u32>;

    /// The 40 levels, oldest first.
    closed spec fn view(&self) -> Seq<u32> {
        Seq::new(STATUS_HISTORY_SAMPLES as nat, |i: int| history_sample(self.samples@, i))
    }
}

proof fn lemma_byte_fields_shift(word: u32, next: u32, level: u32)
    requires
        level <= 255,
    ensures
        ({
            let shifted = (word >> 8u32) | ((next & 255u32) << 24u32);
            &&& field_of(shifted, 0, 8) == field_of(word, 8, 8)
            &&& field_of(shifted, 8, 8) == field_of(word, 16, 8)
            &&& field_of(shifted, 16, 8) == field_of(word, 24, 8)
            &&& field_of(shifted, 24, 8) == field_of(next, 0, 8)
        }),
        field_of(word >> 8u32, 24, 8) == 0,
        ((word >> 8u32) | ((0u32 & 255u32) << 24u32)) | (level << 24u32) == (word >> 8u32) | (level
            << 24u32),
        ({
            let topped = (word >> 8u32) | (level << 24u32);
            &&& field_of(topped, 0, 8) == field_of(word, 8, 8)
            &&& field_of(topped, 8, 8) == field_of(word, 16, 8)
            &&& field_of(topped, 16, 8) == field_of(word, 24, 8)
            &&& field_of(topped, 24, 8) == level
        }),
{
    lemma_field_masks();
    assert({
        let shifted = (word >> 8u32) | ((next & 255u32) << 24u32);
        &&& (shifted >> 0u32) & 255u32 == (word >> 8u32) & 255u32
        &&& (shifted >> 8u32) & 255u32 == (word >> 16u32) & 255u32
        &&& (shifted >> 16u32) & 255u32 == (word >> 24u32) & 255u32
        &&& (shifted >> 24u32) & 255u32 == (next >> 0u32) & 255u32
        &&& ((word >> 8u32) >> 24u32) & 255u32 == 0u32
    }) by (bit_vector);
    assert(((word >> 8u32) | ((0u32 & 255u32) << 24u32)) | (level << 24u32) == (word >> 8u32) | (level
        << 24u32)) by (bit_vector);
    assert(level <= 255u32 ==> {
        let topped = (word >> 8u32) | (level << 24u32);
        &&& (topped >> 0u32) & 255u32 == (word >> 8u32) & 255u32
        &&& (topped >> 8u32) & 255u32 == (word >> 16u32) & 255u32
        &&& (topped >> 16u32) & 255u32 == (word >> 24u32) & 255u32
        &&& (topped >> 24u32) & 255u32 == level
    }) by (bit_vector);
}

/// A history always holds 40 samples; after a level is pushed it is the
/// newest sample, and every other sample moved one place towards the oldest.
pub proof fn history_push_shifts(before: UsageHistory, after: UsageHistory, level: u8)
    requires
        after@ == before@.drop_first().push(level as u32),
    ensures
        before@.len() == STATUS_HISTORY_SAMPLES,
        after@.len() == STATUS_HISTORY_SAMPLES,
        after@[STATUS_HISTORY_SAMPLES - 1] == level,
        forall|i: int| 0 <= i < STATUS_HISTORY_SAMPLES - 1 ==> #[trigger] after@[i] == before@[i + 1],
{
}

impl UsageHistory {
    /// An empty history: every level is zero.
    pub fn new() -> (history: Self)
        ensures
            history@ == Seq::new(STATUS_HISTORY_SAMPLES as nat, |i: int| 0u32),
    {
        let history = UsageHistory { samples: [0u32; STATUS_HISTORY_PACKS] };
        assert forall|i: int| 0 <= i < STATUS_HISTORY_SAMPLES implies #[trigger] history@[i] == 0u32 by {
            assert(history.samples@[i / 4] == 0u32);
            assert(((0u32 >> ((8 * (i % 4)) as u32)) & field_mask(8)) == 0u32) by {
                let shift = (8 * (i % 4)) as u32;
                assert((0u32 >> shift) & field_mask(8) == 0u32) by (bit_vector);
            }
        }
        history
    }

    /// The level at `index`, oldest first.
    pub fn get(&self, index: usize) -> (level: u32)
        requires
            index < STATUS_HISTORY_SAMPLES,
        ensures
            level == self@[index as int],
            level <= 255,
    {
        proof {
            lemma_field_masks();
        }
        let shift = ((index % 4) * 8) as u32;
        read_field(self.samples[index / 4], shift, 8)
    }

    /// Appends the newest level, dropping the oldest.
    pub fn push(&mut self, level: u8)
        ensures
            final(self)@.len() == STATUS_HISTORY_SAMPLES,
            final(self)@ == old(self)@.drop_first().push(level as u32),
    {
        let ghost before = self@;
        let ghost words = self.samples@;
        let mut index: usize = 0;
        while index < STATUS_HISTORY_PACKS
            invariant
                0 <= index <= STATUS_HISTORY_PACKS,
                words.len() == STATUS_HISTORY_PACKS,
                before == Seq::new(STATUS_HISTORY_SAMPLES as nat, |i: int| history_sample(words, i)),
                forall|j: int| index <= j < STATUS_HISTORY_PACKS ==> self.samples@[j] == words[j],
                forall|j: int|
                    0 <= j < index ==> #[trigger] self.samples@[j] == ((words[j] >> 8u32) | (
                    (if j + 1 < STATUS_HISTORY_PACKS { words[j + 1] } else { 0u32 }) & 255u32) << 24u32),
            decreases STATUS_HISTORY_PACKS - index,
        {
            let carry = if index + 1 < STATUS_HISTORY_PACKS {
                self.samples[index + 1] & 0xff
            } else {
                0
            };
            let word = self.samples[index];
            self.samples[index] = word >> 8 | carry << 24;
            proof {
                let next = if index + 1 < STATUS_HISTORY_PACKS { words[index + 1] } else { 0u32 };
                assert(carry == next & 255u32) by {
                    if index + 1 >= STATUS_HISTORY_PACKS {
                        assert(0u32 & 255u32 == 0u32) by (bit_vector);
                    }
                }
            }
            index += 1;
        }
        let last = self.samples[STATUS_HISTORY_PACKS - 1];
        self.samples[STATUS_HISTORY_PACKS - 1] = last | (level as u32) << 24;
        proof {
            let after = self.samples@;
            assert forall|j: int| 0 <= j < STATUS_HISTORY_PACKS - 1 implies #[trigger] after[j] == (
            words[j] >> 8u32) | ((words[j + 1] & 255u32) << 24u32) by {}
            lemma_byte_fields_shift(words[9], 0u32, level as u32);
            assert(after[9] == (words[9] >> 8u32) | ((level as u32) << 24u32));
            assert forall|i: int| 0 <= i < STATUS_HISTORY_SAMPLES implies #[trigger] self@[i]
                == before.drop_first().push(level as u32)[i] by {
                let w = i / 4;
                let k = i % 4;
                assert(self@[i] == field_of(after[w], (8 * k) as u32, 8));
                if w < 9 {
                    lemma_byte_fields_shift(words[w], words[w + 1], level as u32);
                    assert(before.drop_first().push(level as u32)[i] == before[i + 1]);
                    if k < 3 {
                        assert((i + 1) / 4 == w && (i + 1) % 4 == k + 1);
                        assert(before[i + 1] == field_of(words[w], (8 * (k + 1)) as u32, 8));
                    } else {
                        assert((i + 1) / 4 == w + 1 && (i + 1) % 4 == 0);
                        assert(before[i + 1] == field_of(words[w + 1], 0, 8));
                    }
                } else {
                    if k < 3 {
                        assert(before.drop_first().push(level as u32)[i] == before[i + 1]);
                        assert((i + 1) / 4 == w && (i + 1) % 4 == k + 1);
                        assert(before[i + 1] == field_of(words[w], (8 * (k + 1)) as u32, 8));
                    } else {
                        assert(i == 39);
                    }
                }
            }
            assert(self@ =~= before.drop_first().push(level as u32));
        }
    }
}

} // verus!

verus! {

/// The word that holds four 8-bit channels, the first in the lowest byte.
pub open spec fn channels_word(channels: Seq<u8>) -> u32 {
    (channels[0] as u32) | ((channels[1] as u32) << 8u32) | ((channels[2] as u32) << 16u32) | ((
    channels[3] as u32) << 24u32)
}

/// Four normalized 8-bit channels stored in one 32-bit word, the first
/// channel in the lowest byte.
#[derive(Clone, Copy)]
pub struct Unorm8x4 {
    pub word: u32,
}

/// Packing four channels into a word and reading them back gives the same
/// channels.
pub proof fn unorm8x4_roundtrip(channels: [u8; 4])
    ensures
        field_of(channels_word(channels@), 0, 8) == channels[0],
        field_of(channels_word(channels@), 8, 8) == channels[1],
        field_of(channels_word(channels@), 16, 8) == channels[2],
        field_of(channels_word(channels@), 24, 8) == channels[3],
{
    lemma_field_masks();
    let (r, g, b, a) = (channels[0] as u32, channels[1] as u32, channels[2] as u32, channels[3] as u32);
    assert(r <= 255 && g <= 255 && b <= 255 && a <= 255 ==> {
        let w = r | g << 8u32 | b << 16u32 | a << 24u32;
        &&& (w >> 0u32) & 255u32 == r
        &&& (w >> 8u32) & 255u32 == g
        &&& (w >> 16u32) & 255u32 == b
        &&& (w >> 24u32) & 255u32 == a
    }) by (bit_vector);
}

impl Unorm8x4 {
    /// Packs four 8-bit channel levels (0 stands for 0.0, 255 for 1.0).
    pub fn from_channels(channels: [u8; 4]) -> (color: Self)
        ensures
            color.word == channels_word(channels@),
            field_of(color.word, 0, 8) == channels[0],
            field_of(color.word, 8, 8) == channels[1],
            field_of(color.word, 16, 8) == channels[2],
            field_of(color.word, 24, 8) == channels[3],
    {
        let (r, g, b, a) = (channels[0] as u32, channels[1] as u32, channels[2] as u32, channels[3] as u32);
        let word = r | g << 8u32 | b << 16u32 | a << 24u32;
        proof {
            lemma_field_masks();
            assert(r <= 255 && g <= 255 && b <= 255 && a <= 255 ==> {
                let w = r | g << 8u32 | b << 16u32 | a << 24u32;
                &&& (w >> 0u32) & 255u32 == r
                &&& (w >> 8u32) & 255u32 == g
                &&& (w >> 16u32) & 255u32 == b
                &&& (w >> 24u32) & 255u32 == a
            }) by (bit_vector);
        }
        Unorm8x4 { word }
    }

    /// The four 8-bit channel levels, first channel first.
    pub fn channels(self) -> (channels: [u8; 4])
        ensures
            channels[0] == field_of(self.word, 0, 8),
            channels[1] == field_of(self.word, 8, 8),
            channels[2] == field_of(self.word, 16, 8),
            channels[3] == field_of(self.word, 24, 8),
            channels_word(channels@) == self.word,
    {
        proof {
            lemma_field_masks();
        }
        let r = read_field(self.word, 0, 8);
        let g = read_field(self.word, 8, 8);
        let b = read_field(self.word, 16, 8);
        let a = read_field(self.word, 24, 8);
        let channels = [r as u8, g as u8, b as u8, a as u8];
        proof {
            let w = self.word;
            assert(((w >> 0u32) & 255u32) | (((w >> 8u32) & 255u32) << 8u32) | (((w >> 16u32) & 255u32)
                << 16u32) | (((w >> 24u32) & 255u32) << 24u32) == w) by (bit_vector);
        }
        channels
    }
}

} // verus!
