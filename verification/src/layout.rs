use vstd::prelude::*;

verus! {

/// `value` rounded up to the next multiple of `alignment`.
pub open spec fn aligned(value: int, alignment: int) -> int {
    if value % alignment == 0 {
        value
    } else {
        value - value % alignment + alignment
    }
}

/// The smallest number of `divisor`-sized chunks that cover `value`.
pub open spec fn chunks(value: int, divisor: int) -> int {
    (value + divisor - 1) / divisor
}

/// Rounds `value` up to a multiple of `alignment`.
pub fn align_to(value: usize, alignment: usize) -> (result: usize)
    requires
        alignment > 0,
        aligned(value as int, alignment as int) <= usize::MAX,
    ensures
        result == aligned(value as int, alignment as int),
        result % alignment == 0,
        value <= result < value + alignment,
{
    let remainder = value % alignment;
    if remainder == 0 {
        value
    } else {
        assert(remainder <= value) by (nonlinear_arith)
            requires
                remainder == value % alignment,
                alignment > 0,
        ;
        assert(aligned(value as int, alignment as int) == value - remainder + alignment);
        let result = value - remainder + alignment;
        assert((value - remainder) % (alignment as int) == 0) by {
            vstd::arithmetic::div_mod::lemma_fundamental_div_mod(value as int, alignment as int);
            vstd::arithmetic::div_mod::lemma_mod_multiples_basic(value as int / alignment as int, alignment as int);
            vstd::arithmetic::mul::lemma_mul_is_commutative(value as int / alignment as int, alignment as int);
        }
        assert((result as int) % (alignment as int) == 0) by {
            vstd::arithmetic::div_mod::lemma_mod_adds((value - remainder) as int, alignment as int, alignment as int);
            vstd::arithmetic::div_mod::lemma_mod_self_0(alignment as int);
        }
        result
    }
}

/// The storage-buffer layout of one value: its alignment and its size in
/// bytes, as WGSL lays out storage data.
#[derive(Clone, Copy, PartialEq, Eq, Structural)]
pub struct BufferLayout {
    pub align: usize,
    pub size: usize,
}

impl BufferLayout {
    /// Alignments are positive, and the padded stride of the value fits.
    pub open spec fn wf(self) -> bool {
        &&& self.align > 0
        &&& aligned(self.size as int, self.align as int) <= usize::MAX
    }

    /// Distance between consecutive elements of an array of this value.
    pub open spec fn stride_spec(self) -> int {
        aligned(self.size as int, self.align as int)
    }

    /// Number of 32-bit words that one array element occupies.
    pub open spec fn words_spec(self) -> int {
        chunks(self.stride_spec(), 4)
    }

    /// The layout of `()`: nothing to store.
    pub fn unit() -> (layout: Self)
        ensures
            layout == (BufferLayout { align: 1, size: 0 }),
            layout.wf(),
    {
        BufferLayout { align: 1, size: 0 }
    }

    /// The layout of a 32-bit scalar (`u32`, `i32`, `f32`, a packed color).
    pub fn scalar() -> (layout: Self)
        ensures
            layout == (BufferLayout { align: 4, size: 4 }),
            layout.wf(),
    {
        BufferLayout { align: 4, size: 4 }
    }

    /// The layout of a vector of `components` 32-bit scalars: two-component
    /// vectors align to 8 bytes, three- and four-component ones to 16.
    pub fn vector(components: usize) -> (layout: Self)
        requires
            2 <= components <= 4,
        ensures
            layout.size == 4 * components,
            layout.align == if components == 2 { 8usize } else { 16usize },
            layout.wf(),
    {
        BufferLayout { align: if components == 2 { 8 } else { 16 }, size: 4 * components }
    }

    /// The padded size of one array element.
    pub fn stride(&self) -> (stride: usize)
        requires
            self.wf(),
        ensures
            stride == self.stride_spec(),
            stride % self.align == 0,
            self.size <= stride,
    {
        align_to(self.size, self.align)
    }

    /// The number of words one array element occupies.
    pub fn words(&self) -> (words: usize)
        requires
            self.wf(),
        ensures
            words == self.words_spec(),
    {
        let stride = self.stride();
        stride / 4 + if stride % 4 == 0 { 0 } else { 1 }
    }

    /// The layout of an array of `count` elements of this layout: aligned like
    /// one element, and `count` strides long.
    pub fn array(&self, count: usize) -> (layout: Self)
        requires
            self.wf(),
            count > 0,
            self.stride_spec() * count <= usize::MAX,
        ensures
            layout.align == self.align,
            layout.size == self.stride_spec() * count,
            layout.wf(),
    {
        let stride = self.stride();
        let size = stride * count;
        proof {
            vstd::arithmetic::div_mod::lemma_mod_multiples_basic(count as int, self.align as int);
            assert(stride as int == (stride as int / self.align as int) * self.align as int) by {
                vstd::arithmetic::div_mod::lemma_fundamental_div_mod(stride as int, self.align as int);
            }
            assert((stride as int) * (count as int) == ((stride as int / self.align as int) * (count as int))
                * self.align as int) by (nonlinear_arith)
                requires
                    stride as int == (stride as int / self.align as int) * self.align as int,
            ;
            vstd::arithmetic::div_mod::lemma_mod_multiples_basic(
                (stride as int / self.align as int) * (count as int),
                self.align as int,
            );
        }
        BufferLayout { align: self.align, size }
    }
}

} // verus!

verus! {

/// Whether every field layout has a positive alignment.
pub open spec fn fields_wf(fields: Seq<BufferLayout>) -> bool {
    forall|i: int| 0 <= i < fields.len() ==> #[trigger] fields[i].align > 0
}

/// The byte just past the last field when the fields are laid out in order,
/// each at the next offset its alignment allows.
pub open spec fn fields_end(fields: Seq<BufferLayout>) -> int
    decreases fields.len(),
{
    if fields.len() == 0 {
        0
    } else {
        let last = fields.last();
        aligned(fields_end(fields.drop_last()), last.align as int) + last.size
    }
}

/// The offset of field `index` from the start of the structure.
pub open spec fn field_offset(fields: Seq<BufferLayout>, index: int) -> int {
    aligned(fields_end(fields.take(index)), fields[index].align as int)
}

/// The largest field alignment, and at least one.
pub open spec fn fields_align(fields: Seq<BufferLayout>) -> int
    decreases fields.len(),
{
    if fields.len() == 0 {
        1
    } else {
        let rest = fields_align(fields.drop_last());
        if fields.last().align > rest {
            fields.last().align as int
        } else {
            rest
        }
    }
}

/// The layout of a structure with the given fields: aligned like its most
/// aligned field, and padded to a multiple of that alignment.
pub open spec fn struct_layout_spec(fields: Seq<BufferLayout>) -> BufferLayout {
    BufferLayout {
        align: fields_align(fields) as usize,
        size: aligned(fields_end(fields), fields_align(fields)) as usize,
    }
}

proof fn lemma_aligned_bounds(value: int, alignment: int)
    requires
        value >= 0,
        alignment > 0,
    ensures
        value <= aligned(value, alignment) < value + alignment,
        aligned(value, alignment) % alignment == 0,
{
    vstd::arithmetic::div_mod::lemma_fundamental_div_mod(value, alignment);
    if value % alignment != 0 {
        vstd::arithmetic::div_mod::lemma_mod_multiples_basic(value / alignment + 1, alignment);
        assert((value / alignment + 1) * alignment == alignment * (value / alignment) + alignment) by (nonlinear_arith);
    }
}

/// Laying out more fields never moves the end back.
pub proof fn lemma_fields_end_monotone(fields: Seq<BufferLayout>, count: int)
    requires
        fields_wf(fields),
        0 <= count <= fields.len(),
    ensures
        0 <= fields_end(fields.take(count)) <= fields_end(fields),
        fields_align(fields) >= 1,
    decreases fields.len(),
{
    if fields.len() > 0 {
        let rest = fields.drop_last();
        assert(fields_wf(rest));
        if count == fields.len() {
            assert(fields.take(count) =~= fields);
            lemma_fields_end_monotone(rest, 0);
        } else {
            assert(fields.take(count) =~= rest.take(count));
            lemma_fields_end_monotone(rest, count);
        }
        lemma_aligned_bounds(fields_end(rest), fields.last().align as int);
    } else {
        assert(fields.take(count) =~= fields);
    }
}

/// The largest alignment is at least each field's alignment.
pub proof fn lemma_fields_align_max(fields: Seq<BufferLayout>, index: int)
    requires
        0 <= index < fields.len(),
    ensures
        fields_align(fields) >= fields[index].align,
    decreases fields.len(),
{
    if index < fields.len() - 1 {
        lemma_fields_align_max(fields.drop_last(), index);
    }
}

/// In a structure's layout each field starts at a multiple of its alignment,
/// the fields follow one another without overlapping, and the structure's
/// size covers the last field and is a multiple of the structure's
/// alignment.
pub proof fn struct_fields_do_not_overlap(fields: Seq<BufferLayout>, i: int, j: int)
    requires
        fields_wf(fields),
        0 <= i < j < fields.len(),
    ensures
        field_offset(fields, i) % (fields[i].align as int) == 0,
        field_offset(fields, i) + fields[i].size <= field_offset(fields, j),
        field_offset(fields, j) + fields[j].size <= aligned(fields_end(fields), fields_align(fields)),
        aligned(fields_end(fields), fields_align(fields)) % fields_align(fields) == 0,
{
    let upto_i = fields.take(i + 1);
    assert(upto_i.drop_last() =~= fields.take(i));
    assert(upto_i.last() == fields[i]);
    assert(fields_wf(fields.take(i)));
    lemma_fields_end_monotone(fields.take(i), 0);
    lemma_aligned_bounds(fields_end(fields.take(i)), fields[i].align as int);
    assert(fields_end(upto_i) == field_offset(fields, i) + fields[i].size);
    let upto_j = fields.take(j);
    assert(fields_wf(upto_j));
    assert(upto_j.take(i + 1) =~= upto_i);
    lemma_fields_end_monotone(upto_j, i + 1);
    lemma_fields_end_monotone(upto_j, 0);
    lemma_aligned_bounds(fields_end(upto_j), fields[j].align as int);
    let through_j = fields.take(j + 1);
    assert(through_j.drop_last() =~= upto_j);
    assert(through_j.last() == fields[j]);
    assert(fields_end(through_j) == field_offset(fields, j) + fields[j].size);
    lemma_fields_end_monotone(fields, j + 1);
    lemma_fields_end_monotone(fields, 0);
    lemma_aligned_bounds(fields_end(fields), fields_align(fields));
}

/// Walks the fields of a structure and hands out their byte offsets.
pub struct BufferCursor {
    pub start: usize,
    pub cursor: usize,
}

impl BufferCursor {
    /// A cursor for a structure that starts at byte `start`.
    pub fn new(start: usize) -> (cursor: Self)
        ensures
            cursor.start == start,
            cursor.cursor == 0,
    {
        BufferCursor { start, cursor: 0 }
    }

    /// Places the next field and returns its byte offset.
    pub fn field(&mut self, layout: BufferLayout) -> (offset: usize)
        requires
            layout.align > 0,
            old(self).start + aligned(old(self).cursor as int, layout.align as int) + layout.size
                <= usize::MAX,
        ensures
            offset == old(self).start + aligned(old(self).cursor as int, layout.align as int),
            final(self).cursor == aligned(old(self).cursor as int, layout.align as int) + layout.size,
            final(self).start == old(self).start,
    {
        proof {
            lemma_aligned_bounds(self.cursor as int, layout.align as int);
        }
        let relative = align_to(self.cursor, layout.align);
        self.cursor = relative + layout.size;
        self.start + relative
    }

    /// The size of the structure: everything placed so far, padded to `align`.
    pub fn finish(&self, align: usize) -> (size: usize)
        requires
            align > 0,
            aligned(self.cursor as int, align as int) <= usize::MAX,
        ensures
            size == aligned(self.cursor as int, align as int),
    {
        align_to(self.cursor, align)
    }
}

/// The layout of a structure with the given fields, and the offset of each
/// field from its start.
pub fn struct_layout(fields: &Vec<BufferLayout>) -> (result: (BufferLayout, Vec<usize>))
    requires
        fields_wf(fields@),
        aligned(fields_end(fields@), fields_align(fields@)) <= usize::MAX,
    ensures
        result.0 == struct_layout_spec(fields@),
        result.0.wf(),
        result.1.len() == fields.len(),
        forall|i: int| 0 <= i < fields.len() ==> #[trigger] result.1[i] == field_offset(fields@, i),
        forall|i: int| 0 <= i < fields.len() ==> #[trigger] (result.1[i] % fields[i].align) == 0,
{
    proof {
        lemma_fields_end_monotone(fields@, fields.len() as int);
        lemma_aligned_bounds(fields_end(fields@), fields_align(fields@));
    }
    let mut cursor = BufferCursor::new(0);
    let mut align: usize = 1;
    let mut offsets: Vec<usize> = Vec::new();
    let mut index: usize = 0;
    while index < fields.len()
        invariant
            0 <= index <= fields.len(),
            fields_wf(fields@),
            aligned(fields_end(fields@), fields_align(fields@)) <= usize::MAX,
            fields_end(fields@) <= aligned(fields_end(fields@), fields_align(fields@)),
            cursor.start == 0,
            cursor.cursor == fields_end(fields@.take(index as int)),
            align == fields_align(fields@.take(index as int)),
            offsets.len() == index,
            forall|i: int| 0 <= i < index ==> #[trigger] offsets[i] == field_offset(fields@, i),
            forall|i: int| 0 <= i < index ==> #[trigger] (offsets[i] % fields[i].align) == 0,
        decreases fields.len() - index,
    {
        let field = fields[index];
        proof {
            let prefix = fields@.take(index as int + 1);
            assert(prefix.drop_last() =~= fields@.take(index as int));
            assert(prefix.last() == field);
            lemma_fields_end_monotone(fields@, index as int + 1);
            lemma_aligned_bounds(cursor.cursor as int, field.align as int);
        }
        let offset = cursor.field(field);
        offsets.push(offset);
        if field.align > align {
            align = field.align;
        }
        proof {
            let prefix = fields@.take(index as int + 1);
            assert(prefix.drop_last() =~= fields@.take(index as int));
            assert(field_offset(fields@, index as int) == offset);
        }
        index += 1;
    }
    proof {
        assert(fields@.take(fields.len() as int) =~= fields@);
    }
    let size = cursor.finish(align);
    (BufferLayout { align, size }, offsets)
}

} // verus!

verus! {

/// `words` with the values written consecutively from word `at` on.
pub open spec fn spliced(words: Seq<u32>, at: int, values: Seq<u32>) -> Seq<u32> {
    Seq::new(
        words.len(),
        |i: int|
            if at <= i < at + values.len() {
                values[i - at]
            } else {
                words[i]
            },
    )
}

/// `values` followed by zeros up to `width` words.
pub open spec fn padded(values: Seq<u32>, width: nat) -> Seq<u32> {
    values + Seq::new((width - values.len()) as nat, |i: int| 0u32)
}

/// A value with a storage-buffer layout: it knows its layout and writes its
/// 32-bit words into a word buffer at a byte offset.
pub trait BufferData: Sized {
    /// The layout of every value of this type.
    spec fn layout_spec() -> BufferLayout;

    /// The words this value stores, in order from its first byte.
    spec fn word_values(&self) -> Seq<u32>;

    /// The layout of this type.
    fn buffer_layout() -> (layout: BufferLayout)
        ensures
            layout == Self::layout_spec(),
    ;

    /// Every type stores whole, word-aligned words inside its size.
    proof fn lemma_layout(&self)
        ensures
            Self::layout_spec().wf(),
            Self::layout_spec().align % 4 == 0,
            self.word_values().len() * 4 <= Self::layout_spec().size,
    ;

    /// Writes this value's words starting at byte `byte`.
    fn write_at(&self, words: &mut Vec<u32>, byte: usize)
        requires
            byte % 4 == 0,
            byte / 4 + self.word_values().len() <= old(words).len(),
        ensures
            final(words)@ == spliced(old(words)@, (byte / 4) as int, self.word_values()),
    ;
}

fn write_word(words: &mut Vec<u32>, byte: usize, value: u32)
    requires
        byte % 4 == 0,
        byte / 4 < old(words).len(),
    ensures
        final(words)@ == spliced(old(words)@, (byte / 4) as int, seq![value]),
{
    words[byte / 4] = value;
    assert(words@ =~= spliced(old(words)@, (byte / 4) as int, seq![value]));
}

fn write_words(words: &mut Vec<u32>, byte: usize, values: &[u32])
    requires
        byte % 4 == 0,
        byte / 4 + values@.len() <= old(words).len(),
    ensures
        final(words)@ == spliced(old(words)@, (byte / 4) as int, values@),
{
    let start = byte / 4;
    let mut index: usize = 0;
    while index < values.len()
        invariant
            start == byte / 4,
            start + values@.len() <= old(words).len(),
            0 <= index <= values@.len(),
            words@ == spliced(old(words)@, start as int, values@.take(index as int)),
        decreases values@.len() - index,
    {
        words[start + index] = values[index];
        assert(words@ =~= spliced(old(words)@, start as int, values@.take(index as int + 1)));
        index += 1;
    }
    assert(values@.take(values@.len() as int) =~= values@);
}

impl BufferData for u32 {
    open spec fn layout_spec() -> BufferLayout {
        BufferLayout { align: 4, size: 4 }
    }

    open spec fn word_values(&self) -> Seq<u32> {
        seq![*self]
    }

    fn buffer_layout() -> (layout: BufferLayout) {
        BufferLayout::scalar()
    }

    proof fn lemma_layout(&self) {
    }

    fn write_at(&self, words: &mut Vec<u32>, byte: usize) {
        write_word(words, byte, *self);
    }
}

impl BufferData for i32 {
    open spec fn layout_spec() -> BufferLayout {
        BufferLayout { align: 4, size: 4 }
    }

    /// The two's-complement bits of the value.
    open spec fn word_values(&self) -> Seq<u32> {
        seq![*self as u32]
    }

    fn buffer_layout() -> (layout: BufferLayout) {
        BufferLayout::scalar()
    }

    proof fn lemma_layout(&self) {
    }

    fn write_at(&self, words: &mut Vec<u32>, byte: usize) {
        write_word(words, byte, *self as u32);
    }
}

impl BufferData for crate::packing::Unorm8x4 {
    open spec fn layout_spec() -> BufferLayout {
        BufferLayout { align: 4, size: 4 }
    }

    open spec fn word_values(&self) -> Seq<u32> {
        seq![self.word]
    }

    fn buffer_layout() -> (layout: BufferLayout) {
        BufferLayout::scalar()
    }

    proof fn lemma_layout(&self) {
    }

    fn write_at(&self, words: &mut Vec<u32>, byte: usize) {
        write_word(words, byte, self.word);
    }
}

impl BufferData for [u32; 2] {
    open spec fn layout_spec() -> BufferLayout {
        BufferLayout { align: 8, size: 8 }
    }

    open spec fn word_values(&self) -> Seq<u32> {
        self@
    }

    fn buffer_layout() -> (layout: BufferLayout) {
        BufferLayout::vector(2)
    }

    proof fn lemma_layout(&self) {
    }

    fn write_at(&self, words: &mut Vec<u32>, byte: usize) {
        write_words(words, byte, self.as_slice());
    }
}

impl BufferData for [u32; 3] {
    open spec fn layout_spec() -> BufferLayout {
        BufferLayout { align: 16, size: 12 }
    }

    open spec fn word_values(&self) -> Seq<u32> {
        self@
    }

    fn buffer_layout() -> (layout: BufferLayout) {
        BufferLayout::vector(3)
    }

    proof fn lemma_layout(&self) {
    }

    fn write_at(&self, words: &mut Vec<u32>, byte: usize) {
        write_words(words, byte, self.as_slice());
    }
}

impl BufferData for [u32; 4] {
    open spec fn layout_spec() -> BufferLayout {
        BufferLayout { align: 16, size: 16 }
    }

    open spec fn word_values(&self) -> Seq<u32> {
        self@
    }

    fn buffer_layout() -> (layout: BufferLayout) {
        BufferLayout::vector(4)
    }

    proof fn lemma_layout(&self) {
    }

    fn write_at(&self, words: &mut Vec<u32>, byte: usize) {
        write_words(words, byte, self.as_slice());
    }
}

/// The words of consecutive array elements, each padded to `width` words.
pub open spec fn encoded<T: BufferData>(data: Seq<T>, width: nat) -> Seq<u32>
    decreases data.len(),
{
    if data.len() == 0 {
        Seq::empty()
    } else {
        encoded(data.drop_last(), width) + padded(data.last().word_values(), width)
    }
}

/// Replaces `words` with the storage-buffer encoding of `data`: element `i`
/// starts at word `i * T::BUFFER_WORDS` and the padding between elements is zero.
pub fn encode<T: BufferData>(data: &[T], words: &mut Vec<u32>)
    requires
        data@.len() * T::layout_spec().words_spec() * 4 <= usize::MAX,
    ensures
        final(words)@ == encoded(data@, T::layout_spec().words_spec() as nat),
        final(words)@.len() == data@.len() * T::layout_spec().words_spec(),
{
    let layout = T::buffer_layout();
    proof {
        if data@.len() > 0 {
            data@[0].lemma_layout();
        }
    }
    let width = if data.len() == 0 { 0 } else { layout.words() };
    words.clear();
    let mut index: usize = 0;
    while index < data.len()
        invariant
            0 <= index <= data@.len(),
            layout == T::layout_spec(),
            data@.len() > 0 ==> width == layout.words_spec() && layout.wf(),
            data@.len() * layout.words_spec() * 4 <= usize::MAX,
            words@ == encoded(data@.take(index as int), layout.words_spec() as nat),
            words@.len() == index * layout.words_spec(),
        decreases data@.len() - index,
    {
        let item = &data[index];
        proof {
            item.lemma_layout();
            lemma_aligned_bounds(layout.size as int, layout.align as int);
            assert(words@.len() + width <= data@.len() * width) by (nonlinear_arith)
                requires
                    words@.len() == index * width,
                    index < data@.len(),
            ;
            assert(data@.len() * width * 4 <= usize::MAX);
            assert((words@.len() + width) * 4 <= usize::MAX) by (nonlinear_arith)
                requires
                    words@.len() + width <= data@.len() * width,
                    data@.len() * width * 4 <= usize::MAX,
            ;
        }
        let start = words.len();
        let ghost prefix = words@;
        let mut pad: usize = 0;
        while pad < width
            invariant
                0 <= pad <= width,
                start + width <= usize::MAX,
                words@.len() == start + pad,
                prefix.len() == start,
                words@.subrange(0, start as int) == prefix,
                forall|j: int| start <= j < start + pad ==> words@[j] == 0u32,
            decreases width - pad,
        {
            words.push(0);
            pad += 1;
        }
        item.write_at(words, start * 4);
        proof {
            assert(data@.take(index as int + 1).drop_last() =~= data@.take(index as int));
            assert(data@.take(index as int + 1).last() == *item);
            assert(words@ =~= prefix + padded(item.word_values(), width as nat));
            assert((index + 1) * layout.words_spec() == index * layout.words_spec()
                + layout.words_spec()) by (nonlinear_arith);
        }
        index += 1;
    }
    assert(data@.take(data@.len() as int) =~= data@);
}

} // verus!

verus! {

/// Whether `value` is a power of two.
pub open spec fn is_power_of_two(value: int) -> bool
    decreases value,
{
    if value <= 0 {
        false
    } else if value == 1 {
        true
    } else {
        value % 2 == 0 && is_power_of_two(value / 2)
    }
}

/// The smallest power of two that is at least `value`.
pub fn next_power_of_two(value: usize) -> (power: usize)
    requires
        value <= usize::MAX / 2 + 1,
    ensures
        is_power_of_two(power as int),
        value <= power,
        power == 1 || power < 2 * value,
{
    let mut power: usize = 1;
    while power < value
        invariant
            is_power_of_two(power as int),
            value <= usize::MAX / 2 + 1,
            power == 1 || power < 2 * value,
        decreases usize::MAX - power,
    {
        assert(is_power_of_two((power * 2) as int)) by {
            assert((power * 2) as int / 2 == power as int);
        }
        power = power * 2;
    }
    power
}

/// The byte size of a GPU buffer that holds `capacity` elements of `stride`
/// bytes: room for at least one element, and never under four bytes.
pub open spec fn buffer_bytes(stride: int, capacity: int) -> int {
    let elements = if capacity > 1 { capacity } else { 1 };
    if stride * elements > 4 {
        stride * elements
    } else {
        4
    }
}

/// The host side of a typed GPU storage buffer: the byte size of the buffer
/// it allocated, the stride of one element, and the staging words that the
/// last upload encoded.
pub struct DataBuffer {
    pub stride: usize,
    pub raw_size: usize,
    pub words: Vec<u32>,
}

impl DataBuffer {
    pub open spec fn wf(&self) -> bool {
        self.stride * 2 <= usize::MAX
    }

    /// A buffer sized for `capacity` elements of layout `layout`.
    pub fn new(layout: BufferLayout, capacity: usize) -> (buffer: Self)
        requires
            layout.wf(),
            layout.stride_spec() * if capacity > 1 { capacity as int } else { 1 } <= usize::MAX,
        ensures
            buffer.stride == layout.stride_spec(),
            buffer.raw_size == buffer_bytes(layout.stride_spec(), capacity as int),
            buffer.words@ == Seq::<u32>::empty(),
    {
        let stride = layout.stride();
        let elements = if capacity > 1 { capacity } else { 1 };
        let bytes = stride * elements;
        DataBuffer { stride, raw_size: if bytes > 4 { bytes } else { 4 }, words: Vec::new() }
    }

    /// Whether `count` elements fit in the allocated buffer.
    pub fn fits(&self, count: usize) -> (fits: bool)
        ensures
            fits == (count * self.stride <= self.raw_size),
    {
        match count.checked_mul(self.stride) {
            Some(bytes) => bytes <= self.raw_size,
            None => false,
        }
    }

    /// Makes room for `capacity` elements. When they do not fit, the buffer is
    /// reallocated for the next power of two elements and `true` is returned
    /// so that the caller recreates its GPU buffer and bindings.
    pub fn grow(&mut self, capacity: usize) -> (grown: bool)
        requires
            capacity <= usize::MAX / 2 + 1,
            old(self).stride * 2 * capacity <= usize::MAX,
        ensures
            grown == (capacity * old(self).stride > old(self).raw_size),
            final(self).stride == old(self).stride,
            final(self).words == old(self).words,
            !grown ==> final(self).raw_size == old(self).raw_size,
            grown ==> exists|elements: int|
                #![trigger buffer_bytes(old(self).stride as int, elements)]
                is_power_of_two(elements) && capacity <= elements < 2 * capacity
                    && final(self).raw_size == buffer_bytes(old(self).stride as int, elements),
            capacity * final(self).stride <= final(self).raw_size,
    {
        assert(capacity * self.stride <= usize::MAX) by (nonlinear_arith)
            requires
                self.stride * 2 * capacity <= usize::MAX,
        ;
        if capacity * self.stride <= self.raw_size {
            return false;
        }
        assert(capacity >= 1 && self.stride >= 1) by (nonlinear_arith)
            requires
                capacity * self.stride > self.raw_size,
                self.raw_size >= 0,
        ;
        let elements = next_power_of_two(capacity);
        assert(elements < 2 * capacity);
        assert(elements * self.stride <= usize::MAX) by (nonlinear_arith)
            requires
                elements < 2 * capacity,
                self.stride * 2 * capacity <= usize::MAX,
        ;
        let bytes = elements * self.stride;
        assert(capacity * self.stride <= bytes) by (nonlinear_arith)
            requires
                capacity <= elements,
                bytes == elements * self.stride,
        ;
        self.raw_size = if bytes > 4 { bytes } else { 4 };
        assert(buffer_bytes(self.stride as int, elements as int) == self.raw_size) by {
            assert(elements >= 1);
            assert(self.stride * elements == bytes) by (nonlinear_arith)
                requires
                    bytes == elements * self.stride,
            ;
        }
        assert(is_power_of_two(elements as int) && capacity <= elements < 2 * capacity
            && self.raw_size == buffer_bytes(old(self).stride as int, elements as int));
        true
    }

    /// Encodes `data` into the staging words for the GPU upload.
    pub fn upload<T: BufferData>(&mut self, data: &[T])
        requires
            data@.len() * old(self).stride <= old(self).raw_size,
            data@.len() * T::layout_spec().words_spec() * 4 <= usize::MAX,
        ensures
            final(self).words@ == encoded(data@, T::layout_spec().words_spec() as nat),
            final(self).stride == old(self).stride,
            final(self).raw_size == old(self).raw_size,
    {
        encode(data, &mut self.words);
    }
}

/// Typed storage that any number of passes bind: a data buffer for values
/// of type `T`.
pub struct Storage<T: BufferData> {
    pub buffer: DataBuffer,
    pub marker: core::marker::PhantomData<T>,
}

impl<T: BufferData> Storage<T> {
    /// Storage with room for `capacity` values.
    pub fn with_capacity(capacity: usize) -> (storage: Self)
        requires
            T::layout_spec().wf(),
            T::layout_spec().stride_spec() * if capacity > 1 { capacity as int } else { 1 } <= usize::MAX,
        ensures
            storage.buffer.stride == T::layout_spec().stride_spec(),
            storage.buffer.raw_size == buffer_bytes(T::layout_spec().stride_spec(), capacity as int),
            storage.buffer.words@ == Seq::<u32>::empty(),
    {
        Storage { buffer: DataBuffer::new(T::buffer_layout(), capacity), marker: core::marker::PhantomData }
    }

    /// Encodes `values` for the GPU; they must fit in the buffer.
    pub fn upload(&mut self, values: &[T])
        requires
            values@.len() * old(self).buffer.stride <= old(self).buffer.raw_size,
            values@.len() * T::layout_spec().words_spec() * 4 <= usize::MAX,
        ensures
            final(self).buffer.words@ == encoded(values@, T::layout_spec().words_spec() as nat),
            final(self).buffer.stride == old(self).buffer.stride,
            final(self).buffer.raw_size == old(self).buffer.raw_size,
    {
        self.buffer.upload(values);
    }
}

} // verus!
