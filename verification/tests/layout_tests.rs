use cantus::layout::{
    align_to, encode, next_power_of_two, struct_layout, BufferData, BufferLayout, DataBuffer, Storage,
};
use cantus::packing::Unorm8x4;

fn floats(values: [f32; 4]) -> [u32; 4] {
    [values[0].to_bits(), values[1].to_bits(), values[2].to_bits(), values[3].to_bits()]
}

#[test]
fn storage_layout_matches_wgsl() {
    // struct Layout { vector: Vec4, pair: Vec2, scalar: f32, tail: u32 }
    let fields = vec![
        BufferLayout::vector(4),
        BufferLayout::vector(2),
        BufferLayout::scalar(),
        BufferLayout::scalar(),
    ];
    let (layout, offsets) = struct_layout(&fields);
    assert_eq!(layout.align, 16);
    assert_eq!(layout.size, 32);
    let mut words = vec![0u32; layout.words()];
    floats([2.0, 3.0, 4.0, 5.0]).write_at(&mut words, offsets[0]);
    [6.0f32.to_bits(), 7.0f32.to_bits()].write_at(&mut words, offsets[1]);
    1.0f32.to_bits().write_at(&mut words, offsets[2]);
    8u32.write_at(&mut words, offsets[3]);
    assert_eq!(words[0], 2.0f32.to_bits());
    assert_eq!(words[4], 6.0f32.to_bits());
    assert_eq!(words[6], 1.0f32.to_bits());
    assert_eq!(words[7], 8);

    let vec3 = BufferLayout::vector(3);
    assert_eq!(vec3.size, 12);
    assert_eq!(vec3.stride(), 16);
    assert_eq!(vec3.array(2).size, 32);
    assert_eq!(BufferLayout::scalar().array(3).array(2).size, 24);
    // struct NestedLine { vectors: [Vec2; 3], scalars: [u32; 4] }
    let (line, _) = struct_layout(&vec![BufferLayout::vector(2).array(3), BufferLayout::scalar().array(4)]);
    assert_eq!(line.align, 8);
    assert_eq!(line.size, 40);
    // struct NestedText { lines: [NestedLine; 2], glyphs: [Vec2; 2], count: u32 }
    let (text, _) = struct_layout(&vec![line.array(2), BufferLayout::vector(2).array(2), BufferLayout::scalar()]);
    assert_eq!(text.align, 8);
    assert_eq!(text.size, 104);
}

#[test]
fn normalized_color_uses_one_word() {
    let channel = |value: f32| (value.clamp(0.0, 1.0) * 255.0 + 0.5) as u8;
    let color = Unorm8x4::from_channels([channel(1.0), channel(0.5), channel(0.0), channel(1.0)]);
    let mut words = vec![0u32];
    color.write_at(&mut words, 0);
    assert_eq!(words[0], 0xff00_80ff);
    let channels = color.channels();
    let back = channels.map(|c| f32::from(c) / 255.0);
    let expected = [1.0, 128.0 / 255.0, 0.0, 1.0];
    for (a, b) in back.iter().zip(expected.iter()) {
        assert!((a - b).abs() < 1e-6);
    }
}

#[test]
fn align_to_rounds_up_to_multiples() {
    assert_eq!(align_to(0, 16), 0);
    assert_eq!(align_to(1, 16), 16);
    assert_eq!(align_to(16, 16), 16);
    assert_eq!(align_to(17, 8), 24);
    assert_eq!(align_to(100, 8), 104);
}

#[test]
fn layouts_of_scalars_and_vectors() {
    assert_eq!(BufferLayout::unit().size, 0);
    assert_eq!(BufferLayout::unit().align, 1);
    assert_eq!(BufferLayout::scalar().words(), 1);
    assert_eq!(BufferLayout::vector(2).align, 8);
    assert_eq!(BufferLayout::vector(3).words(), 4);
    assert_eq!(BufferLayout::vector(4).words(), 4);
}

#[test]
fn struct_fields_are_aligned_and_apart() {
    let fields = vec![BufferLayout::scalar(), BufferLayout::vector(3), BufferLayout::scalar(), BufferLayout::vector(2)];
    let (layout, offsets) = struct_layout(&fields);
    assert_eq!(offsets, vec![0, 16, 28, 32]);
    assert_eq!(layout.align, 16);
    assert_eq!(layout.size, 48);
    for i in 0..fields.len() {
        assert_eq!(offsets[i] % fields[i].align, 0);
        if i + 1 < fields.len() {
            assert!(offsets[i] + fields[i].size <= offsets[i + 1]);
        }
    }
}

#[test]
fn encode_places_each_element_at_its_stride() {
    let data = [[1u32, 2, 3], [4, 5, 6]];
    let mut words = vec![9u32; 3];
    encode(&data, &mut words);
    assert_eq!(words, vec![1, 2, 3, 0, 4, 5, 6, 0]);
}

#[test]
fn next_power_of_two_rounds_up() {
    assert_eq!(next_power_of_two(1), 1);
    assert_eq!(next_power_of_two(3), 4);
    assert_eq!(next_power_of_two(64), 64);
    assert_eq!(next_power_of_two(65), 128);
}

#[test]
fn data_buffer_grows_to_a_power_of_two() {
    let mut buffer = DataBuffer::new(BufferLayout::vector(4), 0);
    assert_eq!(buffer.raw_size, 16);
    assert!(buffer.fits(1));
    assert!(!buffer.fits(2));
    assert!(!buffer.grow(1));
    assert!(buffer.grow(5));
    assert_eq!(buffer.raw_size, 8 * 16);
    assert!(buffer.fits(8));
    assert!(!buffer.grow(8));
    let tiny = DataBuffer::new(BufferLayout::unit(), 0);
    assert_eq!(tiny.raw_size, 4);
    // Elements without bytes never need a larger buffer.
    let mut empty = DataBuffer { stride: 0, raw_size: 4, words: Vec::new() };
    assert!(!empty.grow(1_000));
    assert_eq!(empty.raw_size, 4);
}

#[test]
fn storage_uploads_encoded_values() {
    let mut storage: Storage<u32> = Storage::with_capacity(4);
    assert_eq!(storage.buffer.raw_size, 16);
    storage.upload(&[7, 8, 9]);
    assert_eq!(storage.buffer.words, vec![7, 8, 9]);
    let mut pairs: Storage<[u32; 2]> = Storage::with_capacity(2);
    pairs.upload(&[[1, 2], [3, 4]]);
    assert_eq!(pairs.buffer.words, vec![1, 2, 3, 4]);
}
