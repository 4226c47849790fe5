use gui_gpu::gui_gpu::frame::{
    paint_uniform_bytes, paint_uniform_words, standard_uniform_bytes, standard_uniform_words,
    workgroup_counts, HEIGHT, PAINT_UNIFORM_BUFFER_SIZE, WIDTH, WORKGROUP_SIZE,
};

fn native(words: &[u32]) -> Vec<u8> {
    words.iter().flat_map(|w| w.to_ne_bytes()).collect()
}

#[test]
fn image_is_2400_by_1600() {
    assert_eq!((WIDTH, HEIGHT), (2400, 1600));
    assert_eq!(WORKGROUP_SIZE, 16);
}

#[test]
fn paint_uniform_words_hold_offset_then_image_size() {
    let x = 12.5f32.to_bits();
    let y = (-3.0f32).to_bits();
    assert_eq!(paint_uniform_words(x, y), vec![x, y, 2400, 1600]);
}

#[test]
fn standard_uniform_words_order() {
    let words = standard_uniform_words(1, 2, 3, 4, 5, 6);
    assert_eq!(words, vec![1, 2, 3, 4, 2400, 1600, 5, 6]);
}

#[test]
fn paint_uniform_bytes_are_the_words_in_memory_order() {
    let bytes = paint_uniform_bytes(0x0403_0201, 0x0807_0605);
    assert_eq!(bytes.len() as u64, PAINT_UNIFORM_BUFFER_SIZE);
    assert_eq!(bytes, native(&[0x0403_0201, 0x0807_0605, 2400, 1600]));
    let le = vec![1u8, 2, 3, 4, 5, 6, 7, 8, 0x60, 0x09, 0, 0, 0x40, 0x06, 0, 0];
    let mut be = vec![4u8, 3, 2, 1, 8, 7, 6, 5, 0, 0, 0x09, 0x60, 0, 0, 0x06, 0x40];
    if 1u32.to_ne_bytes()[0] == 1 {
        be = le.clone();
    }
    assert_eq!(bytes, be);
}

#[test]
fn standard_uniform_bytes_are_32_bytes() {
    let bytes = standard_uniform_bytes(
        1.0f32.to_bits(),
        2.0f32.to_bits(),
        0.5f32.to_bits(),
        1.5f32.to_bits(),
        7.0f32.to_bits(),
        9.0f32.to_bits(),
    );
    assert_eq!(bytes.len(), 32);
    assert_eq!(&bytes[0..4], &1.0f32.to_ne_bytes());
    assert_eq!(&bytes[16..20], &2400u32.to_ne_bytes());
    assert_eq!(&bytes[28..32], &9.0f32.to_ne_bytes());
}

#[test]
fn workgroups_cover_the_viewport() {
    assert_eq!(workgroup_counts(2400, 1600), (150, 100, 1));
    assert_eq!(workgroup_counts(2401, 1), (151, 1, 1));
    assert_eq!(workgroup_counts(0, 15), (0, 1, 1));
    assert_eq!(workgroup_counts(16, 17), (1, 2, 1));
}

#[test]
fn workgroup_count_of_largest_u32() {
    assert_eq!(workgroup_counts(u32::MAX as usize, 32).0, 0x1000_0000);
}
