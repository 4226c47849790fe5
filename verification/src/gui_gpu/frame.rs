//! The per-frame data of the render loop: uniform buffer contents and the
//! number of compute workgroups dispatched per pass instance.

use vstd::prelude::*;

verus! {

/// Width in pixels of the image that the passes compute.
pub const WIDTH: usize = 1200 * 2;

/// Height in pixels of the image that the passes compute.
pub const HEIGHT: usize = 800 * 2;

/// Edge length of the square compute workgroup of every pass shader.
pub const WORKGROUP_SIZE: u32 = 16;

/// Size in bytes of the uniform buffer of the paint pipeline: four 32-bit words.
pub const PAINT_UNIFORM_BUFFER_SIZE: u64 = 4 * 4;

/// The four bytes of a word, least significant first.
pub open spec fn le_bytes(w: u32) -> Seq<u8> {
    seq![
        (w % 0x100) as u8,
        ((w / 0x100) % 0x100) as u8,
        ((w / 0x1_0000) % 0x100) as u8,
        (w / 0x100_0000) as u8,
    ]
}

/// The four bytes of a word, most significant first.
pub open spec fn be_bytes(w: u32) -> Seq<u8> {
    seq![
        (w / 0x100_0000) as u8,
        ((w / 0x1_0000) % 0x100) as u8,
        ((w / 0x100) % 0x100) as u8,
        (w % 0x100) as u8,
    ]
}

/// `bytes` is `words` laid out one after the other, each word's bytes
/// produced by `word_bytes`.
pub open spec fn laid_out(words: Seq<u32>, bytes: Seq<u8>, word_bytes: spec_fn(u32) -> Seq<u8>) -> bool {
    &&& bytes.len() == 4 * words.len()
    &&& forall|i: int, j: int|
        0 <= i < words.len() && 0 <= j < 4 ==> #[trigger] bytes[4 * i + j] == word_bytes(
            #[trigger] words[i],
        )[j]
}

/// `bytes` is the in-memory representation of `words` on a machine of
/// either byte order.
pub open spec fn native_bytes(words: Seq<u32>, bytes: Seq<u8>) -> bool {
    ||| laid_out(words, bytes, |w: u32| le_bytes(w))
    ||| laid_out(words, bytes, |w: u32| be_bytes(w))
}

/// Calls `bytemuck::cast_slice::<u32, u8>`, which reinterprets the words as
/// their in-memory bytes (four per word; it cannot fail for this pair of
/// types), and copies the bytes out. The claim: that many bytes, each word's
/// bytes in the machine's byte order, little- or big-endian. Which of the two
/// is left unsaid: it is a property of the machine.
#[verifier::external_body]
fn cast_words_to_bytes(words: &[u32]) -> (bytes: Vec<u8>)
    ensures
        native_bytes(words@, bytes@),
{
    bytemuck::cast_slice::<u32, u8>(words).to_vec()
}

/// The words of the paint pipeline's uniform buffer.
pub open spec fn spec_paint_uniform_words(
    viewport_offset_x_bits: u32,
    viewport_offset_y_bits: u32,
) -> Seq<u32> {
    seq![viewport_offset_x_bits, viewport_offset_y_bits, WIDTH as u32, HEIGHT as u32]
}

/// The words of the paint pipeline's uniform buffer: the bit patterns of
/// the viewport's offset on screen, then the image's width and height.
pub fn paint_uniform_words(viewport_offset_x_bits: u32, viewport_offset_y_bits: u32) -> (words: Vec<
    u32,
>)
    ensures
        words@ == spec_paint_uniform_words(viewport_offset_x_bits, viewport_offset_y_bits),
{
    let mut words: Vec<u32> = Vec::new();
    words.push(viewport_offset_x_bits);
    words.push(viewport_offset_y_bits);
    words.push(WIDTH as u32);
    words.push(HEIGHT as u32);
    words
}

/// The words of the standard uniform buffer that every pass receives.
pub open spec fn spec_standard_uniform_words(
    offset_x_bits: u32,
    offset_y_bits: u32,
    pixel_size_bits: u32,
    aspect_ratio_bits: u32,
    cursor_x_bits: u32,
    cursor_y_bits: u32,
) -> Seq<u32> {
    seq![
        offset_x_bits,
        offset_y_bits,
        pixel_size_bits,
        aspect_ratio_bits,
        WIDTH as u32,
        HEIGHT as u32,
        cursor_x_bits,
        cursor_y_bits,
    ]
}

/// The words of the standard uniform buffer: the bit patterns of the pan
/// offset, pixel size and aspect ratio, the image's width and height, then
/// the bit patterns of the cursor position.
pub fn standard_uniform_words(
    offset_x_bits: u32,
    offset_y_bits: u32,
    pixel_size_bits: u32,
    aspect_ratio_bits: u32,
    cursor_x_bits: u32,
    cursor_y_bits: u32,
) -> (words: Vec<u32>)
    ensures
        words@ == spec_standard_uniform_words(
            offset_x_bits,
            offset_y_bits,
            pixel_size_bits,
            aspect_ratio_bits,
            cursor_x_bits,
            cursor_y_bits,
        ),
{
    let mut words: Vec<u32> = Vec::new();
    words.push(offset_x_bits);
    words.push(offset_y_bits);
    words.push(pixel_size_bits);
    words.push(aspect_ratio_bits);
    words.push(WIDTH as u32);
    words.push(HEIGHT as u32);
    words.push(cursor_x_bits);
    words.push(cursor_y_bits);
    words
}

/// The bytes written to the paint pipeline's uniform buffer.
pub fn paint_uniform_bytes(viewport_offset_x_bits: u32, viewport_offset_y_bits: u32) -> (bytes: Vec<
    u8,
>)
    ensures
        native_bytes(
            spec_paint_uniform_words(viewport_offset_x_bits, viewport_offset_y_bits),
            bytes@,
        ),
        bytes@.len() == PAINT_UNIFORM_BUFFER_SIZE,
{
    let words = paint_uniform_words(viewport_offset_x_bits, viewport_offset_y_bits);
    cast_words_to_bytes(words.as_slice())
}

/// The bytes written to the standard uniform buffer.
pub fn standard_uniform_bytes(
    offset_x_bits: u32,
    offset_y_bits: u32,
    pixel_size_bits: u32,
    aspect_ratio_bits: u32,
    cursor_x_bits: u32,
    cursor_y_bits: u32,
) -> (bytes: Vec<u8>)
    ensures
        native_bytes(
            spec_standard_uniform_words(
                offset_x_bits,
                offset_y_bits,
                pixel_size_bits,
                aspect_ratio_bits,
                cursor_x_bits,
                cursor_y_bits,
            ),
            bytes@,
        ),
        bytes@.len() == crate::gui_gpu::plan::STANDARD_UNIFORM_BUFFER_SIZE,
{
    let words = standard_uniform_words(
        offset_x_bits,
        offset_y_bits,
        pixel_size_bits,
        aspect_ratio_bits,
        cursor_x_bits,
        cursor_y_bits,
    );
    cast_words_to_bytes(words.as_slice())
}

/// The number of workgroups of `WORKGROUP_SIZE` needed to cover `n` pixels.
pub open spec fn spec_workgroup_count(n: u32) -> int {
    (n + WORKGROUP_SIZE - 1) / (WORKGROUP_SIZE as int)
}

/// The number of workgroups of `WORKGROUP_SIZE` along one axis that cover `n` pixels.
fn workgroup_count(n: u32) -> (count: u32)
    ensures
        count == spec_workgroup_count(n),
{
    let whole = n / WORKGROUP_SIZE;
    if n % WORKGROUP_SIZE == 0 {
        whole
    } else {
        whole + 1
    }
}

/// The workgroup counts of the dispatch of every pass instance: enough
/// workgroups along each axis to cover the viewport (its size taken as a
/// `u32`, truncated as `as` does), and one along the third axis.
pub fn workgroup_counts(viewport_size_x: usize, viewport_size_y: usize) -> (counts: (u32, u32, u32))
    ensures
        counts.0 == spec_workgroup_count(viewport_size_x as u32),
        counts.1 == spec_workgroup_count(viewport_size_y as u32),
        counts.2 == 1,
{
    let x = workgroup_count(viewport_size_x as u32);
    let y = workgroup_count(viewport_size_y as u32);
    (x, y, 1)
}

/// The workgroups along an axis cover every pixel, and none of them lies
/// wholly beyond the last pixel.
pub proof fn lemma_workgroups_cover(n: u32)
    ensures
        spec_workgroup_count(n) * WORKGROUP_SIZE >= n,
        (spec_workgroup_count(n) - 1) * WORKGROUP_SIZE < n || n == 0,
        n == 0 ==> spec_workgroup_count(n) == 0,
{
}

} // verus!
