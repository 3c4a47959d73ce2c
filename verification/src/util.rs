//! Buffer layout and the reduction of the per-pixel error to a scalar.

use vstd::arithmetic::div_mod::lemma_fundamental_div_mod_converse;
use vstd::prelude::*;

use crate::model::settings::{ERROR_SCALE, MAX_ERROR_PER_PIXEL};

verus! {

/// Number of bytes of one RGBA8 pixel.
pub const BYTES_PER_PIXEL: usize = 4;

/// The row alignment, in bytes, that the graphics API asks of a buffer that
/// a texture is copied into.
pub const ROW_ALIGNMENT: usize = 256;

/// The width and the height, in pixels, of the square that one workgroup of
/// the difference pass covers.
pub const WORKGROUP_SIZE: u32 = 8;

/// Reads the constant `wgpu::COPY_BYTES_PER_ROW_ALIGNMENT`, whose value in
/// the graphics crate is 256.
#[verifier::external_body]
fn copy_bytes_per_row_alignment() -> (align: usize)
    ensures
        align == ROW_ALIGNMENT,
{
    wgpu::COPY_BYTES_PER_ROW_ALIGNMENT as usize
}

/// The layout of the buffer that receives the rendered texture: rows of
/// `unpadded_bytes_per_row` bytes of pixels, each padded to
/// `padded_bytes_per_row` bytes.
#[derive(Clone, Copy, Debug, PartialEq, Eq, Structural)]
pub struct BufferDimensions {
    pub width: usize,
    pub height: usize,
    pub unpadded_bytes_per_row: usize,
    pub padded_bytes_per_row: usize,
}

/// The least multiple of [`ROW_ALIGNMENT`] that is not below `bytes`.
pub open spec fn padded_row(bytes: int) -> int {
    (bytes + ROW_ALIGNMENT - 1) / (ROW_ALIGNMENT as int) * ROW_ALIGNMENT
}

/// [`padded_row`] is a multiple of the alignment, and the least one that
/// holds the row.
pub proof fn lemma_padded_row(bytes: int)
    requires
        bytes >= 0,
    ensures
        padded_row(bytes) % (ROW_ALIGNMENT as int) == 0,
        bytes <= padded_row(bytes) < bytes + ROW_ALIGNMENT,
{
}

impl BufferDimensions {
    /// The rows hold `width` pixels and are padded to the alignment.
    pub open spec fn wf(&self) -> bool {
        &&& self.unpadded_bytes_per_row == self.width * BYTES_PER_PIXEL
        &&& self.padded_bytes_per_row == padded_row(self.unpadded_bytes_per_row as int)
    }

    /// The layout for an image of the given size. The padded row length
    /// must fit the machine word.
    pub fn new(width: usize, height: usize) -> (dimensions: BufferDimensions)
        requires
            padded_row(width * BYTES_PER_PIXEL) <= usize::MAX,
        ensures
            dimensions.wf(),
            dimensions.width == width,
            dimensions.height == height,
    {
        proof {
            lemma_padded_row(width * BYTES_PER_PIXEL);
        }
        let bytes_per_pixel: usize = BYTES_PER_PIXEL;
        let unpadded_bytes_per_row: usize = width * bytes_per_pixel;
        let align: usize = copy_bytes_per_row_alignment();
        let padded_bytes_per_row_padding: usize = (align - unpadded_bytes_per_row % align) % align;
        let padded_bytes_per_row: usize = unpadded_bytes_per_row + padded_bytes_per_row_padding;
        BufferDimensions { width, height, unpadded_bytes_per_row, padded_bytes_per_row }
    }
}

/// The number of workgroups that the difference pass needs along an axis
/// of `extent` pixels: the least number whose squares cover the axis.
pub fn workgroup_count(extent: u32) -> (count: u32)
    ensures
        count * WORKGROUP_SIZE >= extent,
        count > 0 ==> (count - 1) * WORKGROUP_SIZE < extent,
{
    let whole: u32 = extent / WORKGROUP_SIZE;
    if extent % WORKGROUP_SIZE == 0 {
        whole
    } else {
        whole + 1
    }
}

/// The size in bytes of the padded buffer of an image, or `None` where it
/// does not fit the machine word.
pub fn padded_buffer_size(width: usize, height: usize) -> (size: Option<usize>)
    ensures
        size is Some <==> padded_row(width * BYTES_PER_PIXEL) * height <= usize::MAX,
        size matches Some(bytes) ==> bytes == padded_row(width * BYTES_PER_PIXEL) * height,
{
    if height == 0 {
        assert(padded_row(width * BYTES_PER_PIXEL) * 0 == 0);
        return Some(0);
    }
    proof {
        lemma_padded_row(width * BYTES_PER_PIXEL);
        let row = padded_row(width * BYTES_PER_PIXEL);
        assert(row * height >= row) by (nonlinear_arith)
            requires
                row >= 0,
                height >= 1,
        ;
    }
    let unpadded: usize = match width.checked_mul(BYTES_PER_PIXEL) {
        Some(bytes) => bytes,
        None => {
            return None;
        },
    };
    let align: usize = copy_bytes_per_row_alignment();
    let padding: usize = (align - unpadded % align) % align;
    match unpadded.checked_add(padding) {
        Some(padded) => padded.checked_mul(height),
        None => None,
    }
}

/// The pixel bytes of a padded buffer: of each row of `padded` bytes the
/// first `unpadded`, for `rows` rows.
pub open spec fn without_padding(buffer: Seq<u8>, unpadded: int, padded: int, rows: int) -> Seq<
    u8,
> {
    Seq::new(
        (rows * unpadded) as nat,
        |k: int| buffer[(k / unpadded) * padded + k % unpadded],
    )
}

/// Strips the row padding from a buffer read back from the graphics
/// device. A buffer of exactly `width * height * 4` bytes has no padding
/// and is returned as it is; one of `padded_bytes_per_row * height` bytes
/// loses the padding of each row; any other length is refused.
pub fn strip_padding(buffer: &Vec<u8>, dimensions: &BufferDimensions) -> (pixels: Option<Vec<u8>>)
    requires
        dimensions.wf(),
        dimensions.padded_bytes_per_row * dimensions.height <= usize::MAX,
    ensures
        pixels is Some <==> (buffer@.len() == dimensions.unpadded_bytes_per_row * dimensions.height
            || buffer@.len() == dimensions.padded_bytes_per_row * dimensions.height),
        pixels matches Some(bytes) ==> bytes@ == (if buffer@.len()
            == dimensions.unpadded_bytes_per_row * dimensions.height {
            buffer@
        } else {
            without_padding(
                buffer@,
                dimensions.unpadded_bytes_per_row as int,
                dimensions.padded_bytes_per_row as int,
                dimensions.height as int,
            )
        }),
{
    let unpadded: usize = dimensions.unpadded_bytes_per_row;
    let padded: usize = dimensions.padded_bytes_per_row;
    let rows: usize = dimensions.height;
    proof {
        lemma_padded_row(unpadded as int);
        assert(unpadded * rows <= padded * rows) by (nonlinear_arith)
            requires
                unpadded <= padded,
                rows >= 0,
        ;
    }
    if buffer.len() == unpadded * rows {
        let mut copy: Vec<u8> = Vec::new();
        let mut k: usize = 0;
        while k < buffer.len()
            invariant
                k <= buffer@.len(),
                copy@ == buffer@.subrange(0, k as int),
            decreases buffer@.len() - k,
        {
            copy.push(buffer[k]);
            assert(copy@ =~= buffer@.subrange(0, k + 1));
            k += 1;
        }
        assert(copy@ =~= buffer@);
        return Some(copy);
    }
    if buffer.len() != padded * rows {
        return None;
    }
    let ghost expected = without_padding(buffer@, unpadded as int, padded as int, rows as int);
    let mut pixels: Vec<u8> = Vec::new();
    let mut row: usize = 0;
    while row < rows
        invariant
            row <= rows,
            unpadded <= padded,
            buffer@.len() == padded * rows,
            unpadded * rows <= padded * rows <= usize::MAX,
            expected == without_padding(buffer@, unpadded as int, padded as int, rows as int),
            expected.len() == rows * unpadded,
            pixels@.len() == row * unpadded,
            pixels@.len() <= expected.len(),
            forall|k: int| 0 <= k < pixels@.len() ==> #[trigger] pixels@[k] == expected[k],
        decreases rows - row,
    {
        assert(row * padded + padded <= padded * rows && row * unpadded + unpadded <= rows
            * unpadded) by (nonlinear_arith)
            requires
                row < rows,
                padded >= 0,
                unpadded >= 0,
        ;
        let start_index: usize = row * padded;
        let mut column: usize = 0;
        while column < unpadded
            invariant
                column <= unpadded,
                row < rows,
                unpadded <= padded,
                start_index == row * padded,
                start_index + padded <= buffer@.len(),
                buffer@.len() <= usize::MAX,
                row * unpadded + unpadded <= rows * unpadded,
                expected.len() == rows * unpadded,
                expected == without_padding(buffer@, unpadded as int, padded as int, rows as int),
                pixels@.len() == row * unpadded + column,
                forall|k: int| 0 <= k < pixels@.len() ==> #[trigger] pixels@[k] == expected[k],
            decreases unpadded - column,
        {
            proof {
                let k = row * unpadded + column;
                lemma_fundamental_div_mod_converse(k, unpadded as int, row as int, column as int);
            }
            pixels.push(buffer[start_index + column]);
            column += 1;
        }
        row += 1;
        assert(pixels@.len() == row * unpadded && row * unpadded <= rows * unpadded)
            by (nonlinear_arith)
            requires
                pixels@.len() == (row - 1) * unpadded + unpadded,
                row <= rows,
                unpadded >= 0,
        ;
    }
    assert(pixels@ =~= expected);
    Some(pixels)
}

/// `root` is the integer square root of `n`, rounded down.
pub open spec fn is_sqrt_floor(n: int, root: int) -> bool {
    0 <= root && root * root <= n < (root + 1) * (root + 1)
}

/// The square root of `n`, rounded down.
pub open spec fn sqrt_floor(n: int) -> int {
    choose|root: int| is_sqrt_floor(n, root)
}

/// A number has at most one rounded-down square root, so one that is found
/// is [`sqrt_floor`].
pub proof fn lemma_sqrt_floor_unique(n: int, root: int)
    requires
        is_sqrt_floor(n, root),
    ensures
        sqrt_floor(n) == root,
{
    let other = sqrt_floor(n);
    assert(is_sqrt_floor(n, other));
    assert(other == root) by (nonlinear_arith)
        requires
            0 <= root,
            root * root <= n < (root + 1) * (root + 1),
            0 <= other,
            other * other <= n < (other + 1) * (other + 1),
    ;
}

/// Every number that is not negative has a rounded-down square root.
pub proof fn lemma_sqrt_floor_exists(n: int) -> (root: int)
    requires
        n >= 0,
    ensures
        is_sqrt_floor(n, root),
        sqrt_floor(n) == root,
    decreases n,
{
    if n == 0 {
        assert(is_sqrt_floor(0, 0));
        lemma_sqrt_floor_unique(0, 0);
        0
    } else {
        let previous = lemma_sqrt_floor_exists(n - 1);
        let root = if (previous + 1) * (previous + 1) <= n {
            previous + 1
        } else {
            previous
        };
        assert(is_sqrt_floor(n, root)) by (nonlinear_arith)
            requires
                0 <= previous,
                previous * previous <= n - 1 < (previous + 1) * (previous + 1),
                root == if (previous + 1) * (previous + 1) <= n {
                    previous + 1
                } else {
                    previous
                },
        ;
        lemma_sqrt_floor_unique(n, root);
        root
    }
}

/// The rounded-down square root grows with its argument.
pub proof fn lemma_sqrt_floor_ordered(small: int, small_root: int, large: int, large_root: int)
    requires
        is_sqrt_floor(small, small_root),
        is_sqrt_floor(large, large_root),
        small <= large,
    ensures
        small_root <= large_root,
{
    assert(small_root <= large_root) by (nonlinear_arith)
        requires
            0 <= small_root,
            0 <= large_root,
            small_root * small_root <= small,
            small <= large,
            large < (large_root + 1) * (large_root + 1),
    ;
}

/// Computes [`sqrt_floor`] by bisection.
pub fn integer_sqrt(n: u64) -> (root: u64)
    ensures
        root == sqrt_floor(n as int),
        is_sqrt_floor(n as int, root as int),
{
    let mut low: u64 = 0;
    let mut high: u64 = 4_294_967_296;
    while high - low > 1
        invariant
            low < high <= 4_294_967_296,
            low * low <= n < high * high,
        decreases high - low,
    {
        let middle: u64 = low + (high - low) / 2;
        assert(middle * middle <= 4_294_967_296 * 4_294_967_296) by (nonlinear_arith)
            requires
                0 <= middle <= 4_294_967_296,
        ;
        if (middle as u128) * (middle as u128) <= n as u128 {
            low = middle;
        } else {
            high = middle;
        }
    }
    proof {
        lemma_sqrt_floor_unique(n as int, low as int);
    }
    low
}

/// The error of one pixel: the Euclidean distance of its red, green and
/// blue differences, in error units, rounded down. Alpha does not count.
pub open spec fn pixel_error(re: int, ge: int, be: int) -> int {
    sqrt_floor((re * re + ge * ge + be * be) * (ERROR_SCALE * ERROR_SCALE))
}

/// The error of the pixel at position `pixel` of a buffer of four channel
/// differences per pixel.
pub open spec fn pixel_error_at(buffer: Seq<u8>, pixel: int) -> int {
    pixel_error(
        buffer[4 * pixel] as int,
        buffer[4 * pixel + 1] as int,
        buffer[4 * pixel + 2] as int,
    )
}

/// The sum of the errors of the first `pixels` pixels of a buffer.
pub open spec fn error_sum(buffer: Seq<u8>, pixels: nat) -> int
    decreases pixels,
{
    if pixels == 0 {
        0
    } else {
        error_sum(buffer, (pixels - 1) as nat) + pixel_error_at(buffer, pixels - 1)
    }
}

/// The scalar error of a buffer of channel differences: the sum of the
/// errors of its whole pixels. Bytes after the last whole pixel do not
/// count.
pub open spec fn total_error(buffer: Seq<u8>) -> int {
    error_sum(buffer, buffer.len() / 4)
}

/// The brightness of a pixel of the heatmap: 255 for no error, falling
/// linearly to 0 for the largest error.
pub open spec fn heat(error: int) -> int {
    255 * (MAX_ERROR_PER_PIXEL - error) / (MAX_ERROR_PER_PIXEL as int)
}

/// The heatmap of a buffer of channel differences: one opaque gray pixel
/// for each whole pixel of the buffer.
pub open spec fn heatmap(buffer: Seq<u8>) -> Seq<u8> {
    Seq::new(
        (buffer.len() / 4 * 4) as nat,
        |k: int|
            if k % 4 == 3 {
                255u8
            } else {
                heat(pixel_error_at(buffer, k / 4)) as u8
            },
    )
}

/// The absolute difference of two bytes.
pub open spec fn byte_distance(a: u8, b: u8) -> u8 {
    if a <= b {
        (b - a) as u8
    } else {
        (a - b) as u8
    }
}

/// The channel-wise absolute difference of two images.
pub open spec fn difference_image(source: Seq<u8>, drawing: Seq<u8>) -> Seq<u8> {
    Seq::new(source.len(), |k: int| byte_distance(source[k], drawing[k]))
}

/// No pixel has an error above [`MAX_ERROR_PER_PIXEL`], and the error of a
/// pixel without differences is zero.
pub proof fn lemma_pixel_error_bounds(re: u8, ge: u8, be: u8)
    ensures
        0 <= pixel_error(re as int, ge as int, be as int) <= MAX_ERROR_PER_PIXEL,
        re == 0 && ge == 0 && be == 0 ==> pixel_error(re as int, ge as int, be as int) == 0,
        is_sqrt_floor(
            (re * re + ge * ge + be * be) * (ERROR_SCALE * ERROR_SCALE),
            pixel_error(re as int, ge as int, be as int),
        ),
{
    let squares: int = re * re + ge * ge + be * be;
    assert(0 <= squares <= 195_075) by (nonlinear_arith)
        requires
            squares == re * re + ge * ge + be * be,
            0 <= re <= 255,
            0 <= ge <= 255,
            0 <= be <= 255,
    ;
    let scaled: int = squares * (ERROR_SCALE * ERROR_SCALE);
    assert(0 <= scaled <= 195_075_000_000) by (nonlinear_arith)
        requires
            scaled == squares * 1_000_000,
            0 <= squares <= 195_075,
    ;
    let witness = lemma_sqrt_floor_exists(scaled);
    assert(is_sqrt_floor(195_075_000_000, 441_672));
    lemma_sqrt_floor_ordered(scaled, witness, 195_075_000_000, 441_672);
    if re == 0 && ge == 0 && be == 0 {
        assert(squares == 0) by (nonlinear_arith)
            requires
                squares == re * re + ge * ge + be * be,
                re == 0,
                ge == 0,
                be == 0,
        ;
        assert(is_sqrt_floor(0, 0));
        lemma_sqrt_floor_unique(0, 0);
    }
}

/// The error of the first `pixels` pixels lies between zero and the
/// largest error of that many pixels.
pub proof fn lemma_error_sum_bounds(buffer: Seq<u8>, pixels: nat)
    ensures
        0 <= error_sum(buffer, pixels) <= MAX_ERROR_PER_PIXEL * pixels,
    decreases pixels,
{
    if pixels > 0 {
        lemma_error_sum_bounds(buffer, (pixels - 1) as nat);
        lemma_pixel_error_bounds(
            buffer[4 * (pixels - 1)],
            buffer[4 * (pixels - 1) + 1],
            buffer[4 * (pixels - 1) + 2],
        );
        assert(MAX_ERROR_PER_PIXEL * (pixels - 1) + MAX_ERROR_PER_PIXEL == MAX_ERROR_PER_PIXEL
            * pixels) by (nonlinear_arith);
    }
}

/// Computes [`pixel_error`] for the differences of one pixel.
pub fn pixel_distance(re: u8, ge: u8, be: u8) -> (distance: u64)
    ensures
        distance == pixel_error(re as int, ge as int, be as int),
        distance <= MAX_ERROR_PER_PIXEL,
{
    proof {
        lemma_pixel_error_bounds(re, ge, be);
    }
    let r: u64 = re as u64;
    let g: u64 = ge as u64;
    let b: u64 = be as u64;
    assert(r * r + g * g + b * b <= 195_075) by (nonlinear_arith)
        requires
            0 <= r <= 255,
            0 <= g <= 255,
            0 <= b <= 255,
    ;
    let squares: u64 = r * r + g * g + b * b;
    let unit: u64 = ERROR_SCALE * ERROR_SCALE;
    assert(squares * unit <= 195_075_000_000) by (nonlinear_arith)
        requires
            squares <= 195_075,
            unit == 1_000_000,
    ;
    integer_sqrt(squares * unit)
}

/// Reduces the buffer that the difference pass wrote, four absolute
/// channel differences per pixel, to the scalar error and the heatmap: the
/// error is the sum of the pixels' Euclidean distances over red, green and
/// blue, and the heatmap has one opaque gray pixel per pixel, the brighter
/// the smaller its error.
pub fn calculate_error_from_gpu(error_buffer: &Vec<u8>) -> (result: (u128, Vec<u8>))
    ensures
        result.0 == total_error(error_buffer@),
        result.1@ == heatmap(error_buffer@),
{
    let pixels: usize = error_buffer.len() / 4;
    let mut error_heatmap: Vec<u8> = Vec::new();
    let mut error: u128 = 0;
    let mut pixel: usize = 0;
    while pixel < pixels
        invariant
            pixel <= pixels,
            pixels == error_buffer@.len() / 4,
            error_buffer@.len() <= usize::MAX,
            error == error_sum(error_buffer@, pixel as nat),
            error_heatmap@.len() == 4 * pixel,
            forall|k: int|
                0 <= k < error_heatmap@.len() ==> #[trigger] error_heatmap@[k] == heatmap(
                    error_buffer@,
                )[k],
        decreases pixels - pixel,
    {
        proof {
            lemma_error_sum_bounds(error_buffer@, pixel as nat);
            assert(MAX_ERROR_PER_PIXEL * pixel <= MAX_ERROR_PER_PIXEL * usize::MAX)
                by (nonlinear_arith)
                requires
                    pixel <= usize::MAX,
            ;
        }
        let distance: u64 = pixel_distance(
            error_buffer[4 * pixel],
            error_buffer[4 * pixel + 1],
            error_buffer[4 * pixel + 2],
        );
        error = error + distance as u128;
        let err_color: u8 = (255 * (MAX_ERROR_PER_PIXEL - distance) / MAX_ERROR_PER_PIXEL) as u8;
        error_heatmap.push(err_color);
        error_heatmap.push(err_color);
        error_heatmap.push(err_color);
        error_heatmap.push(255);
        pixel += 1;
    }
    assert(error_heatmap@ =~= heatmap(error_buffer@));
    (error, error_heatmap)
}

/// The channel-wise absolute difference of the target image and a
/// rendered drawing: what the difference pass computes.
pub fn absolute_difference(source_bytes: &Vec<u8>, drawing_bytes: &Vec<u8>) -> (difference: Vec<
    u8,
>)
    requires
        source_bytes@.len() == drawing_bytes@.len(),
    ensures
        difference@ == difference_image(source_bytes@, drawing_bytes@),
{
    let n: usize = source_bytes.len();
    let mut difference: Vec<u8> = Vec::new();
    let mut k: usize = 0;
    while k < n
        invariant
            k <= n,
            n == source_bytes@.len(),
            n == drawing_bytes@.len(),
            difference@.len() == k,
            forall|j: int|
                0 <= j < k ==> #[trigger] difference@[j] == byte_distance(
                    source_bytes@[j],
                    drawing_bytes@[j],
                ),
        decreases n - k,
    {
        let a: u8 = source_bytes[k];
        let b: u8 = drawing_bytes[k];
        difference.push(if a <= b { b - a } else { a - b });
        k += 1;
    }
    assert(difference@ =~= difference_image(source_bytes@, drawing_bytes@));
    difference
}

/// Computes the scalar error twice: from the two images themselves, and
/// from the buffer that the difference pass wrote for them. The two agree
/// where that buffer holds the images' absolute differences.
pub fn check_error_calcs(
    source_bytes: &Vec<u8>,
    drawing_bytes: &Vec<u8>,
    error_bytes: &Vec<u8>,
) -> (errors: (u128, u128))
    requires
        source_bytes@.len() == drawing_bytes@.len(),
        source_bytes@.len() == error_bytes@.len(),
    ensures
        errors.0 == total_error(difference_image(source_bytes@, drawing_bytes@)),
        errors.1 == total_error(error_bytes@),
        error_bytes@ == difference_image(source_bytes@, drawing_bytes@) ==> errors.0 == errors.1,
{
    let difference: Vec<u8> = absolute_difference(source_bytes, drawing_bytes);
    let error1: u128 = calculate_error_from_gpu(&difference).0;
    let error2: u128 = calculate_error_from_gpu(error_bytes).0;
    (error1, error2)
}

} // verus!
