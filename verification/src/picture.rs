//! Screen pictures: their layout in memory, the conversions that encoders ask
//! for, and the fingerprint by which an unchanged screen is noticed.
use crate::error::EncodeError;
use vstd::prelude::*;

verus! {

/// A picture of the screen, four bytes a pixel: blue, green, red and alpha.
#[derive(Clone, Copy)]
pub struct BgraFrame<'a> {
    /// Pixels in a row.
    pub width: u32,
    /// Rows.
    pub height: u32,
    /// The pixels, row by row.
    pub data: &'a [u8],
}

impl<'a> BgraFrame<'a> {
    /// The number of bytes that the dimensions ask for.
    pub open spec fn expected(&self) -> int {
        self.width * self.height * 4
    }

    /// The size of such a frame is a number that the machine can hold.
    pub open spec fn addressable(&self) -> bool {
        self.expected() <= usize::MAX
    }

    /// The data has the size that the dimensions ask for.
    pub open spec fn well_sized(&self) -> bool {
        self.data@.len() == self.expected()
    }
}

/// Accepts a frame whose data has the size that its dimensions ask for.
pub fn validate_frame(frame: BgraFrame<'_>) -> (valid: Result<(), EncodeError>)
    requires
        frame.addressable(),
    ensures
        frame.well_sized() ==> valid == Ok::<(), EncodeError>(()),
        !frame.well_sized() ==> valid == Err::<(), EncodeError>(
            (EncodeError::FrameSize {
                actual: frame.data@.len() as usize,
                expected: frame.expected() as usize,
            }),
        ),
{
    proof {
        let area = frame.width * frame.height;
        assert(area >= 0) by (nonlinear_arith)
            requires
                area == frame.width * frame.height,
        ;
        assert(frame.width as usize as int == frame.width);
        assert(frame.height as usize as int == frame.height);
    }
    let expected: usize = frame.width as usize * frame.height as usize * 4;
    if frame.data.len() != expected {
        return Err(EncodeError::FrameSize { actual: frame.data.len(), expected });
    }
    Ok(())
}

/// The number of whole pixels that fit both buffers.
pub open spec fn common_pixels(bgra_len: nat, rgb_len: nat) -> int {
    if bgra_len as int / 4 <= rgb_len as int / 3 {
        bgra_len as int / 4
    } else {
        rgb_len as int / 3
    }
}

/// An RGB buffer after the pixels of a BGRA buffer were put into it: as many
/// whole pixels as fit both, without alpha and with red first. What lies behind
/// them in the buffer stays.
pub open spec fn rgb_over(bgra: Seq<u8>, rgb: Seq<u8>) -> Seq<u8> {
    Seq::new(
        rgb.len(),
        |i: int|
            if i < common_pixels(bgra.len(), rgb.len()) * 3 {
                bgra[i / 3 * 4 + 2 - i % 3]
            } else {
                rgb[i]
            },
    )
}

/// The packed RGB form of a BGRA picture.
pub open spec fn packed_rgb(bgra: Seq<u8>) -> Seq<u8> {
    Seq::new((bgra.len() as int / 4 * 3) as nat, |i: int| bgra[i / 3 * 4 + 2 - i % 3])
}

/// Repacks BGRA pixels as RGB, dropping alpha and swapping red and blue.
pub fn bgra_to_rgb(bgra: &[u8], rgb: &mut [u8])
    ensures
        final(rgb)@ == rgb_over(bgra@, old(rgb)@),
{
    let available: usize = bgra.len();
    let pixels: usize = if available / 4 <= rgb.len() / 3 {
        available / 4
    } else {
        rgb.len() / 3
    };
    let ghost before = rgb@;
    let mut i: usize = 0;
    while i < pixels
        invariant
            i <= pixels,
            available == bgra@.len(),
            pixels == common_pixels(bgra@.len(), before.len()),
            before == old(rgb)@,
            rgb@.len() == before.len(),
            forall|k: int|
                0 <= k < before.len() ==> #[trigger] rgb@[k] == (if k < i * 3 {
                    bgra@[k / 3 * 4 + 2 - k % 3]
                } else {
                    before[k]
                }),
        decreases pixels - i,
    {
        rgb[i * 3] = bgra[i * 4 + 2];
        rgb[i * 3 + 1] = bgra[i * 4 + 1];
        rgb[i * 3 + 2] = bgra[i * 4];
        i += 1;
    }
    assert(rgb@ =~= rgb_over(bgra@, before));
}

// ---------------------------------------------------------------------------
// NV12: one byte of luma for each pixel, then, for each block of two by two
// pixels, two bytes of chroma.
// ---------------------------------------------------------------------------

/// The luma of a pixel, from its red, green and blue.
pub open spec fn luma(r: int, g: int, b: int) -> int {
    (66 * r + 129 * g + 25 * b + 128) / 256 + 16
}

/// The blue difference of a block, from the sums of red, green and blue over its
/// four pixels, rounded to the nearest.
pub open spec fn chroma_u(r: int, g: int, b: int) -> int {
    (112 * b - 38 * r - 74 * g + 512) / 1024 + 128
}

/// The red difference of a block, from the sums of red, green and blue over its
/// four pixels, rounded to the nearest.
pub open spec fn chroma_v(r: int, g: int, b: int) -> int {
    (112 * r - 94 * g - 18 * b + 512) / 1024 + 128
}

/// A colour byte of a pixel: 0 is blue, 1 green and 2 red.
pub open spec fn channel(bgra: Seq<u8>, pixel: int, which: int) -> int {
    bgra[pixel * 4 + which] as int
}

/// The sum of a colour over the two by two pixels whose first one is `pixel`.
pub open spec fn block_sum(bgra: Seq<u8>, width: int, pixel: int, which: int) -> int {
    channel(bgra, pixel, which) + channel(bgra, pixel + 1, which) + channel(
        bgra,
        pixel + width,
        which,
    ) + channel(bgra, pixel + width + 1, which)
}

/// The luma byte of a pixel of a picture.
pub open spec fn luma_at(bgra: Seq<u8>, pixel: int) -> int {
    luma(channel(bgra, pixel, 2), channel(bgra, pixel, 1), channel(bgra, pixel, 0))
}

/// The chroma byte at `column` of the chroma row `row`: even columns hold the
/// blue difference of a block, odd ones the red difference of the same block.
pub open spec fn chroma_at(bgra: Seq<u8>, width: int, row: int, column: int) -> int {
    let pixel = 2 * row * width + column / 2 * 2;
    let r = block_sum(bgra, width, pixel, 2);
    let g = block_sum(bgra, width, pixel, 1);
    let b = block_sum(bgra, width, pixel, 0);
    if column % 2 == 0 {
        chroma_u(r, g, b)
    } else {
        chroma_v(r, g, b)
    }
}

/// The byte at `i` of the NV12 form of a picture.
pub open spec fn nv12_at(bgra: Seq<u8>, width: int, height: int, i: int) -> int {
    let area = width * height;
    if i < area {
        luma_at(bgra, i)
    } else {
        chroma_at(bgra, width, (i - area) / width, (i - area) % width)
    }
}

/// The NV12 form of a picture with even sides: the luma of each pixel, then the
/// chroma of each block, row by row.
pub open spec fn nv12_of(bgra: Seq<u8>, width: int, height: int) -> Seq<u8> {
    Seq::new(
        (width * height * 3 / 2) as nat,
        |i: int| nv12_at(bgra, width, height, i) as u8,
    )
}

/// The luma of a pixel.
fn luma_byte(r: u8, g: u8, b: u8) -> (y: u8)
    ensures
        y == luma(r as int, g as int, b as int),
{
    ((66 * r as u32 + 129 * g as u32 + 25 * b as u32 + 128) / 256 + 16) as u8
}

/// The two chroma bytes of a block, from the sums over its four pixels. The
/// numerators are kept positive by adding what the offset of 128 is worth before
/// the division.
fn chroma_bytes(r: i32, g: i32, b: i32) -> (uv: (u8, u8))
    requires
        0 <= r <= 1020,
        0 <= g <= 1020,
        0 <= b <= 1020,
    ensures
        uv.0 == chroma_u(r as int, g as int, b as int),
        uv.1 == chroma_v(r as int, g as int, b as int),
{
    let u: i32 = 112 * b - 38 * r - 74 * g + 512 + 131072;
    let v: i32 = 112 * r - 94 * g - 18 * b + 512 + 131072;
    ((u / 1024) as u8, (v / 1024) as u8)
}

/// A colour byte of a pixel.
fn channel_byte(bgra: &[u8], pixel: usize, which: usize) -> (value: i32)
    requires
        which < 3,
        pixel * 4 + 4 <= bgra.len(),
    ensures
        value == channel(bgra@, pixel as int, which as int),
        0 <= value <= 255,
{
    bgra[pixel * 4 + which] as i32
}

/// The sum of a colour over a block of two by two pixels.
fn block_total(bgra: &[u8], width: usize, pixel: usize, which: usize) -> (sum: i32)
    requires
        which < 3,
        (pixel + width + 1) * 4 + 4 <= bgra.len(),
    ensures
        sum == block_sum(bgra@, width as int, pixel as int, which as int),
        0 <= sum <= 1020,
{
    let top: i32 = channel_byte(bgra, pixel, which) + channel_byte(bgra, pixel + 1, which);
    let bottom: i32 = channel_byte(bgra, pixel + width, which) + channel_byte(
        bgra,
        pixel + width + 1,
        which,
    );
    top + bottom
}

/// A chroma row lies inside the buffer, and its blocks inside the picture.
proof fn lemma_chroma_row(width: int, height: int, row: int)
    requires
        0 <= width,
        0 <= row < height / 2,
        height % 2 == 0,
    ensures
        0 <= row * width,
        width * height + row * width + width <= width * height * 3 / 2,
        2 * row * width + 2 * width <= width * height,
        (row + 1) * width == row * width + width,
{
    assert(width * height == 2 * (width * (height / 2))) by (nonlinear_arith)
        requires
            height == 2 * (height / 2),
    ;
    assert(row * width + width == (row + 1) * width) by (nonlinear_arith);
    assert((row + 1) * width <= (height / 2) * width) by (nonlinear_arith)
        requires
            row + 1 <= height / 2,
            0 <= width,
    ;
    assert((height / 2) * width == width * (height / 2)) by (nonlinear_arith);
    assert(2 * row * width == 2 * (row * width)) by (nonlinear_arith);
    assert(0 <= row * width) by (nonlinear_arith)
        requires
            0 <= row,
            0 <= width,
    ;
}

/// Row and column of a chroma byte, from its place behind the luma.
proof fn lemma_chroma_place(width: int, row: int, column: int)
    requires
        0 <= column < width,
        0 <= row,
    ensures
        (row * width + column) / width == row,
        (row * width + column) % width == column,
{
    vstd::arithmetic::div_mod::lemma_fundamental_div_mod_converse(
        row * width + column,
        width,
        row,
        column,
    );
}

/// Brings a picture into NV12 form. The buffer may be longer than the form; what
/// lies behind it stays.
pub fn bgra_to_nv12(bgra: &[u8], width: usize, height: usize, nv12: &mut [u8])
    requires
        width % 2 == 0,
        height % 2 == 0,
        width * height * 4 <= bgra@.len(),
        width * height * 3 / 2 <= old(nv12)@.len(),
    ensures
        final(nv12)@ == nv12_of(bgra@, width as int, height as int) + old(nv12)@.skip(
            width * height * 3 / 2,
        ),
{
    let ghost before = nv12@;
    let ghost form = nv12_of(bgra@, width as int, height as int);
    let ghost size = width * height * 3 / 2;
    let available: usize = bgra.len();
    let room: usize = nv12.len();
    assert(0 <= width * height) by (nonlinear_arith);
    let area: usize = width * height;
    let mut i: usize = 0;
    while i < area
        invariant
            i <= area,
            area == width * height,
            available == bgra@.len(),
            area * 4 <= available,
            area <= size <= before.len(),
            form == nv12_of(bgra@, width as int, height as int),
            size == area * 3 / 2,
            form.len() == size,
            nv12@.len() == before.len(),
            forall|k: int| 0 <= k < i ==> #[trigger] nv12@[k] == form[k],
            forall|k: int| i <= k < nv12@.len() ==> #[trigger] nv12@[k] == before[k],
        decreases area - i,
    {
        let pixel: usize = i * 4;
        nv12[i] = luma_byte(bgra[pixel + 2], bgra[pixel + 1], bgra[pixel]);
        i += 1;
    }
    let mut row: usize = 0;
    let mut place: usize = area;
    assert(0 * width == 0) by (nonlinear_arith);
    while row < height / 2
        invariant
            row <= height / 2,
            width % 2 == 0,
            height % 2 == 0,
            area == width * height,
            available == bgra@.len(),
            room == before.len(),
            area * 4 <= available,
            size == area * 3 / 2,
            size <= before.len(),
            form == nv12_of(bgra@, width as int, height as int),
            form.len() == size,
            nv12@.len() == before.len(),
            place == area + row * width,
            forall|k: int| 0 <= k < place ==> #[trigger] nv12@[k] == form[k],
            forall|k: int| place <= k < nv12@.len() ==> #[trigger] nv12@[k] == before[k],
        decreases height / 2 - row,
    {
        proof {
            lemma_chroma_row(width as int, height as int, row as int);
        }
        let first: usize = (place - area) * 2;
        assert(first == 2 * row * width) by (nonlinear_arith)
            requires
                first == 2 * (row * width),
        ;
        let mut column: usize = 0;
        while column < width
            invariant
                column <= width,
                column % 2 == 0,
                width % 2 == 0,
                0 <= row < height / 2,
                area == width * height,
                available == bgra@.len(),
                room == before.len(),
                area * 4 <= available,
                size == area * 3 / 2,
                size <= before.len(),
                form == nv12_of(bgra@, width as int, height as int),
                form.len() == size,
                nv12@.len() == before.len(),
                place == area + row * width,
                first == 2 * row * width,
                place + width <= size,
                first + 2 * width <= area,
                forall|k: int| 0 <= k < place + column ==> #[trigger] nv12@[k] == form[k],
                forall|k: int|
                    place + column <= k < nv12@.len() ==> #[trigger] nv12@[k] == before[k],
            decreases width - column,
        {
            let pixel: usize = first + column;
            let r: i32 = block_total(bgra, width, pixel, 2);
            let g: i32 = block_total(bgra, width, pixel, 1);
            let b: i32 = block_total(bgra, width, pixel, 0);
            let (u, v) = chroma_bytes(r, g, b);
            nv12[place + column] = u;
            nv12[place + column + 1] = v;
            proof {
                lemma_chroma_place(width as int, row as int, column as int);
                lemma_chroma_place(width as int, row as int, column + 1);
                assert(form[place + column] == u);
                assert(form[place + column + 1] == v);
            }
            column += 2;
        }
        place += width;
        row += 1;
    }
    proof {
        assert(place == size) by (nonlinear_arith)
            requires
                place == width * height + (height / 2) * width,
                height % 2 == 0,
                size == width * height * 3 / 2,
        ;
        assert(nv12@ =~= form + before.skip(size));
    }
}

// ---------------------------------------------------------------------------
// Fingerprints.
// ---------------------------------------------------------------------------

/// The distance between two bytes of a picture that count for its fingerprint.
pub const SAMPLE_STEP: usize = 32;

/// The bytes of a picture that count for its fingerprint.
pub open spec fn samples(data: Seq<u8>) -> Seq<u8> {
    Seq::new(
        ((data.len() + SAMPLE_STEP - 1) / SAMPLE_STEP as int) as nat,
        |k: int| data[k * SAMPLE_STEP],
    )
}

/// The factor of the FNV-1a hash.
pub const FNV_PRIME: u64 = 0x0000_0100_0000_01b3;

/// The FNV-1a hash of no bytes.
pub const FNV_OFFSET: u64 = 0xcbf29ce484222325;

/// One step of the FNV-1a hash.
pub open spec fn fnv_step(hash: u64, byte: u8) -> u64 {
    (hash ^ byte as u64).wrapping_mul(FNV_PRIME)
}

/// The 64-bit FNV-1a hash of some bytes.
pub open spec fn fnv1a(bytes: Seq<u8>) -> u64
    decreases bytes.len(),
{
    if bytes.len() == 0 {
        FNV_OFFSET
    } else {
        fnv_step(fnv1a(bytes.drop_last()), bytes.last())
    }
}

/// The fingerprint of a picture: the FNV-1a hash of every thirty-second byte.
/// Cheap enough for every frame; a change that touches none of these bytes goes
/// unnoticed.
pub fn frame_hash(data: &[u8]) -> (hash: u64)
    ensures
        hash == fnv1a(samples(data@)),
{
    let total: usize = data.len();
    let ghost chosen = samples(data@);
    let mut hash: u64 = FNV_OFFSET;
    let mut i: usize = 0;
    let ghost mut taken: int = 0;
    assert(chosen.take(0) =~= Seq::<u8>::empty());
    while i < total
        invariant_except_break
            i == taken * SAMPLE_STEP,
        invariant
            total == data@.len(),
            chosen == samples(data@),
            0 <= taken <= chosen.len(),
            hash == fnv1a(chosen.take(taken)),
        ensures
            taken == chosen.len(),
        decreases total - i,
    {
        hash = (hash ^ data[i] as u64).wrapping_mul(FNV_PRIME);
        proof {
            assert(chosen.take(taken + 1).drop_last() =~= chosen.take(taken));
            assert(chosen.take(taken + 1).last() == data@[i as int]);
            taken = taken + 1;
        }
        if total - i <= SAMPLE_STEP {
            break;
        }
        i += SAMPLE_STEP;
    }
    assert(chosen.take(chosen.len() as int) =~= chosen);
    hash
}

// ---------------------------------------------------------------------------
// Laws.
// ---------------------------------------------------------------------------

/// A picture's RGB form fills a buffer made for it: nothing of what the buffer
/// held before shows through.
pub proof fn law_rgb_covers_the_buffer(bgra: Seq<u8>, rgb: Seq<u8>)
    requires
        bgra.len() % 4 == 0,
        rgb.len() == bgra.len() / 4 * 3,
    ensures
        rgb_over(bgra, rgb) == packed_rgb(bgra),
{
    assert(rgb_over(bgra, rgb) =~= packed_rgb(bgra));
}

/// Luma and chroma are rounded to the nearest: they differ from the exact value by
/// at most a half.
pub proof fn law_nv12_rounds_to_nearest(r: int, g: int, b: int)
    ensures
        -128 <= 256 * (luma(r, g, b) - 16) - (66 * r + 129 * g + 25 * b) <= 128,
        -512 <= 1024 * (chroma_u(r, g, b) - 128) - (112 * b - 38 * r - 74 * g) <= 512,
        -512 <= 1024 * (chroma_v(r, g, b) - 128) - (112 * r - 94 * g - 18 * b) <= 512,
{
}

/// Two pictures that differ in alpha alone.
pub open spec fn same_colours(a: Seq<u8>, b: Seq<u8>) -> bool {
    &&& a.len() == b.len()
    &&& forall|i: int| 0 <= i < a.len() && i % 4 != 3 ==> #[trigger] a[i] == b[i]
}

/// Alpha does not reach an encoder: pictures that differ in alpha alone have the
/// same RGB form and the same NV12 form.
pub proof fn law_alpha_is_dropped(a: Seq<u8>, b: Seq<u8>, width: int, height: int)
    requires
        same_colours(a, b),
        0 <= width,
        0 <= height,
        width % 2 == 0,
        height % 2 == 0,
        width * height * 4 <= a.len(),
    ensures
        packed_rgb(a) == packed_rgb(b),
        nv12_of(a, width, height) == nv12_of(b, width, height),
{
    assert forall|i: int| 0 <= i < packed_rgb(a).len() implies packed_rgb(a)[i] == packed_rgb(
        b,
    )[i] by {
        assert(a[i / 3 * 4 + 2 - i % 3] == b[i / 3 * 4 + 2 - i % 3]);
    }
    assert(packed_rgb(a) =~= packed_rgb(b));
    assert forall|pixel: int, which: int|
        0 <= pixel && pixel * 4 + 4 <= a.len() && 0 <= which < 3 implies #[trigger] channel(
        a,
        pixel,
        which,
    ) == channel(b, pixel, which) by {
        assert(a[pixel * 4 + which] == b[pixel * 4 + which]);
    }
    let area = width * height;
    assert forall|i: int| 0 <= i < area * 3 / 2 implies nv12_at(a, width, height, i) == nv12_at(
        b,
        width,
        height,
        i,
    ) by {
        if i >= area {
            lemma_chroma_block_inside(width, height, i - area);
        }
    }
    assert(nv12_of(a, width, height) =~= nv12_of(b, width, height));
}

/// The block of a chroma byte lies inside the picture.
proof fn lemma_chroma_block_inside(width: int, height: int, place: int)
    requires
        0 < width,
        0 <= height,
        width % 2 == 0,
        height % 2 == 0,
        0 <= place < width * height * 3 / 2 - width * height,
    ensures
        0 <= place / width < height / 2,
        0 <= place % width < width,
        0 <= 2 * (place / width) * width + place % width / 2 * 2,
        2 * (place / width) * width + place % width / 2 * 2 + width + 1 < width * height,
{
    let row = place / width;
    let column = place % width;
    vstd::arithmetic::div_mod::lemma_fundamental_div_mod(place, width);
    vstd::arithmetic::div_mod::lemma_mod_bound(place, width);
    assert(width * height == 2 * (width * (height / 2))) by (nonlinear_arith)
        requires
            height == 2 * (height / 2),
    ;
    assert(row < height / 2) by (nonlinear_arith)
        requires
            place == width * row + column,
            0 <= column,
            place < width * (height / 2),
            0 < width,
    ;
    assert(0 <= row) by (nonlinear_arith)
        requires
            place == width * row + column,
            column < width,
            0 <= place,
            0 < width,
    ;
    lemma_chroma_row(width, height, row);
}

/// Every byte of the NV12 form is in the range of studio video: from 16 to 235
/// for luma, from 16 to 240 for chroma.
pub proof fn law_nv12_stays_in_range(bgra: Seq<u8>, width: int, height: int, i: int)
    requires
        0 <= width,
        0 <= height,
        width % 2 == 0,
        height % 2 == 0,
        width * height * 4 <= bgra.len(),
        0 <= i < width * height * 3 / 2,
    ensures
        i < width * height ==> 16 <= nv12_of(bgra, width, height)[i] <= 235,
        width * height <= i ==> 16 <= nv12_of(bgra, width, height)[i] <= 240,
{
}

/// A picture without colour has none in its NV12 form: where red, green and blue
/// are equal in all pixels, every chroma byte is 128.
pub proof fn law_grey_has_no_chroma(bgra: Seq<u8>, width: int, height: int, i: int)
    requires
        0 <= width,
        0 <= height,
        width % 2 == 0,
        height % 2 == 0,
        width * height * 4 <= bgra.len(),
        forall|p: int|
            0 <= p < width * height ==> #[trigger] channel(bgra, p, 0) == channel(bgra, p, 1)
                && channel(bgra, p, 1) == channel(bgra, p, 2),
        width * height <= i < width * height * 3 / 2,
    ensures
        nv12_of(bgra, width, height)[i] == 128,
{
    let place = i - width * height;
    lemma_chroma_block_inside(width, height, place);
    let pixel = 2 * (place / width) * width + place % width / 2 * 2;
    assert(channel(bgra, pixel, 0) == channel(bgra, pixel, 1));
    assert(channel(bgra, pixel + 1, 0) == channel(bgra, pixel + 1, 1));
    assert(channel(bgra, pixel + width, 0) == channel(bgra, pixel + width, 1));
    assert(channel(bgra, pixel + width + 1, 0) == channel(bgra, pixel + width + 1, 1));
}

/// Multiplying by the factor of the hash loses nothing, as the factor is odd.
proof fn lemma_multiply_injective(a: u64, b: u64)
    requires
        a.wrapping_mul(FNV_PRIME) == b.wrapping_mul(FNV_PRIME),
    ensures
        a == b,
{
    let m: int = 0x1_0000_0000_0000_0000;
    let p: int = FNV_PRIME as int;
    let x = a * p;
    let y = b * p;
    vstd::arithmetic::div_mod::lemma_fundamental_div_mod(x, m);
    vstd::arithmetic::div_mod::lemma_fundamental_div_mod(y, m);
    let t = x / m - y / m;
    assert(x - y == m * t) by (nonlinear_arith)
        requires
            x == m * (x / m) + x % m,
            y == m * (y / m) + y % m,
            x % m == y % m,
            t == x / m - y / m,
    ;
    let d = a - b;
    assert(x - y == d * p) by (nonlinear_arith)
        requires
            x == a * p,
            y == b * p,
            d == a - b,
    ;
    // The inverse of the factor modulo two to the sixty-fourth.
    let inverse: int = 0xce965057aff6957b;
    let k: int = 887285111055;
    assert(p * inverse == 1 + m * k);
    let w = t * inverse - d * k;
    assert(d == m * w) by (nonlinear_arith)
        requires
            d * p == m * t,
            p * inverse == 1 + m * k,
            w == t * inverse - d * k,
    {
        assert(d * p * inverse == m * t * inverse);
        assert(d * (p * inverse) == d + m * (d * k));
    }
    assert(w == 0) by (nonlinear_arith)
        requires
            d == m * w,
            -m < d < m,
            m > 0,
    ;
}

/// A step of the hash keeps different hashes apart, and different bytes too.
proof fn lemma_step_injective(a: u64, b: u64, byte: u8, other: u8)
    ensures
        fnv_step(a, byte) == fnv_step(b, byte) ==> a == b,
        fnv_step(a, byte) == fnv_step(a, other) ==> byte == other,
{
    let byte64 = byte as u64;
    let other64 = other as u64;
    if fnv_step(a, byte) == fnv_step(b, byte) {
        lemma_multiply_injective(a ^ byte64, b ^ byte64);
        assert(a ^ byte64 == b ^ byte64 ==> a == b) by (bit_vector);
    }
    if fnv_step(a, byte) == fnv_step(a, other) {
        lemma_multiply_injective(a ^ byte64, a ^ other64);
        assert(a ^ byte64 == a ^ other64 ==> byte64 == other64) by (bit_vector);
    }
}

/// Strings that differ in one byte have different hashes.
proof fn lemma_one_byte_shows(a: Seq<u8>, b: Seq<u8>, at: int)
    requires
        a.len() == b.len(),
        0 <= at < a.len(),
        a[at] != b[at],
        forall|i: int| 0 <= i < a.len() && i != at ==> a[i] == b[i],
    ensures
        fnv1a(a) != fnv1a(b),
    decreases a.len(),
{
    let last = a.len() - 1;
    if at == last {
        assert(a.drop_last() =~= b.drop_last());
        lemma_step_injective(fnv1a(a.drop_last()), 0, a.last(), b.last());
    } else {
        lemma_one_byte_shows(a.drop_last(), b.drop_last(), at);
        lemma_step_injective(fnv1a(a.drop_last()), fnv1a(b.drop_last()), a.last(), 0);
    }
}

/// A change that touches no sampled byte goes unnoticed: pictures of one size
/// that agree in every thirty-second byte have the same fingerprint.
pub proof fn law_only_samples_count(a: Seq<u8>, b: Seq<u8>)
    requires
        a.len() == b.len(),
        forall|i: int| 0 <= i < a.len() && i % 32 == 0 ==> #[trigger] a[i] == b[i],
    ensures
        fnv1a(samples(a)) == fnv1a(samples(b)),
{
    assert forall|k: int| 0 <= k < samples(a).len() implies samples(a)[k] == samples(b)[k] by {
        assert(a[k * 32] == b[k * 32]);
    }
    assert(samples(a) =~= samples(b));
}

/// A change of a single sampled byte is always noticed: pictures of one size
/// that differ in one such byte, and in no other, have different fingerprints.
pub proof fn law_one_sampled_change_is_noticed(a: Seq<u8>, b: Seq<u8>, at: int)
    requires
        a.len() == b.len(),
        0 <= at < a.len(),
        at % 32 == 0,
        a[at] != b[at],
        forall|i: int|
            0 <= i < a.len() && i % 32 == 0 && i != at ==> #[trigger] a[i] == b[i],
    ensures
        fnv1a(samples(a)) != fnv1a(samples(b)),
{
    assert forall|k: int| 0 <= k < samples(a).len() && k != at / 32 implies samples(a)[k]
        == samples(b)[k] by {
        assert(a[k * 32] == b[k * 32]);
    }
    lemma_one_byte_shows(samples(a), samples(b), at / 32);
}

// ---------------------------------------------------------------------------
// What the conversions and the fingerprint are, byte by byte.
// ---------------------------------------------------------------------------

/// A frame is accepted exactly where its data is as many rows as it is high, each of
/// them as many pixels as it is wide, each pixel of four bytes.
pub proof fn law_frame_is_rows_of_pixels(frame: BgraFrame<'_>, row_bytes: int)
    requires
        row_bytes == 4 * frame.width,
    ensures
        frame.expected() == frame.height * row_bytes,
        frame.well_sized() <==> frame.data@.len() == frame.height * row_bytes,
{
    assert(frame.width * frame.height * 4 == frame.height * (4 * frame.width)) by (nonlinear_arith);
}

/// Each pixel keeps its place and its colour: red, green and blue of a pixel that both
/// buffers hold stand at the pixel's place in the RGB buffer, in this order.
pub proof fn law_rgb_holds_every_pixel(bgra: Seq<u8>, rgb: Seq<u8>, pixel: int)
    requires
        0 <= pixel,
        pixel * 4 + 4 <= bgra.len(),
    ensures
        packed_rgb(bgra).len() == bgra.len() / 4 * 3,
        packed_rgb(bgra)[pixel * 3] == bgra[pixel * 4 + 2],
        packed_rgb(bgra)[pixel * 3 + 1] == bgra[pixel * 4 + 1],
        packed_rgb(bgra)[pixel * 3 + 2] == bgra[pixel * 4],
        rgb_over(bgra, rgb).len() == rgb.len(),
        pixel * 3 + 3 <= rgb.len() ==> {
            &&& rgb_over(bgra, rgb)[pixel * 3] == bgra[pixel * 4 + 2]
            &&& rgb_over(bgra, rgb)[pixel * 3 + 1] == bgra[pixel * 4 + 1]
            &&& rgb_over(bgra, rgb)[pixel * 3 + 2] == bgra[pixel * 4]
        },
{
}

/// Repacking writes whole pixels only: a byte of the RGB buffer stays where its pixel
/// does not fit the buffer, and where the picture has no such pixel.
pub proof fn law_rgb_leaves_the_rest(bgra: Seq<u8>, rgb: Seq<u8>, i: int)
    requires
        0 <= i < rgb.len(),
        i / 3 * 3 + 3 > rgb.len() || i / 3 * 4 + 4 > bgra.len(),
    ensures
        rgb_over(bgra, rgb)[i] == rgb[i],
{
}

/// Luma follows its pixel: the byte at a pixel's place is the weighted sum of this
/// pixel's red, green and blue, in parts of 256 and rounded to the nearest, above 16.
pub proof fn law_luma_follows_its_pixel(
    bgra: Seq<u8>,
    width: int,
    height: int,
    column: int,
    row: int,
)
    requires
        0 <= column < width,
        0 <= row < height,
        width * height * 4 <= bgra.len(),
    ensures
        2 * nv12_of(bgra, width, height).len() <= 3 * (width * height) < 2 * nv12_of(
            bgra,
            width,
            height,
        ).len() + 2,
        ({
            let pixel = row * width + column;
            let y = nv12_of(bgra, width, height)[pixel];
            let sum = 66 * bgra[pixel * 4 + 2] + 129 * bgra[pixel * 4 + 1] + 25 * bgra[pixel * 4];
            &&& 0 <= pixel < width * height
            &&& 256 * (y - 16) <= sum + 128 < 256 * (y - 16) + 256
        }),
{
    let pixel = row * width + column;
    assert(0 <= pixel < width * height) by (nonlinear_arith)
        requires
            0 <= column < width,
            0 <= row < height,
            pixel == row * width + column,
    ;
    assert(nv12_of(bgra, width, height)[pixel] == nv12_at(bgra, width, height, pixel) as u8);
}

/// Chroma follows its pixels: the pair of bytes in chroma row `row`, at an even column,
/// is the blue and the red difference of the four pixels in that column and the next,
/// in the two rows of the picture that the chroma row stands for. Both are rounded to
/// the nearest, around 128.
pub proof fn law_chroma_follows_its_pixels(
    bgra: Seq<u8>,
    width: int,
    height: int,
    column: int,
    row: int,
)
    requires
        0 <= column < width,
        0 <= row < height / 2,
        column % 2 == 0,
        width % 2 == 0,
        height % 2 == 0,
        width * height * 4 <= bgra.len(),
    ensures
        ({
            let a = ((2 * row) * width + column) * 4;
            let b = ((2 * row) * width + column + 1) * 4;
            let c = ((2 * row + 1) * width + column) * 4;
            let d = ((2 * row + 1) * width + column + 1) * 4;
            let blue = bgra[a] + bgra[b] + bgra[c] + bgra[d];
            let green = bgra[a + 1] + bgra[b + 1] + bgra[c + 1] + bgra[d + 1];
            let red = bgra[a + 2] + bgra[b + 2] + bgra[c + 2] + bgra[d + 2];
            let at = width * height + row * width + column;
            let u = nv12_of(bgra, width, height)[at];
            let v = nv12_of(bgra, width, height)[at + 1];
            &&& 0 <= a && d + 4 <= bgra.len()
            &&& 0 <= at && at + 2 <= nv12_of(bgra, width, height).len()
            &&& 1024 * (u - 128) <= 112 * blue - 38 * red - 74 * green + 512 < 1024 * (u - 128)
                + 1024
            &&& 1024 * (v - 128) <= 112 * red - 94 * green - 18 * blue + 512 < 1024 * (v - 128)
                + 1024
        }),
{
    lemma_chroma_row(width, height, row);
    lemma_chroma_place(width, row, column);
    lemma_chroma_place(width, row, column + 1);
    assert((2 * row + 1) * width == (2 * row) * width + width) by (nonlinear_arith);
    let form = nv12_of(bgra, width, height);
    let at = width * height + row * width + column;
    assert(form[at] == nv12_at(bgra, width, height, at) as u8);
    assert(form[at + 1] == nv12_at(bgra, width, height, at + 1) as u8);
    let pixel = 2 * row * width + column;
    assert forall|which: int| 0 <= which < 3 implies 0 <= #[trigger] block_sum(
        bgra,
        width,
        pixel,
        which,
    ) <= 1020 by {}
    assert(0 <= nv12_at(bgra, width, height, at) <= 255);
    assert(0 <= nv12_at(bgra, width, height, at + 1) <= 255);
}

/// The picture holds one colour in a block of two by two pixels, whose first pixel is in
/// this column and row.
pub open spec fn one_colour(
    bgra: Seq<u8>,
    width: int,
    column: int,
    row: int,
    red: u8,
    green: u8,
    blue: u8,
) -> bool {
    forall|x: int, y: int|
        column <= x < column + 2 && row <= y < row + 2 ==> {
            &&& #[trigger] bgra[(y * width + x) * 4] == blue
            &&& bgra[(y * width + x) * 4 + 1] == green
            &&& bgra[(y * width + x) * 4 + 2] == red
        }
}

/// A block of one colour has that colour's chroma, whatever the rest of the picture
/// holds.
pub proof fn law_block_of_one_colour_keeps_it(
    bgra: Seq<u8>,
    width: int,
    height: int,
    column: int,
    row: int,
    red: u8,
    green: u8,
    blue: u8,
)
    requires
        0 <= column < width,
        0 <= row < height,
        column % 2 == 0,
        row % 2 == 0,
        width % 2 == 0,
        height % 2 == 0,
        width * height * 4 <= bgra.len(),
        one_colour(bgra, width, column, row, red, green, blue),
    ensures
        ({
            let at = width * height + row / 2 * width + column;
            let u = nv12_of(bgra, width, height)[at];
            let v = nv12_of(bgra, width, height)[at + 1];
            &&& 256 * (u - 128) <= 112 * blue - 38 * red - 74 * green + 128 < 256 * (u - 128) + 256
            &&& 256 * (v - 128) <= 112 * red - 94 * green - 18 * blue + 128 < 256 * (v - 128) + 256
        }),
{
    law_chroma_follows_its_pixels(bgra, width, height, column, row / 2);
    assert(2 * (row / 2) == row);
    assert(bgra[(row * width + column) * 4] == blue);
    assert(bgra[(row * width + (column + 1)) * 4] == blue);
    assert(bgra[((row + 1) * width + column) * 4] == blue);
    assert(bgra[((row + 1) * width + (column + 1)) * 4] == blue);
}

/// The hash takes in its bytes one by one, however many there were before: a byte more
/// is an exclusive or with the byte, then a multiplication modulo two to the
/// sixty-fourth.
pub proof fn law_hash_takes_in_byte_by_byte(bytes: Seq<u8>, byte: u8)
    ensures
        fnv1a(Seq::empty()) == 0xcbf2_9ce4_8422_2325,
        fnv1a(bytes.push(byte)) == (fnv1a(bytes) ^ byte as u64) * 0x100_0000_01b3
            % 0x1_0000_0000_0000_0000,
{
    assert(bytes.push(byte).drop_last() =~= bytes);
    assert(bytes.push(byte).last() == byte);
}

/// The fingerprint takes in the first of every thirty-two bytes, however long the
/// picture is: up to thirty-two bytes more, behind whole groups of thirty-two, are one
/// more step of the hash, with the first of them.
pub proof fn law_fingerprint_takes_in_group_by_group(data: Seq<u8>, group: Seq<u8>)
    requires
        data.len() % 32 == 0,
        0 < group.len() <= 32,
    ensures
        fnv1a(samples(Seq::empty())) == 0xcbf2_9ce4_8422_2325,
        fnv1a(samples(data + group)) == (fnv1a(samples(data)) ^ group[0] as u64)
            * 0x100_0000_01b3 % 0x1_0000_0000_0000_0000,
{
    assert(samples(Seq::empty()) =~= Seq::empty());
    assert(samples(data + group) =~= samples(data).push(group[0]));
    law_hash_takes_in_byte_by_byte(samples(data), group[0]);
}

} // verus!
