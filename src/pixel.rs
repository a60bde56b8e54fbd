//! Conversion of interleaved 8-bit RGB frames to packed RGB565 pixels, and
//! the byte layout in which packed pixels and splash content reach the display.
use vstd::prelude::*;

verus! {

/// Number of leading bytes of the splash asset that hold its image-file header.
pub const SPLASH_HEADER_LEN: usize = 138;

/// The packed RGB565 value of one pixel: the high five bits of red, the high
/// six bits of green and the high five bits of blue, from high to low.
pub open spec fn rgb565(r: u8, g: u8, b: u8) -> u16 {
    (((r as u16) >> 3u16) << 11u16) | (((g as u16) >> 2u16) << 5u16) | ((b as u16) >> 3u16)
}

/// The red field of a packed pixel.
pub open spec fn red_field(p: u16) -> u16 {
    p >> 11u16
}

/// The green field of a packed pixel.
pub open spec fn green_field(p: u16) -> u16 {
    (p >> 5u16) & 0x3fu16
}

/// The blue field of a packed pixel.
pub open spec fn blue_field(p: u16) -> u16 {
    p & 0x1fu16
}

/// The packed pixels of a raw frame: one per consecutive RGB triplet, in order.
pub open spec fn packed_frame(frame: Seq<u8>) -> Seq<u16> {
    Seq::new(
        frame.len() / 3,
        |i: int| rgb565(frame[3 * i], frame[3 * i + 1], frame[3 * i + 2]),
    )
}

/// The little-endian bytes of a sequence of packed pixels, two per pixel.
pub open spec fn le_bytes(pixels: Seq<u16>) -> Seq<u8> {
    Seq::new(
        2 * pixels.len(),
        |k: int|
            if k % 2 == 0 {
                (pixels[k / 2] & 0xffu16) as u8
            } else {
                (pixels[k / 2] >> 8u16) as u8
            },
    )
}

/// The frame's length does not match the display geometry.
#[derive(Debug, Clone, Copy, PartialEq, Eq, Structural)]
pub struct FormatMismatch {
    /// `3 * width * height`, or `None` when that does not fit in a `usize`.
    pub expected: Option<usize>,
    /// The frame's length.
    pub actual: usize,
}

/// Each field of a packed pixel is the truncated channel it came from.
pub proof fn lemma_rgb565_fields(r: u8, g: u8, b: u8)
    ensures
        red_field(rgb565(r, g, b)) == (r >> 3u8) as u16,
        green_field(rgb565(r, g, b)) == (g >> 2u8) as u16,
        blue_field(rgb565(r, g, b)) == (b >> 3u8) as u16,
{
    let (r16, g16, b16) = (r as u16, g as u16, b as u16);
    assert(r16 < 256 && g16 < 256 && b16 < 256);
    assert(r16 < 256u16 && g16 < 256u16 && b16 < 256u16 ==> {
        &&& ((((r16 >> 3u16) << 11u16) | ((g16 >> 2u16) << 5u16) | (b16 >> 3u16)) >> 11u16)
            == r16 >> 3u16
        &&& (((((r16 >> 3u16) << 11u16) | ((g16 >> 2u16) << 5u16) | (b16 >> 3u16)) >> 5u16)
            & 0x3fu16) == g16 >> 2u16
        &&& ((((r16 >> 3u16) << 11u16) | ((g16 >> 2u16) << 5u16) | (b16 >> 3u16)) & 0x1fu16)
            == b16 >> 3u16
    }) by (bit_vector);
    assert((r >> 3u8) as u16 == r16 >> 3u16) by (bit_vector)
        requires r16 == r as u16;
    assert((g >> 2u8) as u16 == g16 >> 2u16) by (bit_vector)
        requires g16 == g as u16;
    assert((b >> 3u8) as u16 == b16 >> 3u16) by (bit_vector)
        requires b16 == b as u16;
}

/// Packs one pixel into RGB565.
pub fn pack_rgb565(r: u8, g: u8, b: u8) -> (p: u16)
    ensures
        p == rgb565(r, g, b),
{
    ((r as u16) >> 3) << 11 | ((g as u16) >> 2) << 5 | ((b as u16) >> 3)
}

/// Fills `out` with the packed pixels of `frame`, reusing its storage.
///
/// The frame must hold exactly `3 * width * height` bytes; otherwise nothing
/// is written and the mismatch is reported.
pub fn convert_frame(frame: &[u8], width: usize, height: usize, out: &mut Vec<u16>) -> (r:
    Result<(), FormatMismatch>)
    ensures
        r is Ok <==> frame@.len() == 3 * width * height,
        r is Ok ==> final(out)@ == packed_frame(frame@),
        r is Ok ==> final(out)@.len() == width * height,
        r is Err ==> final(out)@ == old(out)@,
        r is Err ==> r->Err_0 == (FormatMismatch {
            expected: if 3 * width * height <= usize::MAX {
                Some((3 * width * height) as usize)
            } else {
                None
            },
            actual: frame@.len() as usize,
        }),
{
    let expected = match width.checked_mul(height) {
        Some(area) => area.checked_mul(3),
        None => None,
    };
    proof {
        assert(3 * width * height == 3 * (width * height) && width * height >= 0)
            by (nonlinear_arith);
        assert(expected == if 3 * width * height <= usize::MAX {
            Some((3 * width * height) as usize)
        } else {
            None::<usize>
        });
    }
    let matches_geometry = match expected {
        Some(n) => n == frame.len(),
        None => false,
    };
    if !matches_geometry {
        return Err(FormatMismatch { expected, actual: frame.len() });
    }
    let count = frame.len() / 3;
    out.clear();
    let mut i: usize = 0;
    while i < count
        invariant
            count == frame@.len() / 3,
            frame@.len() == 3 * count,
            frame@.len() <= usize::MAX,
            i <= count,
            out@ == packed_frame(frame@).take(i as int),
        decreases count - i,
    {
        let p = pack_rgb565(frame[3 * i], frame[3 * i + 1], frame[3 * i + 2]);
        out.push(p);
        i = i + 1;
        assert(out@ =~= packed_frame(frame@).take(i as int));
    }
    assert(out@ =~= packed_frame(frame@));
    assert(count == width * height) by (nonlinear_arith)
        requires frame@.len() == 3 * count, frame@.len() == 3 * width * height;
    Ok(())
}

/// The display bytes of packed pixels: each pixel as two bytes, low byte first.
pub fn pixels_to_le_bytes(pixels: &Vec<u16>) -> (bytes: Vec<u8>)
    requires
        2 * pixels@.len() <= usize::MAX,
    ensures
        bytes@ == le_bytes(pixels@),
{
    let mut bytes: Vec<u8> = Vec::with_capacity(2 * pixels.len());
    let mut i: usize = 0;
    while i < pixels.len()
        invariant
            i <= pixels@.len(),
            2 * pixels@.len() <= usize::MAX,
            bytes@ == le_bytes(pixels@).take(2 * i),
        decreases pixels@.len() - i,
    {
        let p = pixels[i];
        bytes.push((p & 0xff) as u8);
        bytes.push((p >> 8) as u8);
        i = i + 1;
        assert(bytes@ =~= le_bytes(pixels@).take(2 * i));
    }
    assert(bytes@ =~= le_bytes(pixels@));
    bytes
}

/// The raw pixel payload of the splash asset: what follows its header, or
/// `None` when the asset is shorter than the header.
pub fn splash_payload(asset: &Vec<u8>) -> (payload: Option<Vec<u8>>)
    ensures
        payload is None <==> asset@.len() < SPLASH_HEADER_LEN,
        payload is Some ==> payload->Some_0@ == asset@.subrange(
            SPLASH_HEADER_LEN as int,
            asset@.len() as int,
        ),
{
    if asset.len() < SPLASH_HEADER_LEN {
        return None;
    }
    let mut payload: Vec<u8> = Vec::with_capacity(asset.len() - SPLASH_HEADER_LEN);
    let mut i: usize = SPLASH_HEADER_LEN;
    while i < asset.len()
        invariant
            SPLASH_HEADER_LEN <= i <= asset@.len(),
            payload@ == asset@.subrange(SPLASH_HEADER_LEN as int, i as int),
        decreases asset@.len() - i,
    {
        payload.push(asset[i]);
        i = i + 1;
        assert(payload@ =~= asset@.subrange(SPLASH_HEADER_LEN as int, i as int));
    }
    Some(payload)
}

/// A successful conversion yields one packed pixel per display pixel, and
/// every field of each packed pixel is the high bits of its source channel.
pub proof fn lemma_conversion_fields(frame: Seq<u8>, width: nat, height: nat)
    requires
        frame.len() == 3 * width * height,
    ensures
        packed_frame(frame).len() == width * height,
        forall|i: int|
            0 <= i < width * height ==> {
                &&& #[trigger] red_field(packed_frame(frame)[i]) == (frame[3 * i] >> 3u8) as u16
                &&& green_field(packed_frame(frame)[i]) == (frame[3 * i + 1] >> 2u8) as u16
                &&& blue_field(packed_frame(frame)[i]) == (frame[3 * i + 2] >> 3u8) as u16
            },
{
    assert(frame.len() / 3 == width * height) by (nonlinear_arith)
        requires frame.len() == 3 * width * height;
    assert forall|i: int| 0 <= i < width * height implies {
        &&& #[trigger] red_field(packed_frame(frame)[i]) == (frame[3 * i] >> 3u8) as u16
        &&& green_field(packed_frame(frame)[i]) == (frame[3 * i + 1] >> 2u8) as u16
        &&& blue_field(packed_frame(frame)[i]) == (frame[3 * i + 2] >> 3u8) as u16
    } by {
        lemma_rgb565_fields(frame[3 * i], frame[3 * i + 1], frame[3 * i + 2]);
    }
}

} // verus!
