//! Frame export: the name of the file a frame is saved under, and the
//! alpha normalization applied to the pixels before they are encoded.
//!
//! A frame read back from the window is a row-major sequence of RGBA
//! pixels, four bytes each. Before encoding, every pixel is composited over
//! an opaque black background, so that the saved image is fully opaque
//! whatever the source alpha was.

use vstd::prelude::*;
use vstd::arithmetic::div_mod::lemma_div_is_ordered;
use vstd::arithmetic::div_mod::lemma_div_pos_is_pos;
use vstd::arithmetic::div_mod::lemma_fundamental_div_mod;
use vstd::arithmetic::div_mod::lemma_fundamental_div_mod_converse_div;
use vstd::arithmetic::div_mod::lemma_fundamental_div_mod_converse_mod;
use vstd::arithmetic::div_mod::lemma_mod_multiples_basic;
use vstd::arithmetic::mul::lemma_mul_upper_bound;
use vstd::string::*;

verus! {

/// The character of one decimal digit.
pub open spec fn digit_char(d: int) -> char {
    if d == 0 {
        '0'
    } else if d == 1 {
        '1'
    } else if d == 2 {
        '2'
    } else if d == 3 {
        '3'
    } else if d == 4 {
        '4'
    } else if d == 5 {
        '5'
    } else if d == 6 {
        '6'
    } else if d == 7 {
        '7'
    } else if d == 8 {
        '8'
    } else {
        '9'
    }
}

/// The decimal numeral of `n`, most significant digit first, without
/// leading zeros (a single `'0'` for zero).
pub open spec fn dec_rep(n: nat) -> Seq<char>
    decreases n,
{
    if n < 10 {
        seq![digit_char(n as int)]
    } else {
        dec_rep(n / 10).push(digit_char((n % 10) as int))
    }
}

fn digit_str(d: u64) -> (r: &'static str)
    requires
        d < 10,
    ensures
        r@ =~= seq![digit_char(d as int)],
{
    proof {
        reveal_strlit("0");
        reveal_strlit("1");
        reveal_strlit("2");
        reveal_strlit("3");
        reveal_strlit("4");
        reveal_strlit("5");
        reveal_strlit("6");
        reveal_strlit("7");
        reveal_strlit("8");
        reveal_strlit("9");
    }
    match d {
        0 => "0",
        1 => "1",
        2 => "2",
        3 => "3",
        4 => "4",
        5 => "5",
        6 => "6",
        7 => "7",
        8 => "8",
        _ => "9",
    }
}

/// Appends the decimal numeral of `n` to `s`.
fn push_dec(s: &mut String, n: u64)
    ensures
        final(s)@ == old(s)@ + dec_rep(n as nat),
    decreases n,
{
    if n >= 10 {
        push_dec(s, n / 10);
    }
    let d: u64 = n % 10;
    let ds = digit_str(d);
    s.append(ds);
    proof {
        if n >= 10 {
            assert(old(s)@ + dec_rep((n / 10) as nat) + ds@ =~= old(s)@ + dec_rep(n as nat));
        } else {
            assert(old(s)@ + ds@ =~= old(s)@ + dec_rep(n as nat));
        }
    }
}

/// The file the frame at cursor position `current` is saved under.
pub open spec fn frame_name(current: nat) -> Seq<char> {
    "frame_"@ + dec_rep(current) + ".png"@
}

/// Builds the file name `frame_<current>.png`.
pub fn frame_filename(current: u64) -> (r: String)
    ensures
        r@ == frame_name(current as nat),
{
    let mut s = String::from_str("frame_");
    push_dec(&mut s, current);
    s.append(".png");
    s
}

/// One channel of a pixel composited over opaque black: the channel scaled
/// by the pixel's alpha, rounded to the nearest multiple of `1/255`.
pub open spec fn blend_channel(c: u8, a: u8) -> int {
    (c * a + 127) / 255
}

fn blend_u8(c: u8, a: u8) -> (r: u8)
    ensures
        r == blend_channel(c, a),
{
    proof {
        lemma_mul_upper_bound(c as int, 255, a as int, 255);
        lemma_div_is_ordered(c as int * a as int + 127, 65152, 255);
        lemma_div_pos_is_pos(c as int * a as int + 127, 255);
    }
    let v: u32 = (c as u32) * (a as u32);
    ((v + 127) / 255) as u8
}

/// Byte `i` of a frame with every pixel composited over opaque black:
/// each alpha byte becomes `255`, each color byte is scaled by the alpha
/// of its own pixel.
pub open spec fn normalized_byte(s: Seq<u8>, i: int) -> u8 {
    if i % 4 == 3 {
        255
    } else {
        blend_channel(s[i], s[4 * (i / 4) + 3]) as u8
    }
}

/// A frame with every pixel composited over opaque black.
pub open spec fn normalized(s: Seq<u8>) -> Seq<u8> {
    Seq::new(s.len(), |i: int| normalized_byte(s, i))
}

/// Every alpha byte of a normalized frame is `255`: the saved image is
/// fully opaque regardless of the source alpha.
pub proof fn lemma_normalized_opaque(s: Seq<u8>, i: int)
    requires
        0 <= i < s.len(),
        i % 4 == 3,
    ensures
        normalized(s)[i] == 255,
{
}

/// Composites every pixel of the frame over opaque black, in place.
pub fn normalize_alpha(p: &mut Vec<u8>)
    requires
        old(p)@.len() % 4 == 0,
    ensures
        final(p)@ == normalized(old(p)@),
{
    let len = p.len();
    proof {
        lemma_fundamental_div_mod(len as int, 4);
    }
    let count: usize = len / 4;
    let mut j: usize = 0;
    while j < count
        invariant
            j <= count,
            count == len as int / 4,
            len == 4 * count,
            p@.len() == len,
            old(p)@.len() == len,
            forall|i: int| 0 <= i < 4 * j ==> p@[i] == normalized_byte(old(p)@, i),
            forall|i: int| 4 * j <= i < len ==> p@[i] == old(p)@[i],
        decreases count - j,
    {
        let base: usize = 4 * j;
        let a = p[base + 3];
        let r0 = blend_u8(p[base], a);
        let r1 = blend_u8(p[base + 1], a);
        let r2 = blend_u8(p[base + 2], a);
        p.set(base, r0);
        p.set(base + 1, r1);
        p.set(base + 2, r2);
        p.set(base + 3, 255);
        proof {
            assert forall|i: int| 0 <= i < 4 * (j + 1) implies p@[i] == normalized_byte(
                old(p)@,
                i,
            ) by {
                if 4 * j <= i {
                    let k = i - 4 * j;
                    lemma_fundamental_div_mod_converse_div(i, 4, j as int, k);
                    lemma_fundamental_div_mod_converse_mod(i, 4, j as int, k);
                }
            }
        }
        j = j + 1;
    }
    proof {
        assert(p@ =~= normalized(old(p)@));
    }
}

/// The PNG encoding of a frame of `width * height` RGBA pixels: the bytes
/// of the file, as the encoder of the `image` crate writes them.
pub uninterp spec fn png_bytes(pixels: Seq<u8>, width: u32, height: u32) -> Seq<u8>;

/// Relies on `image::codecs::png::PngEncoder::write_image`: encodes the raw
/// RGBA byte buffer as an 8-bit-per-channel RGBA PNG, into memory. The
/// encoder output depends on the buffer and the dimensions alone; its
/// length check is met by the precondition; and writing into memory, the
/// only error it can report is a zero width or height, so encoding
/// succeeds exactly when both dimensions are positive.
#[verifier::external_body]
fn encode_png_rgba(pixels: &Vec<u8>, width: u32, height: u32) -> (r: Option<Vec<u8>>)
    requires
        pixels@.len() == width * height * 4,
    ensures
        r matches Some(b) ==> b@ == png_bytes(pixels@, width, height),
        width > 0 && height > 0 ==> r is Some,
        r is Some ==> width > 0 && height > 0,
{
    let mut out: Vec<u8> = Vec::new();
    let encoder = image::codecs::png::PngEncoder::new(&mut out);
    match image::ImageEncoder::write_image(
        encoder,
        pixels.as_slice(),
        width,
        height,
        image::ExtendedColorType::Rgba8,
    ) {
        Ok(()) => Some(out),
        Err(_) => None,
    }
}

/// Export of the frame on display: the pixels are composited over opaque
/// black and encoded as a PNG, to be written under `frame_<current>.png`.
/// The export succeeds exactly when the frame has a positive width and
/// height, and the name and the bytes of a successful export are pinned
/// down exactly.
pub fn export_frame(pixels: Vec<u8>, width: u32, height: u32, current: u64) -> (r: Option<
    (String, Vec<u8>),
>)
    requires
        pixels@.len() == width * height * 4,
    ensures
        r matches Some(p) ==> p.0@ == frame_name(current as nat) && p.1@ == png_bytes(
            normalized(pixels@),
            width,
            height,
        ),
        width > 0 && height > 0 ==> r is Some,
        r is Some ==> width > 0 && height > 0,
{
    let mut px = pixels;
    proof {
        lemma_mod_multiples_basic(width as int * height as int, 4);
    }
    normalize_alpha(&mut px);
    match encode_png_rgba(&px, width, height) {
        Some(data) => Some((frame_filename(current), data)),
        None => None,
    }
}

} // verus!
