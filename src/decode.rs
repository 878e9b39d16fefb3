use encoding::types::Encoding;
use vstd::prelude::*;

verus! {

/// An encoding whose characters take a fixed number of bytes each.
#[derive(Clone, Copy, PartialEq, Eq, Structural)]
pub enum UnitCodec {
    Utf8,
    Utf16Le,
    Utf16Be,
}

impl UnitCodec {
    /// Bytes per encoding unit.
    pub open spec fn unit_width(self) -> nat {
        match self {
            UnitCodec::Utf8 => 1,
            _ => 2,
        }
    }

    pub fn width(&self) -> (r: usize)
        ensures
            r == self.unit_width(),
    {
        match self {
            UnitCodec::Utf8 => 1,
            _ => 2,
        }
    }
}

/// The character of a UTF-16 code unit; surrogates, alone, are none.
pub open spec fn utf16_char(u: int) -> Option<Seq<char>> {
    if 0xD800 <= u <= 0xDFFF {
        None
    } else {
        Some(seq![(u as u16) as char])
    }
}

/// The decoding of one unit-wide window `w`: a one-character string, or none.
/// Under UTF-8 a lone byte decodes only when it is ASCII.
pub open spec fn decode_window(codec: UnitCodec, w: Seq<u8>) -> Option<Seq<char>> {
    match codec {
        UnitCodec::Utf8 => if w[0] < 0x80 {
            Some(seq![w[0] as char])
        } else {
            None
        },
        UnitCodec::Utf16Le => utf16_char(w[0] + 256 * w[1]),
        UnitCodec::Utf16Be => utf16_char(256 * w[0] + w[1]),
    }
}

/// Number of whole units in `chars`; trailing bytes that form no unit are left out.
pub open spec fn unit_count(codec: UnitCodec, chars: Seq<u8>) -> int {
    chars.len() as int / codec.unit_width() as int
}

/// The decoding of unit `k` of `chars`, none when there is no such unit.
pub open spec fn unit_at(codec: UnitCodec, chars: Seq<u8>, k: int) -> Option<Seq<char>> {
    let w = codec.unit_width() as int;
    if 0 <= k < unit_count(codec, chars) {
        decode_window(codec, chars.subrange(k * w, (k + 1) * w))
    } else {
        None
    }
}

pub open spec fn string_opt_view(r: Option<String>) -> Option<Seq<char>> {
    match r {
        Some(s) => Some(s@),
        None => None,
    }
}

/// Relies on `Encoding::decode` of encoding's UTF-8 codec with the strict trap:
/// a single ASCII byte decodes to its character; any other lone byte is an
/// invalid or incomplete sequence, which the strict trap reports as an error.
#[verifier::external_body]
fn decode_utf8_byte(b: u8) -> (r: Option<String>)
    ensures
        r is Some <==> b < 0x80,
        r matches Some(s) ==> s@ == seq![b as char],
{
    match encoding::all::UTF_8.decode(&[b], encoding::types::DecoderTrap::Strict) {
        Ok(s) => Some(s),
        Err(_) => None,
    }
}

/// Relies on `Encoding::decode` of encoding's UTF-16LE codec with the strict trap:
/// two bytes make the code unit `lo + 256 * hi`; a non-surrogate unit decodes to
/// its character, a low surrogate is invalid and a high one incomplete.
#[verifier::external_body]
fn decode_utf16le_unit(lo: u8, hi: u8) -> (r: Option<String>)
    ensures
        string_opt_view(r) == utf16_char(lo + 256 * hi),
{
    match encoding::all::UTF_16LE.decode(&[lo, hi], encoding::types::DecoderTrap::Strict) {
        Ok(s) => Some(s),
        Err(_) => None,
    }
}

/// Relies on `Encoding::decode` of encoding's UTF-16BE codec with the strict trap:
/// two bytes make the code unit `256 * hi + lo`; a non-surrogate unit decodes to
/// its character, a low surrogate is invalid and a high one incomplete.
#[verifier::external_body]
fn decode_utf16be_unit(hi: u8, lo: u8) -> (r: Option<String>)
    ensures
        string_opt_view(r) == utf16_char(256 * hi + lo),
{
    match encoding::all::UTF_16BE.decode(&[hi, lo], encoding::types::DecoderTrap::Strict) {
        Ok(s) => Some(s),
        Err(_) => None,
    }
}

/// Decodes unit `k` of `chars`.
pub fn decode(codec: UnitCodec, chars: &[u8], k: usize) -> (r: Option<String>)
    requires
        k < unit_count(codec, chars@),
    ensures
        string_opt_view(r) == unit_at(codec, chars@, k as int),
{
    let w = codec.width();
    let n = chars.len();
    proof {
        assert(k * w + w <= chars@.len()) by (nonlinear_arith)
            requires
                k < n as int / w as int,
                n == chars@.len(),
                w > 0,
        ;
    }
    let start = k * w;
    let ghost window = chars@.subrange(start as int, start + w);
    match codec {
        UnitCodec::Utf8 => {
            let r = decode_utf8_byte(chars[start]);
            assert(window[0] == chars@[start as int]);
            r
        },
        UnitCodec::Utf16Le => {
            assert(window[0] == chars@[start as int] && window[1] == chars@[start + 1]);
            decode_utf16le_unit(chars[start], chars[start + 1])
        },
        UnitCodec::Utf16Be => {
            assert(window[0] == chars@[start as int] && window[1] == chars@[start + 1]);
            decode_utf16be_unit(chars[start], chars[start + 1])
        },
    }
}

} // verus!
