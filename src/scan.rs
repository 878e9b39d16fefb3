use vstd::prelude::*;
use crate::counts::{classify, count_chars, CharCounts, CharStats, StatsView, Tally};
use crate::decode::{decode, unit_at, unit_count, UnitCodec};

verus! {

/// What the scan step at byte offset `i` of `chars` does to the tally `c`.
///
/// Only offsets that start a unit do anything, and never those of the first unit.
/// The unit there is classified when it and both of its neighbours decode.
pub open spec fn scan_step(c: Tally, codec: UnitCodec, chars: Seq<u8>, i: int) -> Tally {
    let w = codec.unit_width() as int;
    let j = i / w;
    if i % w != 0 || j == 0 {
        c
    } else {
        match (unit_at(codec, chars, j - 1), unit_at(codec, chars, j), unit_at(codec, chars, j + 1)) {
            (Some(p), Some(cu), Some(n)) => classify(c, p, cu, n),
            _ => c,
        }
    }
}

/// The tally after the scan steps at byte offsets `0 .. n` of `chars`, from zero.
pub open spec fn scan(codec: UnitCodec, chars: Seq<u8>, n: nat) -> Tally
    decreases n,
{
    if n == 0 {
        Tally::zero()
    } else {
        scan_step(scan(codec, chars, (n - 1) as nat), codec, chars, n - 1)
    }
}

/// The statistics of a whole buffer; UTF-32 is not decoded and stays at zero.
pub open spec fn stats_of(chars: Seq<u8>) -> StatsView {
    StatsView {
        utf8: scan(UnitCodec::Utf8, chars, chars.len()),
        utf16be: scan(UnitCodec::Utf16Be, chars, chars.len()),
        utf16le: scan(UnitCodec::Utf16Le, chars, chars.len()),
        utf32: Tally::zero(),
    }
}

/// Runs the scan step at byte offset `i` of `chars` on `cc`.
pub fn count_stream(cc: &mut CharCounts, chars: &[u8], i: usize, codec: UnitCodec)
    requires
        old(cc).has_room(),
    ensures
        final(cc)@ == scan_step(old(cc)@, codec, chars@, i as int),
{
    let w = codec.width();
    let j = i / w;
    let len = chars.len() / w;
    if i % w != 0 || j == 0 {
        return;
    }
    if j >= len || len - j < 2 {
        assert(unit_at(codec, chars@, j + 1) is None);
        return;
    }
    let prev = decode(codec, chars, j - 1);
    let curr = decode(codec, chars, j);
    let next = decode(codec, chars, j + 1);
    match (prev, curr, next) {
        (Some(p), Some(c), Some(n)) => {
            count_chars(cc, &p, &c, &n);
        },
        _ => {},
    }
}

/// The UTF-8 step at byte offset `i`, into the `utf8` slot.
pub fn count_utf8(cs: &mut CharStats, chars: &[u8], i: usize)
    requires
        old(cs).utf8.has_room(),
    ensures
        final(cs)@ == (StatsView {
            utf8: scan_step(old(cs)@.utf8, UnitCodec::Utf8, chars@, i as int),
            ..old(cs)@
        }),
{
    count_stream(&mut cs.utf8, chars, i, UnitCodec::Utf8);
}

/// The UTF-16 steps at byte offset `i`, little-endian and big-endian, into their slots.
pub fn count_utf16(cs: &mut CharStats, chars: &[u8], i: usize)
    requires
        old(cs).utf16le.has_room(),
        old(cs).utf16be.has_room(),
    ensures
        final(cs)@ == (StatsView {
            utf16le: scan_step(old(cs)@.utf16le, UnitCodec::Utf16Le, chars@, i as int),
            utf16be: scan_step(old(cs)@.utf16be, UnitCodec::Utf16Be, chars@, i as int),
            ..old(cs)@
        }),
{
    count_stream(&mut cs.utf16le, chars, i, UnitCodec::Utf16Le);
    count_stream(&mut cs.utf16be, chars, i, UnitCodec::Utf16Be);
}

/// The UTF-32 step at byte offset `i`: UTF-32 is not decoded, so nothing changes.
pub fn count_utf32(cs: &mut CharStats, chars: &[u8], i: usize)
    ensures
        final(cs)@ == old(cs)@,
{
}

/// A scan step counts at most one character, and keeps spaces and newlines
/// among the counted characters.
proof fn lemma_step_grows_by_one(c: Tally, codec: UnitCodec, chars: Seq<u8>, i: int)
    ensures
        scan_step(c, codec, chars, i).tot <= c.tot + 1,
        c.wf() ==> scan_step(c, codec, chars, i).wf(),
{
}

/// Under every encoding and for every buffer, spaces and newlines together never
/// outnumber the counted characters, and no more characters are counted than
/// byte offsets were scanned.
pub proof fn lemma_scan_counts_bounded(codec: UnitCodec, chars: Seq<u8>, n: nat)
    ensures
        scan(codec, chars, n).wf(),
        scan(codec, chars, n).tot <= n,
    decreases n,
{
    if n > 0 {
        lemma_scan_counts_bounded(codec, chars, (n - 1) as nat);
        lemma_step_grows_by_one(scan(codec, chars, (n - 1) as nat), codec, chars, n - 1);
    }
}

/// Counts the spaces, newlines and characters of `chars` under each encoding,
/// running every encoding's scan step at every byte offset.
pub fn get_char_stats(chars: &[u8]) -> (r: CharStats)
    requires
        chars@.len() <= u32::MAX,
    ensures
        r@ == stats_of(chars@),
{
    let mut cs = CharStats::new();
    let n = chars.len();
    let mut i: usize = 0;
    while i < n
        invariant
            n == chars@.len(),
            n <= u32::MAX,
            i <= n,
            cs@ == (StatsView {
                utf8: scan(UnitCodec::Utf8, chars@, i as nat),
                utf16be: scan(UnitCodec::Utf16Be, chars@, i as nat),
                utf16le: scan(UnitCodec::Utf16Le, chars@, i as nat),
                utf32: Tally::zero(),
            }),
        decreases n - i,
    {
        proof {
            lemma_scan_counts_bounded(UnitCodec::Utf8, chars@, i as nat);
            lemma_scan_counts_bounded(UnitCodec::Utf16Le, chars@, i as nat);
            lemma_scan_counts_bounded(UnitCodec::Utf16Be, chars@, i as nat);
        }
        count_utf8(&mut cs, chars, i);
        count_utf16(&mut cs, chars, i);
        count_utf32(&mut cs, chars, i);
        i = i + 1;
    }
    cs
}

/// Every slot of the statistics of any buffer has its spaces and newlines among
/// its counted characters.
pub proof fn lemma_stats_well_formed(chars: Seq<u8>)
    ensures
        stats_of(chars).utf8.wf(),
        stats_of(chars).utf16le.wf(),
        stats_of(chars).utf16be.wf(),
        stats_of(chars).utf32.wf(),
{
    lemma_scan_counts_bounded(UnitCodec::Utf8, chars, chars.len());
    lemma_scan_counts_bounded(UnitCodec::Utf16Le, chars, chars.len());
    lemma_scan_counts_bounded(UnitCodec::Utf16Be, chars, chars.len());
}

/// The empty buffer has all counts zero, under every encoding.
pub proof fn lemma_empty_buffer_counts_nothing(chars: Seq<u8>)
    requires
        chars.len() == 0,
    ensures
        stats_of(chars) == StatsView::zero(),
{
}

/// No byte offset of the first unit is ever classified: the scan step there
/// leaves the tally as it is, whatever the buffer holds.
pub proof fn lemma_first_unit_never_classified(c: Tally, codec: UnitCodec, chars: Seq<u8>, i: int)
    requires
        0 <= i < codec.unit_width(),
    ensures
        scan_step(c, codec, chars, i) == c,
{
}

/// A byte offset that does not start a unit leaves the tally as it is.
pub proof fn lemma_unaligned_offset_ignored(c: Tally, codec: UnitCodec, chars: Seq<u8>, i: int)
    requires
        i % (codec.unit_width() as int) != 0,
    ensures
        scan_step(c, codec, chars, i) == c,
{
}

/// A buffer that holds a single unit counts nothing under that unit's encoding:
/// the unit is the first one, and it has no neighbour on either side.
pub proof fn lemma_single_unit_counts_nothing(codec: UnitCodec, chars: Seq<u8>)
    requires
        unit_count(codec, chars) == 1,
    ensures
        scan(codec, chars, chars.len()) == Tally::zero(),
{
    lemma_single_unit_prefix(codec, chars, chars.len());
}

proof fn lemma_single_unit_prefix(codec: UnitCodec, chars: Seq<u8>, n: nat)
    requires
        unit_count(codec, chars) == 1,
    ensures
        scan(codec, chars, n) == Tally::zero(),
    decreases n,
{
    if n > 0 {
        lemma_single_unit_prefix(codec, chars, (n - 1) as nat);
        let w = codec.unit_width() as int;
        let j = (n - 1) as int / w;
        assert(!(0 <= j + 1 < unit_count(codec, chars)) || j == 0);
    }
}

/// Nothing is ever counted under UTF-32, which is not decoded.
pub proof fn lemma_utf32_counts_nothing(chars: Seq<u8>)
    ensures
        stats_of(chars).utf32 == Tally::zero(),
{
}

} // verus!
