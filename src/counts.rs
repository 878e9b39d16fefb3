use vstd::prelude::*;

verus! {

/// The mathematical value of a [`CharCounts`]: spaces, newlines and all counted characters.
pub struct Tally {
    pub sp: nat,
    pub nl: nat,
    pub tot: nat,
}

impl Tally {
    pub open spec fn zero() -> Tally {
        Tally { sp: 0, nl: 0, tot: 0 }
    }

    /// Spaces and newlines are among the counted characters.
    pub open spec fn wf(self) -> bool {
        self.sp + self.nl <= self.tot
    }
}

/// Whitespace counts of one encoding.
pub struct CharCounts {
    pub sp: u32,
    pub nl: u32,
    pub tot: u32,
}

impl View for CharCounts {
    type V = Tally;

    open spec fn view(&self) -> Tally {
        Tally { sp: self.sp as nat, nl: self.nl as nat, tot: self.tot as nat }
    }
}

impl CharCounts {
    pub fn new() -> (r: CharCounts)
        ensures
            r@ == Tally::zero(),
    {
        CharCounts { sp: 0, nl: 0, tot: 0 }
    }

    /// No counter is at its largest value, so one more character can be counted.
    pub open spec fn has_room(&self) -> bool {
        self.sp < u32::MAX && self.nl < u32::MAX && self.tot < u32::MAX
    }
}

/// The value of a [`CharStats`]: one tally per encoding.
pub struct StatsView {
    pub utf8: Tally,
    pub utf16be: Tally,
    pub utf16le: Tally,
    pub utf32: Tally,
}

impl StatsView {
    pub open spec fn zero() -> StatsView {
        StatsView {
            utf8: Tally::zero(),
            utf16be: Tally::zero(),
            utf16le: Tally::zero(),
            utf32: Tally::zero(),
        }
    }
}

/// Whitespace counts of a buffer under each supported encoding.
pub struct CharStats {
    pub utf8: CharCounts,
    pub utf16be: CharCounts,
    pub utf16le: CharCounts,
    pub utf32: CharCounts,
}

impl View for CharStats {
    type V = StatsView;

    open spec fn view(&self) -> StatsView {
        StatsView {
            utf8: self.utf8@,
            utf16be: self.utf16be@,
            utf16le: self.utf16le@,
            utf32: self.utf32@,
        }
    }
}

impl CharStats {
    pub fn new() -> (r: CharStats)
        ensures
            r@ == StatsView::zero(),
    {
        CharStats {
            utf8: CharCounts::new(),
            utf16be: CharCounts::new(),
            utf16le: CharCounts::new(),
            utf32: CharCounts::new(),
        }
    }
}

/// What classifying `curr`, seen between `prev` and `next`, does to the tally `c`.
///
/// An empty `curr` is not a character. A character with an empty string on both
/// sides has no context and is not counted at all. Otherwise it counts, as a
/// newline, a space or a plain character.
pub open spec fn classify(c: Tally, prev: Seq<char>, curr: Seq<char>, next: Seq<char>) -> Tally {
    if curr.len() == 0 || (prev.len() == 0 && next.len() == 0) {
        c
    } else if curr == seq!['\n'] {
        Tally { nl: c.nl + 1, tot: c.tot + 1, ..c }
    } else if curr == seq![' '] {
        Tally { sp: c.sp + 1, tot: c.tot + 1, ..c }
    } else {
        Tally { tot: c.tot + 1, ..c }
    }
}

/// Classifies `curr`, with `prev` and `next` as its neighbours, into `cc`.
pub fn count_chars(cc: &mut CharCounts, prev: &String, curr: &String, next: &String)
    requires
        old(cc).has_room(),
    ensures
        final(cc)@ == classify(old(cc)@, prev@, curr@, next@),
{
    let c = curr.as_str();
    let len = c.unicode_len();
    if len == 0 {
        return;
    }
    if prev.as_str().unicode_len() == 0 && next.as_str().unicode_len() == 0 {
        return;
    }
    if len == 1 && c.get_char(0) == '\n' {
        assert(curr@ =~= seq!['\n']);
        cc.nl = cc.nl + 1;
    } else if len == 1 && c.get_char(0) == ' ' {
        assert(curr@ =~= seq![' ']);
        cc.sp = cc.sp + 1;
    } else {
        assert(curr@ != seq!['\n'] && curr@ != seq![' '] ) by {
            if len == 1 {
                assert(seq!['\n'][0] == '\n');
                assert(seq![' '][0] == ' ');
            }
        }
    }
    cc.tot = cc.tot + 1;
}

} // verus!
