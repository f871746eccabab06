//! Which duration texts can be handed to `humantime::parse_duration`.
//!
//! The parse reads a text as items, each a number (whitespace inside it is
//! skipped, a `.` starts its fraction) followed by a unit word; it adds the
//! items up into a `Duration`, with checked arithmetic everywhere but in one
//! place: when the running total holds exactly `u64::MAX` seconds and the
//! nanoseconds add up to exactly one second, `Duration::new` overflows and
//! panics. Every other overflow is reported as an error.
//!
//! `duration_bound` scans a text the same way, item by item, and adds up
//! for each item an upper bound of the seconds that the parse can add for it
//! (its whole number times the unit, plus two units for its fraction and the
//! nanoseconds it carries). When that bound stays below `u64::MAX`, the
//! running total never reaches `u64::MAX` seconds and the parse cannot panic.
//! Only texts whose items come within a few units of the largest `Duration`
//! (about 584 billion years) are left out; on those the parse overflows.

use vstd::prelude::*;
use crate::text::chars_of;

verus! {

/// Totals are counted up to 2^64 and held there.
pub open spec fn duration_cap() -> int {
    0x1_0000_0000_0000_0000
}

/// `x`, held at the cap.
pub open spec fn capped(x: int) -> int {
    if x > duration_cap() {
        duration_cap()
    } else {
        x
    }
}

/// Whether `c` is an ASCII decimal digit, the only digits a duration holds.
pub open spec fn is_ascii_digit(c: char) -> bool {
    '0' <= c && c <= '9'
}

/// Whether `c` may belong to a unit word: an ASCII letter or `µ`.
pub open spec fn is_unit_letter(c: char) -> bool {
    ('a' <= c && c <= 'z') || ('A' <= c && c <= 'Z') || c == 'µ'
}

/// The seconds that an item of a sub-second unit (`ns`, `us`, `ms` and
/// their longer names) can add: its nanoseconds fit a `u64`, so at most
/// 18 446 744 074 seconds, plus one carried second.
pub open spec fn small_item_bound() -> int {
    20_000_000_000
}

/// The seconds of one unit, by the first letter of its word: `s` seconds,
/// `m` minutes or months (counted as months), `h` hours, `d` days, `w` weeks,
/// `M` months, `y` years. Any other first letter is no unit, and the parse
/// stops there with an error.
pub open spec fn unit_seconds(c: char) -> int {
    if c == 's' {
        1
    } else if c == 'm' || c == 'M' {
        2_630_016
    } else if c == 'h' {
        3600
    } else if c == 'd' {
        86_400
    } else if c == 'w' {
        604_800
    } else if c == 'y' {
        31_557_600
    } else {
        0
    }
}

/// Whether a unit word, by its first three letters, names a sub-second unit.
pub open spec fn is_small_unit(unit: Seq<char>) -> bool {
    unit.len() > 0 && (unit[0] == 'n' || unit[0] == 'u' || unit[0] == 'µ' || (unit[0] == 'm' && unit.len()
        >= 2 && unit[1] == 's') || (unit[0] == 'm' && unit.len() >= 3 && unit[1] == 'i' && unit[2] == 'l'))
}

/// The most seconds that an item with whole number `num` and the unit word
/// beginning with `unit` can add.
pub open spec fn item_bound(num: int, unit: Seq<char>) -> int {
    if unit.len() == 0 {
        0
    } else if is_small_unit(unit) {
        small_item_bound()
    } else {
        (num + 2) * unit_seconds(unit[0])
    }
}

/// Where a scan stands: the bound of the items closed so far, the whole
/// number of the current item (held at the cap), whether its fraction has
/// begun, and whether its unit word has begun, with the word's first three
/// letters.
pub struct DurationScan {
    pub total: int,
    pub num: int,
    pub frac: bool,
    pub in_unit: bool,
    pub unit: Seq<char>,
}

/// A scan before the first character.
pub open spec fn scan_start() -> DurationScan {
    DurationScan { total: 0, num: 0, frac: false, in_unit: false, unit: Seq::empty() }
}

/// The bound with the current item closed.
pub open spec fn closed_total(st: DurationScan) -> int {
    capped(st.total + item_bound(st.num, st.unit))
}

/// The scan after character `c`: a digit adds to the whole number (or to
/// the fraction), or, after a unit word, closes the item and starts the
/// next; a letter starts or extends the unit word; a `.` starts the
/// fraction; any other character after a unit word closes the item, and
/// inside a number is passed over.
pub open spec fn scan_step(st: DurationScan, c: char) -> DurationScan {
    if is_ascii_digit(c) {
        if st.in_unit {
            DurationScan {
                total: closed_total(st),
                num: c as int - '0' as int,
                frac: false,
                in_unit: false,
                unit: Seq::empty(),
            }
        } else if st.frac {
            st
        } else {
            DurationScan { num: capped(st.num * 10 + (c as int - '0' as int)), ..st }
        }
    } else if is_unit_letter(c) {
        if st.in_unit {
            if st.unit.len() < 3 {
                DurationScan { unit: st.unit.push(c), ..st }
            } else {
                st
            }
        } else {
            DurationScan { in_unit: true, unit: seq![c], ..st }
        }
    } else if st.in_unit {
        DurationScan { total: closed_total(st), num: 0, frac: false, in_unit: false, unit: Seq::empty() }
    } else if c == '.' {
        DurationScan { frac: true, ..st }
    } else {
        st
    }
}

/// The scan after the characters of `s`.
pub open spec fn scan(s: Seq<char>) -> DurationScan
    decreases s.len(),
{
    if s.len() == 0 {
        scan_start()
    } else {
        scan_step(scan(s.drop_last()), s.last())
    }
}

/// An upper bound of the seconds that parsing `s` reaches at any point
/// (held at 2^64). A number with no unit word after it adds nothing: the
/// parse stops there with an error.
pub open spec fn duration_bound(s: Seq<char>) -> int {
    let st = scan(s);
    if st.in_unit {
        closed_total(st)
    } else {
        st.total
    }
}

/// A duration text that can be parsed without a panic: its bound stays
/// below `u64::MAX` seconds.
pub open spec fn duration_text_fits(s: Seq<char>) -> bool {
    duration_bound(s) < u64::MAX
}

/// A scan as it runs.
struct ScanState {
    total: u128,
    num: u128,
    frac: bool,
    in_unit: bool,
    unit: Vec<char>,
}

impl ScanState {
    spec fn view_scan(&self) -> DurationScan {
        DurationScan {
            total: self.total as int,
            num: self.num as int,
            frac: self.frac,
            in_unit: self.in_unit,
            unit: self.unit@,
        }
    }

    spec fn inv(&self) -> bool {
        &&& self.total <= duration_cap()
        &&& self.num <= duration_cap()
        &&& self.unit@.len() <= 3
    }
}

/// The seconds of one unit, by the first letter of its word.
fn unit_seconds_of(c: char) -> (res: u128)
    ensures
        res == unit_seconds(c),
{
    if c == 's' {
        1
    } else if c == 'm' || c == 'M' {
        2_630_016
    } else if c == 'h' {
        3600
    } else if c == 'd' {
        86_400
    } else if c == 'w' {
        604_800
    } else if c == 'y' {
        31_557_600
    } else {
        0
    }
}

/// The bound with the current item closed.
fn close_item(st: &ScanState) -> (res: u128)
    requires
        st.inv(),
    ensures
        res == closed_total(st.view_scan()),
{
    let u = &st.unit;
    let w: u128 = if u.len() == 0 {
        0
    } else if u[0] == 'n' || u[0] == 'u' || u[0] == 'µ' || (u[0] == 'm' && u.len() >= 2 && u[1] == 's') || (
    u[0] == 'm' && u.len() >= 3 && u[1] == 'i' && u[2] == 'l') {
        20_000_000_000
    } else {
        let f = unit_seconds_of(u[0]);
        assert(f <= 31_557_600);
        assert((st.num + 2) * f <= (duration_cap() + 2) * 31_557_600) by (nonlinear_arith)
            requires
                st.num <= duration_cap(),
                f <= 31_557_600,
        ;
        (st.num + 2) * f
    };
    assert(w == item_bound(st.num as int, st.unit@));
    let sum = st.total + w;
    if sum > 0x1_0000_0000_0000_0000 {
        0x1_0000_0000_0000_0000
    } else {
        sum
    }
}

/// The scan after character `c`.
fn step(st: ScanState, c: char) -> (res: ScanState)
    requires
        st.inv(),
    ensures
        res.inv(),
        res.view_scan() == scan_step(st.view_scan(), c),
{
    if '0' <= c && c <= '9' {
        let d = (c as u32 - '0' as u32) as u128;
        assert(d as int == c as int - '0' as int);
        if st.in_unit {
            let total = close_item(&st);
            ScanState { total, num: d, frac: false, in_unit: false, unit: Vec::new() }
        } else if st.frac {
            st
        } else {
            let n = st.num * 10 + d;
            let num = if n > 0x1_0000_0000_0000_0000 {
                0x1_0000_0000_0000_0000
            } else {
                n
            };
            ScanState { num, ..st }
        }
    } else if ('a' <= c && c <= 'z') || ('A' <= c && c <= 'Z') || c == 'µ' {
        if st.in_unit {
            if st.unit.len() < 3 {
                let mut s = st;
                s.unit.push(c);
                s
            } else {
                st
            }
        } else {
            let mut unit = Vec::new();
            unit.push(c);
            assert(unit@ =~= seq![c]);
            ScanState { in_unit: true, unit, ..st }
        }
    } else if st.in_unit {
        let total = close_item(&st);
        ScanState { total, num: 0, frac: false, in_unit: false, unit: Vec::new() }
    } else if c == '.' {
        ScanState { frac: true, ..st }
    } else {
        st
    }
}

/// Whether a duration text can be parsed without a panic (see
/// `duration_text_fits`).
pub fn duration_fits(raw: &str) -> (res: bool)
    ensures
        res == duration_text_fits(raw@),
{
    let cs = chars_of(raw);
    let mut st = ScanState { total: 0, num: 0, frac: false, in_unit: false, unit: Vec::new() };
    assert(st.view_scan() == scan_start());
    let mut i: usize = 0;
    while i < cs.len()
        invariant
            cs@ == raw@,
            i <= cs.len(),
            st.inv(),
            st.view_scan() == scan(cs@.take(i as int)),
        decreases cs.len() - i,
    {
        assert(cs@.take(i + 1).drop_last() =~= cs@.take(i as int));
        st = step(st, cs[i]);
        i += 1;
    }
    assert(cs@.take(cs.len() as int) =~= cs@);
    let bound = if st.in_unit {
        close_item(&st)
    } else {
        st.total
    };
    bound < 0xffff_ffff_ffff_ffff
}

} // verus!
