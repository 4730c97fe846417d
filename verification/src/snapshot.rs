//! Snapshot naming.
//!
//! A snapshot is named `{prefix}_{YYYY-MM-DD_HH-MM-SS}` from the local time
//! at which the run starts. The timestamp is fixed-width, so the
//! lexicographic order of names with one prefix equals chronological order;
//! that is what lets the generation locator pick the latest snapshot by name
//! alone, and it is proved below as `lemma_snapshot_name_order`.

use vstd::prelude::*;
use chrono::Datelike;
use chrono::Timelike;
use crate::generation::lex_le;
use crate::paths::clone_bytes;

verus! {

/// The byte `_`.
pub const UNDERSCORE: u8 = 95;

/// The byte `-`.
pub const DASH: u8 = 45;

/// A wall-clock timestamp with second precision.
#[derive(Clone, Copy, Debug, PartialEq, Eq, Structural)]
pub struct Timestamp {
    pub year: u16,
    pub month: u8,
    pub day: u8,
    pub hour: u8,
    pub minute: u8,
    pub second: u8,
}

impl Timestamp {
    /// The fields fit the calendar and the fixed-width rendering.
    pub open spec fn wf(self) -> bool {
        &&& self.year <= 9999
        &&& 1 <= self.month <= 12
        &&& 1 <= self.day <= 31
        &&& self.hour <= 23
        &&& self.minute <= 59
        &&& self.second <= 59
    }
}

/// Chronological order on timestamps: lexicographic on the fields, most
/// significant first.
pub open spec fn ts_le(a: Timestamp, b: Timestamp) -> bool {
    if a.year != b.year {
        a.year < b.year
    } else if a.month != b.month {
        a.month < b.month
    } else if a.day != b.day {
        a.day < b.day
    } else if a.hour != b.hour {
        a.hour < b.hour
    } else if a.minute != b.minute {
        a.minute < b.minute
    } else {
        a.second <= b.second
    }
}

/// The ASCII digit for `n`.
pub open spec fn digit(n: int) -> u8 {
    (48 + n) as u8
}

/// `n` rendered as exactly two ASCII digits, zero-padded.
pub open spec fn two_digits(n: int) -> Seq<u8> {
    seq![digit(n / 10), digit(n % 10)]
}

/// `n` rendered as exactly four ASCII digits, zero-padded.
pub open spec fn four_digits(n: int) -> Seq<u8> {
    two_digits(n / 100) + two_digits(n % 100)
}

/// The timestamp part of a snapshot name: `YYYY-MM-DD_HH-MM-SS`.
pub open spec fn spec_timestamp_bytes(ts: Timestamp) -> Seq<u8> {
    four_digits(ts.year as int) + seq![DASH] + two_digits(ts.month as int) + seq![DASH]
        + two_digits(ts.day as int) + seq![UNDERSCORE] + two_digits(ts.hour as int) + seq![DASH]
        + two_digits(ts.minute as int) + seq![DASH] + two_digits(ts.second as int)
}

/// The full snapshot name: `{prefix}_{YYYY-MM-DD_HH-MM-SS}`.
pub open spec fn spec_snapshot_name(prefix: Seq<u8>, ts: Timestamp) -> Seq<u8> {
    prefix + seq![UNDERSCORE] + spec_timestamp_bytes(ts)
}

/// Appends the two zero-padded digits of `n`.
fn push_two_digits(out: &mut Vec<u8>, n: u8)
    requires
        n < 100,
    ensures
        final(out)@ == old(out)@ + two_digits(n as int),
{
    out.push(48 + n / 10);
    out.push(48 + n % 10);
    assert(out@ =~= old(out)@ + two_digits(n as int));
}

/// Renders the snapshot name for `prefix` at time `ts`.
pub fn snapshot_name(prefix: &Vec<u8>, ts: &Timestamp) -> (r: Vec<u8>)
    requires
        ts.wf(),
    ensures
        r@ == spec_snapshot_name(prefix@, *ts),
{
    let mut out = clone_bytes(prefix);
    out.push(UNDERSCORE);
    push_two_digits(&mut out, (ts.year / 100) as u8);
    push_two_digits(&mut out, (ts.year % 100) as u8);
    out.push(DASH);
    push_two_digits(&mut out, ts.month);
    out.push(DASH);
    push_two_digits(&mut out, ts.day);
    out.push(UNDERSCORE);
    push_two_digits(&mut out, ts.hour);
    out.push(DASH);
    push_two_digits(&mut out, ts.minute);
    out.push(DASH);
    push_two_digits(&mut out, ts.second);
    assert(out@ =~= spec_snapshot_name(prefix@, *ts));
    out
}

/// A raw reading of the local clock, one plain field per component.
pub struct ClockReading {
    pub year: i32,
    pub month: u32,
    pub day: u32,
    pub hour: u32,
    pub minute: u32,
    pub second: u32,
}

/// Relies on chrono's `Local::now` and its `Datelike`/`Timelike` accessors:
/// `month` ranges over 1 to 12, `day` over 1 to 31, `hour` over 0 to 23,
/// `minute` and `second` over 0 to 59. The year carries no promise.
#[verifier::external_body]
fn read_local_clock() -> (r: ClockReading)
    ensures
        1 <= r.month <= 12,
        1 <= r.day <= 31,
        r.hour <= 23,
        r.minute <= 59,
        r.second <= 59,
{
    let now = chrono::Local::now();
    ClockReading {
        year: now.year(),
        month: now.month(),
        day: now.day(),
        hour: now.hour(),
        minute: now.minute(),
        second: now.second(),
    }
}

/// `v` forced into `lo ..= hi`.
pub open spec fn clamped(v: int, lo: int, hi: int) -> int {
    if v < lo {
        lo
    } else if v > hi {
        hi
    } else {
        v
    }
}

impl Timestamp {
    /// Builds a well-formed timestamp from a raw clock reading, forcing each
    /// field into its calendar range (only a year outside 0..=9999 is ever
    /// actually moved).
    pub fn from_clock(c: &ClockReading) -> (r: Timestamp)
        ensures
            r.wf(),
            r.year == clamped(c.year as int, 0, 9999),
            r.month == clamped(c.month as int, 1, 12),
            r.day == clamped(c.day as int, 1, 31),
            r.hour == clamped(c.hour as int, 0, 23),
            r.minute == clamped(c.minute as int, 0, 59),
            r.second == clamped(c.second as int, 0, 59),
    {
        let year: u16 = if c.year < 0 {
            0
        } else if c.year > 9999 {
            9999
        } else {
            c.year as u16
        };
        let month: u8 = if c.month < 1 {
            1
        } else if c.month > 12 {
            12
        } else {
            c.month as u8
        };
        let day: u8 = if c.day < 1 {
            1
        } else if c.day > 31 {
            31
        } else {
            c.day as u8
        };
        let hour: u8 = if c.hour > 23 {
            23
        } else {
            c.hour as u8
        };
        let minute: u8 = if c.minute > 59 {
            59
        } else {
            c.minute as u8
        };
        let second: u8 = if c.second > 59 {
            59
        } else {
            c.second as u8
        };
        Timestamp { year, month, day, hour, minute, second }
    }
}

/// Two-digit renderings compare like the numbers they render, and are equal
/// exactly when the numbers are.
pub proof fn lemma_two_digits_order(m: int, n: int)
    requires
        0 <= m < 100,
        0 <= n < 100,
    ensures
        lex_le(two_digits(m), two_digits(n)) == (m <= n),
        (two_digits(m) == two_digits(n)) == (m == n),
{
    let hm = m / 10;
    let lm = m % 10;
    let hn = n / 10;
    let ln = n % 10;
    assert(m == 10 * hm + lm);
    assert(n == 10 * hn + ln);
    assert(0 <= hm <= 9 && 0 <= lm <= 9 && 0 <= hn <= 9 && 0 <= ln <= 9);
    assert(digit(hm) == 48 + hm && digit(lm) == 48 + lm);
    assert(digit(hn) == 48 + hn && digit(ln) == 48 + ln);
    let a = two_digits(m);
    let b = two_digits(n);
    let a1 = seq![digit(lm)];
    let b1 = seq![digit(ln)];
    assert(a.subrange(1, 2) =~= a1);
    assert(b.subrange(1, 2) =~= b1);
    assert(a1.subrange(1, 1) =~= Seq::<u8>::empty());
    assert(b1.subrange(1, 1) =~= Seq::<u8>::empty());
    assert(lex_le(Seq::<u8>::empty(), Seq::<u8>::empty()));
    assert(lex_le(a1, b1) == (lm <= ln));
    assert(lex_le(a, b) == if digit(hm) < digit(hn) {
        true
    } else if digit(hm) > digit(hn) {
        false
    } else {
        lex_le(a1, b1)
    });
    if a == b {
        assert(a[0] == b[0] && a[1] == b[1]);
    }
    if m == n {
        assert(a =~= b);
    }
}

/// Four-digit renderings compare like the numbers they render, and are equal
/// exactly when the numbers are.
pub proof fn lemma_four_digits_order(m: int, n: int)
    requires
        0 <= m < 10000,
        0 <= n < 10000,
    ensures
        lex_le(four_digits(m), four_digits(n)) == (m <= n),
        (four_digits(m) == four_digits(n)) == (m == n),
{
    let mh = m / 100;
    let ml = m % 100;
    let nh = n / 100;
    let nl = n % 100;
    assert(m == 100 * mh + ml);
    assert(n == 100 * nh + nl);
    lemma_two_digits_order(mh, nh);
    lemma_two_digits_order(ml, nl);
    if mh == nh {
        crate::generation::lemma_lex_le_append_eq(two_digits(mh), two_digits(ml), two_digits(nl));
        if four_digits(m) == four_digits(n) {
            assert(two_digits(ml) =~= four_digits(m).subrange(2, 4));
            assert(two_digits(nl) =~= four_digits(n).subrange(2, 4));
        }
    } else {
        crate::generation::lemma_lex_le_append_ne(
            two_digits(mh),
            two_digits(nh),
            two_digits(ml),
            two_digits(nl),
        );
        if four_digits(m) == four_digits(n) {
            assert(two_digits(mh) =~= four_digits(m).subrange(0, 2));
            assert(two_digits(nh) =~= four_digits(n).subrange(0, 2));
        }
    }
}

/// The timestamp renderings of two well-formed timestamps compare
/// lexicographically exactly as the timestamps compare chronologically.
pub proof fn lemma_timestamp_bytes_order(a: Timestamp, b: Timestamp)
    requires
        a.wf(),
        b.wf(),
    ensures
        lex_le(spec_timestamp_bytes(a), spec_timestamp_bytes(b)) == ts_le(a, b),
{
    let sa5 = two_digits(a.second as int);
    let sa4 = two_digits(a.minute as int) + (seq![DASH] + sa5);
    let sa3 = two_digits(a.hour as int) + (seq![DASH] + sa4);
    let sa2 = two_digits(a.day as int) + (seq![UNDERSCORE] + sa3);
    let sa1 = two_digits(a.month as int) + (seq![DASH] + sa2);
    let sa0 = four_digits(a.year as int) + (seq![DASH] + sa1);
    let sb5 = two_digits(b.second as int);
    let sb4 = two_digits(b.minute as int) + (seq![DASH] + sb5);
    let sb3 = two_digits(b.hour as int) + (seq![DASH] + sb4);
    let sb2 = two_digits(b.day as int) + (seq![UNDERSCORE] + sb3);
    let sb1 = two_digits(b.month as int) + (seq![DASH] + sb2);
    let sb0 = four_digits(b.year as int) + (seq![DASH] + sb1);
    assert(spec_timestamp_bytes(a) =~= sa0);
    assert(spec_timestamp_bytes(b) =~= sb0);
    lemma_four_digits_order(a.year as int, b.year as int);
    lemma_two_digits_order(a.month as int, b.month as int);
    lemma_two_digits_order(a.day as int, b.day as int);
    lemma_two_digits_order(a.hour as int, b.hour as int);
    lemma_two_digits_order(a.minute as int, b.minute as int);
    lemma_two_digits_order(a.second as int, b.second as int);
    if a.year != b.year {
        crate::generation::lemma_lex_le_append_ne(
            four_digits(a.year as int),
            four_digits(b.year as int),
            seq![DASH] + sa1,
            seq![DASH] + sb1,
        );
    } else {
        crate::generation::lemma_lex_le_append_eq(
            four_digits(a.year as int),
            seq![DASH] + sa1,
            seq![DASH] + sb1,
        );
        crate::generation::lemma_lex_le_append_eq(seq![DASH], sa1, sb1);
        if a.month != b.month {
            crate::generation::lemma_lex_le_append_ne(
                two_digits(a.month as int),
                two_digits(b.month as int),
                seq![DASH] + sa2,
                seq![DASH] + sb2,
            );
        } else {
            crate::generation::lemma_lex_le_append_eq(
                two_digits(a.month as int),
                seq![DASH] + sa2,
                seq![DASH] + sb2,
            );
            crate::generation::lemma_lex_le_append_eq(seq![DASH], sa2, sb2);
            if a.day != b.day {
                crate::generation::lemma_lex_le_append_ne(
                    two_digits(a.day as int),
                    two_digits(b.day as int),
                    seq![UNDERSCORE] + sa3,
                    seq![UNDERSCORE] + sb3,
                );
            } else {
                crate::generation::lemma_lex_le_append_eq(
                    two_digits(a.day as int),
                    seq![UNDERSCORE] + sa3,
                    seq![UNDERSCORE] + sb3,
                );
                crate::generation::lemma_lex_le_append_eq(seq![UNDERSCORE], sa3, sb3);
                if a.hour != b.hour {
                    crate::generation::lemma_lex_le_append_ne(
                        two_digits(a.hour as int),
                        two_digits(b.hour as int),
                        seq![DASH] + sa4,
                        seq![DASH] + sb4,
                    );
                } else {
                    crate::generation::lemma_lex_le_append_eq(
                        two_digits(a.hour as int),
                        seq![DASH] + sa4,
                        seq![DASH] + sb4,
                    );
                    crate::generation::lemma_lex_le_append_eq(seq![DASH], sa4, sb4);
                    if a.minute != b.minute {
                        crate::generation::lemma_lex_le_append_ne(
                            two_digits(a.minute as int),
                            two_digits(b.minute as int),
                            seq![DASH] + sa5,
                            seq![DASH] + sb5,
                        );
                    } else {
                        crate::generation::lemma_lex_le_append_eq(
                            two_digits(a.minute as int),
                            seq![DASH] + sa5,
                            seq![DASH] + sb5,
                        );
                        crate::generation::lemma_lex_le_append_eq(seq![DASH], sa5, sb5);
                    }
                }
            }
        }
    }
}

/// Snapshot names with one prefix sort lexicographically exactly as their
/// timestamps sort chronologically, and coincide only for equal timestamps:
/// directory-name order equals chronological order.
pub proof fn lemma_snapshot_name_order(prefix: Seq<u8>, a: Timestamp, b: Timestamp)
    requires
        a.wf(),
        b.wf(),
    ensures
        lex_le(spec_snapshot_name(prefix, a), spec_snapshot_name(prefix, b)) == ts_le(a, b),
        (spec_snapshot_name(prefix, a) == spec_snapshot_name(prefix, b)) == (a == b),
{
    let na = spec_snapshot_name(prefix, a);
    let nb = spec_snapshot_name(prefix, b);
    assert(na =~= (prefix + seq![UNDERSCORE]) + spec_timestamp_bytes(a));
    assert(nb =~= (prefix + seq![UNDERSCORE]) + spec_timestamp_bytes(b));
    crate::generation::lemma_lex_le_append_eq(
        prefix + seq![UNDERSCORE],
        spec_timestamp_bytes(a),
        spec_timestamp_bytes(b),
    );
    crate::generation::lemma_lex_le_append_eq(
        prefix + seq![UNDERSCORE],
        spec_timestamp_bytes(b),
        spec_timestamp_bytes(a),
    );
    lemma_timestamp_bytes_order(a, b);
    lemma_timestamp_bytes_order(b, a);
    if na == nb {
        crate::generation::lemma_lex_le_refl(na);
        assert(ts_le(a, b) && ts_le(b, a));
        assert(a == b);
    }
}

/// Reads the local clock and returns it as a well-formed timestamp.
pub fn current_timestamp() -> (r: Timestamp)
    ensures
        r.wf(),
{
    let c = read_local_clock();
    Timestamp::from_clock(&c)
}

} // verus!
