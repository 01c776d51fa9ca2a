//! Time utilities: elapsed seconds between two Unix timestamps, and the
//! human-readable texts built from them.
//!
//! A timestamp is a count of non-leap seconds since the Unix epoch. Only
//! timestamps whose calendar date is representable are accepted; the bounds
//! are those of the calendar backend (see `dates`), and a test pins them
//! against it.
use vstd::prelude::*;

verus! {

/// Smallest representable timestamp (midnight opening year -262143).
pub const TS_MIN: i64 = -8_334_601_228_800;

/// Largest representable timestamp (last second of year 262142).
pub const TS_MAX: i64 = 8_210_266_876_799;

/// A timestamp whose calendar date is representable.
pub open spec fn timestamp_in_range(ts: int) -> bool {
    TS_MIN <= ts <= TS_MAX
}

/// Error for a timestamp outside the representable range.
#[derive(Clone, Copy, Debug, PartialEq, Eq, Structural)]
pub enum TimeError {
    InvalidTimestamp,
}

/// Elapsed whole seconds from `start` to `end`: the signed difference.
pub open spec fn spec_elapsed(start: int, end: int) -> int {
    end - start
}

/// The decimal digit character for `d`.
pub open spec fn spec_digit_char(d: int) -> char {
    if d == 0 {
        '0'
    } else if d == 1 {
        '1'
    } else if d == 2 {
        '2'
    } else if d == 3 {
        '3'
    } else if d == 4 {
        '4'
    } else if d == 5 {
        '5'
    } else if d == 6 {
        '6'
    } else if d == 7 {
        '7'
    } else if d == 8 {
        '8'
    } else {
        '9'
    }
}

/// Decimal digit sequence of a natural number, most significant digit first.
pub open spec fn spec_dec(n: nat) -> Seq<char>
    decreases n,
{
    if n < 10 {
        seq![spec_digit_char(n as int)]
    } else {
        spec_dec(n / 10) + seq![spec_digit_char((n % 10) as int)]
    }
}

/// Decimal digit sequence of an integer, with a leading minus sign when negative.
pub open spec fn spec_dec_int(n: int) -> Seq<char> {
    if n < 0 {
        seq!['-'] + spec_dec((-n) as nat)
    } else {
        spec_dec(n as nat)
    }
}

fn digit_str(d: u64) -> (r: &'static str)
    requires
        d < 10,
    ensures
        r@ == seq![spec_digit_char(d as int)],
{
    proof {
        reveal_strlit("0");
        reveal_strlit("1");
        reveal_strlit("2");
        reveal_strlit("3");
        reveal_strlit("4");
        reveal_strlit("5");
        reveal_strlit("6");
        reveal_strlit("7");
        reveal_strlit("8");
        reveal_strlit("9");
    }
    let r = match d {
        0 => "0",
        1 => "1",
        2 => "2",
        3 => "3",
        4 => "4",
        5 => "5",
        6 => "6",
        7 => "7",
        8 => "8",
        _ => "9",
    };
    proof {
        assert(r@ =~= seq![spec_digit_char(d as int)]);
    }
    r
}

/// Decimal text of an unsigned number.
pub fn dec_string_u64(n: u64) -> (r: String)
    ensures
        r@ == spec_dec(n as nat),
    decreases n,
{
    if n < 10 {
        String::from_str(digit_str(n))
    } else {
        let mut s = dec_string_u64(n / 10);
        s.append(digit_str(n % 10));
        s
    }
}

/// Decimal text of a signed number, with a leading minus sign when negative.
pub fn dec_string_i64(n: i64) -> (r: String)
    ensures
        r@ == spec_dec_int(n as int),
{
    if n >= 0 {
        dec_string_u64(n as u64)
    } else {
        let magnitude: u64 = if n == i64::MIN {
            9_223_372_036_854_775_808u64
        } else {
            (-n) as u64
        };
        let mut s = String::from_str("-");
        let digits = dec_string_u64(magnitude);
        s.append(digits.as_str());
        proof {
            reveal_strlit("-");
            assert(s@ =~= spec_dec_int(n as int));
        }
        s
    }
}

/// Minutes-and-seconds text: the minute count, the seconds remainder in
/// 0..=59, and the two unit words.
pub open spec fn spec_elapsed_text(m: int, s: int) -> Seq<char> {
    spec_dec_int(m) + (" минут ")@ + spec_dec_int(s) + (" секунд")@
}

/// Elapsed seconds from `start` to `end`; both timestamps must be
/// representable, otherwise `InvalidTimestamp`.
pub fn elapsed_seconds(start: i64, end: i64) -> (r: Result<i64, TimeError>)
    ensures
        timestamp_in_range(start as int) && timestamp_in_range(end as int) ==> r == Ok::<
            i64,
            TimeError,
        >((end - start) as i64),
        !(timestamp_in_range(start as int) && timestamp_in_range(end as int)) ==> r == Err::<
            i64,
            TimeError,
        >(TimeError::InvalidTimestamp),
{
    if TS_MIN <= start && start <= TS_MAX && TS_MIN <= end && end <= TS_MAX {
        Ok(end - start)
    } else {
        Err(TimeError::InvalidTimestamp)
    }
}

/// Elapsed seconds from `start` to `end`, or `0` when either timestamp is
/// out of range.
pub fn get_seconds_difference(timestamp: i64, end_timestamp: i64) -> (r: i64)
    ensures
        r == if timestamp_in_range(timestamp as int) && timestamp_in_range(end_timestamp as int) {
            spec_elapsed(timestamp as int, end_timestamp as int)
        } else {
            0
        },
{
    match elapsed_seconds(timestamp, end_timestamp) {
        Ok(diff) => diff,
        Err(_) => 0,
    }
}

/// Minutes-and-seconds text for the time elapsed from `timestamp` to
/// `end_timestamp`; empty when either timestamp is out of range. The second
/// count is reduced to 0..=59 and the minute count carries the rest.
pub fn get_time_difference(timestamp: i64, end_timestamp: i64) -> (r: String)
    ensures
        timestamp_in_range(timestamp as int) && timestamp_in_range(end_timestamp as int) ==> r@
            == spec_elapsed_text(
            spec_elapsed(timestamp as int, end_timestamp as int) / 60,
            spec_elapsed(timestamp as int, end_timestamp as int) % 60,
        ),
        !(timestamp_in_range(timestamp as int) && timestamp_in_range(end_timestamp as int)) ==> r@
            == Seq::<char>::empty(),
{
    if !(TS_MIN <= timestamp && timestamp <= TS_MAX && TS_MIN <= end_timestamp && end_timestamp
        <= TS_MAX) {
        let r = String::new();
        proof {
            assert(r@ =~= Seq::<char>::empty());
        }
        return r;
    }
    let diff = end_timestamp - timestamp;
    let minutes = diff.checked_div_euclid(60).unwrap();
    let seconds = diff.checked_rem_euclid(60).unwrap();
    let mut s = dec_string_i64(minutes);
    s.append(" минут ");
    let sec_digits = dec_string_i64(seconds);
    s.append(sec_digits.as_str());
    s.append(" секунд");
    proof {
        assert(s@ =~= spec_elapsed_text(diff as int / 60, diff as int % 60));
    }
    s
}

/// Hours-minutes-seconds text for a non-negative second count.
pub open spec fn spec_hms_text(total: int) -> Seq<char> {
    spec_dec_int(total / 3600) + (" часов ")@ + spec_dec_int((total % 3600) / 60) + (" минут ")@
        + spec_dec_int(total % 60) + (" секунд")@
}

/// Hours-minutes-seconds text of a non-negative total, by integer division
/// and remainder on 3600 and 60.
pub fn total_seconds_to_hms(total: i64) -> (r: String)
    requires
        0 <= total,
    ensures
        r@ == spec_hms_text(total as int),
{
    let t = total as u64;
    let hours = t / 3600;
    let minutes = (t % 3600) / 60;
    let seconds = t % 60;
    let mut s = dec_string_u64(hours);
    s.append(" часов ");
    let min_digits = dec_string_u64(minutes);
    s.append(min_digits.as_str());
    s.append(" минут ");
    let sec_digits = dec_string_u64(seconds);
    s.append(sec_digits.as_str());
    s.append(" секунд");
    proof {
        assert(s@ =~= spec_hms_text(total as int));
    }
    s
}

/// A decimal digit character.
pub open spec fn spec_is_digit_char(c: char) -> bool {
    c == '0' || c == '1' || c == '2' || c == '3' || c == '4' || c == '5' || c == '6' || c == '7'
        || c == '8' || c == '9'
}

proof fn lemma_dec_digits(n: nat)
    ensures
        spec_dec(n).len() >= 1,
        forall|k: int| 0 <= k < spec_dec(n).len() ==> spec_is_digit_char(#[trigger] spec_dec(n)[k]),
        n >= 10 ==> spec_dec(n).len() >= 2,
    decreases n,
{
    if n < 10 {
        assert(spec_dec(n)[0] == spec_digit_char(n as int));
    } else {
        lemma_dec_digits(n / 10);
        assert forall|k: int| 0 <= k < spec_dec(n).len() implies spec_is_digit_char(
            #[trigger] spec_dec(n)[k],
        ) by {
            if k < spec_dec(n / 10).len() {
                assert(spec_dec(n)[k] == spec_dec(n / 10)[k]);
            } else {
                assert(spec_dec(n)[k] == spec_digit_char((n % 10) as int));
            }
        }
    }
}

proof fn lemma_dec_injective(a: nat, b: nat)
    requires
        spec_dec(a) == spec_dec(b),
    ensures
        a == b,
    decreases a,
{
    lemma_dec_digits(a);
    lemma_dec_digits(b);
    if a < 10 && b < 10 {
        assert(spec_dec(a)[0] == spec_digit_char(a as int));
        assert(spec_dec(b)[0] == spec_digit_char(b as int));
    } else if a < 10 {
        assert(spec_dec(a).len() == 1);
        assert(false);
    } else if b < 10 {
        assert(spec_dec(b).len() == 1);
        assert(false);
    } else {
        assert(spec_dec(a).last() == spec_digit_char((a % 10) as int));
        assert(spec_dec(b).last() == spec_digit_char((b % 10) as int));
        assert(spec_dec(a).drop_last() =~= spec_dec(a / 10));
        assert(spec_dec(b).drop_last() =~= spec_dec(b / 10));
        lemma_dec_injective(a / 10, b / 10);
        assert(a % 10 == b % 10);
    }
}

proof fn lemma_elapsed_text_injective(m1: int, s1: int, m2: int, s2: int)
    requires
        m1 >= 0,
        s1 >= 0,
        m2 >= 0,
        s2 >= 0,
        spec_elapsed_text(m1, s1) == spec_elapsed_text(m2, s2),
    ensures
        m1 == m2,
        s1 == s2,
{
    reveal_strlit(" минут ");
    reveal_strlit(" секунд");
    let d1 = spec_dec(m1 as nat);
    let d2 = spec_dec(m2 as nat);
    let e1 = spec_dec(s1 as nat);
    let e2 = spec_dec(s2 as nat);
    let sep = (" минут ")@;
    let sek = (" секунд")@;
    lemma_dec_digits(m1 as nat);
    lemma_dec_digits(m2 as nat);
    lemma_dec_digits(s1 as nat);
    lemma_dec_digits(s2 as nat);
    let t1 = d1 + sep + e1 + sek;
    let t2 = d2 + sep + e2 + sek;
    assert(t1 == t2);
    assert(sep.len() == 7);
    assert(sek.len() == 7);
    assert(sep[0] == ' ');
    assert(!spec_is_digit_char(' '));
    let l1 = d1.len() as int;
    let l2 = d2.len() as int;
    if l1 < l2 {
        assert(t1[l1] == sep[0]);
        assert(t2[l1] == d2[l1]);
        assert(spec_is_digit_char(d2[l1]));
        assert(false);
    }
    if l2 < l1 {
        assert(t2[l2] == sep[0]);
        assert(t1[l2] == d1[l2]);
        assert(spec_is_digit_char(d1[l2]));
        assert(false);
    }
    assert(l1 == l2);
    assert forall|k: int| 0 <= k < l1 implies d1[k] == d2[k] by {
        assert(t1[k] == d1[k]);
        assert(t2[k] == d2[k]);
    }
    assert(d1 =~= d2);
    lemma_dec_injective(m1 as nat, m2 as nat);
    assert(t1.len() == t2.len());
    assert(e1.len() == e2.len());
    assert forall|k: int| 0 <= k < e1.len() implies e1[k] == e2[k] by {
        assert(t1[l1 + 7 + k] == e1[k]);
        assert(t2[l1 + 7 + k] == e2[k]);
    }
    assert(e1 =~= e2);
    lemma_dec_injective(s1 as nat, s2 as nat);
}

/// For in-range timestamps with `end` at or after `start`, the elapsed
/// time is exactly `end - start`, and the formatted elapsed text
/// determines the minute and second pair: equal texts mean equal minutes
/// and equal seconds.
pub proof fn lemma_format_elapsed_roundtrip(start1: int, end1: int, start2: int, end2: int)
    requires
        timestamp_in_range(start1),
        timestamp_in_range(end1),
        start1 <= end1,
        timestamp_in_range(start2),
        timestamp_in_range(end2),
        start2 <= end2,
    ensures
        spec_elapsed(start1, end1) == end1 - start1,
        spec_elapsed_text((end1 - start1) / 60, (end1 - start1) % 60) == spec_elapsed_text(
            (end2 - start2) / 60,
            (end2 - start2) % 60,
        ) ==> (end1 - start1) / 60 == (end2 - start2) / 60 && (end1 - start1) % 60 == (end2
            - start2) % 60,
{
    if spec_elapsed_text((end1 - start1) / 60, (end1 - start1) % 60) == spec_elapsed_text(
        (end2 - start2) / 60,
        (end2 - start2) % 60,
    ) {
        lemma_elapsed_text_injective(
            (end1 - start1) / 60,
            (end1 - start1) % 60,
            (end2 - start2) / 60,
            (end2 - start2) % 60,
        );
    }
}

} // verus!
