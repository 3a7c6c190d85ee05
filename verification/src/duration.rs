use vstd::prelude::*;

use crate::text::chars_of;

verus! {

/// The decimal value of a run of ASCII digits.
pub open spec fn digits_value(d: Seq<char>) -> int
    decreases d.len(),
{
    if d.len() == 0 {
        0
    } else {
        10 * digits_value(d.drop_last()) + (d.last() as int - 48)
    }
}

pub open spec fn is_digit(c: char) -> bool {
    '0' <= c && c <= '9'
}

/// Seconds per unit letter of an ISO-8601 time part.
pub open spec fn unit_seconds(c: char) -> int {
    if c == 'H' {
        3600
    } else if c == 'M' {
        60
    } else {
        1
    }
}

pub open spec fn is_unit(c: char) -> bool {
    c == 'H' || c == 'M' || c == 'S'
}

/// State of reading the time part of an ISO-8601 duration left to right.
pub enum DurationScan {
    /// Seconds so far and the digits read since the last unit letter.
    Running(int, Seq<char>),
    /// A character that is neither a digit nor `H`/`M`/`S`, or a unit
    /// letter without a number (or with one too large for an `i64`).
    Invalid,
    /// The total no longer fits an `i64`.
    Overflow,
}

pub open spec fn duration_scan(s: Seq<char>) -> DurationScan
    decreases s.len(),
{
    if s.len() == 0 {
        DurationScan::Running(0, Seq::empty())
    } else {
        match duration_scan(s.drop_last()) {
            DurationScan::Running(total, num) => {
                let c = s.last();
                if is_digit(c) {
                    DurationScan::Running(total, num.push(c))
                } else if is_unit(c) {
                    if num.len() == 0 || digits_value(num) > i64::MAX {
                        DurationScan::Invalid
                    } else if total + digits_value(num) * unit_seconds(c) > i64::MAX {
                        DurationScan::Overflow
                    } else {
                        DurationScan::Running(total + digits_value(num) * unit_seconds(c), Seq::empty())
                    }
                } else {
                    DurationScan::Invalid
                }
            },
            other => other,
        }
    }
}

/// The characters of `s` before its first `.`.
pub open spec fn before_dot(s: Seq<char>) -> Seq<char>
    decreases s.len(),
{
    if s.len() == 0 || s[0] == '.' {
        Seq::empty()
    } else {
        seq![s[0]] + before_dot(s.drop_first())
    }
}

/// The time part of a duration such as `PT1H2M3.5S`: what follows `PT`, up
/// to a fractional point.
pub open spec fn duration_body(s: Seq<char>) -> Seq<char> {
    before_dot(s.skip(2))
}

pub open spec fn has_pt_prefix(s: Seq<char>) -> bool {
    s.len() >= 2 && s[0] == 'P' && s[1] == 'T'
}

/// Seconds in an ISO-8601 time duration (`PT#H#M#S`, each part optional, a
/// fractional part of the seconds ignored, trailing digits without unit
/// ignored); `None` when the text does not have that form.
pub open spec fn iso_duration_spec(s: Seq<char>) -> Option<int> {
    if !has_pt_prefix(s) {
        None
    } else {
        match duration_scan(duration_body(s)) {
            DurationScan::Running(total, _) => Some(total),
            _ => None,
        }
    }
}

/// The duration's total fits an `i64` at every step of the reading.
pub open spec fn iso_duration_fits(s: Seq<char>) -> bool {
    !has_pt_prefix(s) || !(duration_scan(duration_body(s)) is Overflow)
}

proof fn lemma_before_dot(s: Seq<char>, i: int)
    requires
        0 <= i <= s.len(),
        forall|k: int| 0 <= k < i ==> #[trigger] s[k] != '.',
        i == s.len() || s[i] == '.',
    ensures
        before_dot(s) == s.take(i),
    decreases i,
{
    if i > 0 {
        assert forall|k: int| 0 <= k < i - 1 implies #[trigger] s.drop_first()[k] != '.' by {
            assert(s.drop_first()[k] == s[k + 1]);
        }
        lemma_before_dot(s.drop_first(), i - 1);
        assert(seq![s[0]] + s.drop_first().take(i - 1) =~= s.take(i));
    } else {
        assert(s.take(0) =~= Seq::<char>::empty());
    }
}

proof fn lemma_scan_stuck(s: Seq<char>, j: int)
    requires
        0 <= j <= s.len(),
        !(duration_scan(s.take(j)) is Running),
    ensures
        duration_scan(s) == duration_scan(s.take(j)),
    decreases s.len() - j,
{
    if j < s.len() {
        assert(s.take(j + 1).drop_last() =~= s.take(j));
        lemma_scan_stuck(s, j + 1);
    } else {
        assert(s.take(j) =~= s);
    }
}

/// How reading a duration ended.
enum DurationOutcome {
    Seconds(i64),
    Invalid,
    Overflow,
}

fn scan_iso_duration(s: &str) -> (r: DurationOutcome)
    ensures
        match r {
            DurationOutcome::Seconds(v) => iso_duration_spec(s@) == Some(v as int),
            DurationOutcome::Invalid => iso_duration_spec(s@) is None && iso_duration_fits(s@),
            DurationOutcome::Overflow => !iso_duration_fits(s@),
        },
{
    let cs = chars_of(s);
    if cs.len() < 2 || cs[0] != 'P' || cs[1] != 'T' {
        return DurationOutcome::Invalid;
    }
    let n = cs.len();
    let mut end: usize = 2;
    while end < n && cs[end] != '.'
        invariant
            2 <= end <= n,
            n == cs@.len(),
            forall|k: int| 2 <= k < end ==> #[trigger] cs@[k] != '.',
        decreases n - end,
    {
        end = end + 1;
    }
    let ghost tail = cs@.skip(2);
    proof {
        assert forall|k: int| 0 <= k < end - 2 implies #[trigger] tail[k] != '.' by {
            assert(tail[k] == cs@[k + 2]);
        }
        lemma_before_dot(tail, end - 2);
    }
    let ghost body = tail.take(end - 2);
    assert(body == duration_body(s@));
    assert(body =~= cs@.subrange(2, end as int));
    assert(body.take(0) =~= Seq::<char>::empty());
    let mut total: i64 = 0;
    let mut num: i64 = 0;
    let mut num_len: usize = 0;
    let mut num_too_big = false;
    let ghost mut digits: Seq<char> = Seq::empty();
    let mut i: usize = 2;
    while i < end
        invariant
            2 <= i <= end <= n,
            n == cs@.len(),
            body == cs@.subrange(2, end as int),
            cs@ == s@,
            has_pt_prefix(s@),
            body == duration_body(s@),
            duration_scan(body.take(i - 2)) == DurationScan::Running(total as int, digits),
            num_len == digits.len(),
            num_len <= i - 2,
            forall|k: int| 0 <= k < digits.len() ==> is_digit(#[trigger] digits[k]),
            num_too_big <==> digits_value(digits) > i64::MAX,
            !num_too_big ==> num == digits_value(digits),
            0 <= total,
            0 <= num,
        decreases end - i,
    {
        let c = cs[i];
        let ghost prev = body.take(i - 2);
        proof {
            assert(body.take(i - 1).drop_last() =~= prev);
            assert(body.take(i - 1).last() == c);
        }
        if '0' <= c && c <= '9' {
            let d: i64 = (c as u32 - 48) as i64;
            proof {
                assert(digits.push(c).drop_last() =~= digits);
                if digits_value(digits) > i64::MAX {
                    assert(digits_value(digits.push(c)) >= 10 * digits_value(digits));
                }
            }
            if !num_too_big {
                if num > (i64::MAX - d) / 10 {
                    num_too_big = true;
                } else {
                    proof {
                        assert(num * 10 <= i64::MAX - d) by (nonlinear_arith)
                            requires
                                num <= (i64::MAX - d) / 10,
                                0 <= d <= 9,
                        ;
                    }
                    num = num * 10 + d;
                }
            }
            num_len = num_len + 1;
            proof {
                digits = digits.push(c);
            }
        } else if c == 'H' || c == 'M' || c == 'S' {
            if num_len == 0 || num_too_big {
                proof {
                    lemma_scan_stuck(body, i - 1);
                }
                return DurationOutcome::Invalid;
            }
            let mult: i64 = if c == 'H' {
                3600
            } else if c == 'M' {
                60
            } else {
                1
            };
            if num > (i64::MAX - total) / mult {
                proof {
                    assert(num * mult > i64::MAX - total) by (nonlinear_arith)
                        requires
                            num > (i64::MAX - total) / (mult as int),
                            mult > 0,
                            i64::MAX - total >= 0,
                    ;
                    lemma_scan_stuck(body, i - 1);
                }
                return DurationOutcome::Overflow;
            }
            proof {
                assert(num * mult <= i64::MAX - total) by (nonlinear_arith)
                    requires
                        num <= (i64::MAX - total) / (mult as int),
                        mult > 0,
                        i64::MAX - total >= 0,
                        num >= 0,
                ;
            }
            total = total + num * mult;
            num = 0;
            num_len = 0;
            proof {
                digits = Seq::empty();
            }
        } else {
            proof {
                lemma_scan_stuck(body, i - 1);
            }
            return DurationOutcome::Invalid;
        }
        i = i + 1;
    }
    proof {
        assert(body.take(end - 2) =~= body);
    }
    DurationOutcome::Seconds(total)
}

/// Seconds in an ISO-8601 time duration such as the YouTube Data API gives
/// (`PT4M13S`).
pub fn parse_iso8601_duration(s: &str) -> (r: Option<i64>)
    requires
        iso_duration_fits(s@),
    ensures
        match r {
            Some(v) => iso_duration_spec(s@) == Some(v as int),
            None => iso_duration_spec(s@) is None,
        },
{
    match scan_iso_duration(s) {
        DurationOutcome::Seconds(v) => Some(v),
        _ => None,
    }
}

/// Whether the seconds of a duration overrun an `i64` while it is read, so
/// that it cannot be parsed.
pub fn iso_duration_overflows(s: &str) -> (r: bool)
    ensures
        r == !iso_duration_fits(s@),
{
    match scan_iso_duration(s) {
        DurationOutcome::Overflow => true,
        _ => false,
    }
}

} // verus!
