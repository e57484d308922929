//! Timing information for CSS transitions and animations.
//!
//! Computed style reports `transition-delay`, `transition-duration`,
//! `animation-delay` and `animation-duration` as comma-separated lists of
//! duration tokens such as `"0.5s"`, `"300ms"` or `"auto"`.  This module
//! parses those tokens into integer millisecond counts, combines a delay
//! list with a duration list into a family timeout, and picks the winning
//! family for a phase.

use vstd::prelude::*;
use vstd::string::*;

verus! {

/// Which CSS family drives a phase: `transition-*` or `animation-*`.
#[derive(PartialEq, Eq, Structural, Clone, Copy, Debug)]
pub enum AnimationTypes {
    Transition,
    Animation,
}

/// Timing information for one phase, derived from computed style:
/// the winning family, how many properties (list entries) it animates,
/// and how long to wait for it, in milliseconds.
#[derive(PartialEq, Eq, Structural, Clone, Copy, Debug)]
pub struct CSSTransitionInfo {
    pub types: AnimationTypes,
    pub prop_count: usize,
    pub timeout: u64,
}

pub open spec fn is_digit(c: char) -> bool {
    48 <= c as int && c as int <= 57
}

pub open spec fn digit_value(c: char) -> int {
    c as int - 48
}

pub open spec fn is_num_char(c: char) -> bool {
    is_digit(c) || c == '.'
}

pub open spec fn all_num_chars(s: Seq<char>) -> bool {
    forall|i: int| 0 <= i < s.len() ==> is_num_char(#[trigger] s[i])
}

pub open spec fn has_digit(s: Seq<char>) -> bool {
    exists|i: int| 0 <= i < s.len() && is_digit(#[trigger] s[i])
}

pub open spec fn count_dots(s: Seq<char>) -> int
    decreases s.len(),
{
    if s.len() == 0 {
        0
    } else {
        count_dots(s.drop_last()) + if s.last() == '.' {
            1int
        } else {
            0int
        }
    }
}

/// A decimal number as it may appear before a unit: only digits and at most
/// one dot, with at least one digit (`"3"`, `"0.5"`, `".5"`, `"5."`).
pub open spec fn is_number(s: Seq<char>) -> bool {
    s.len() > 0 && all_num_chars(s) && count_dots(s) <= 1 && has_digit(s)
}

/// The value of a string of decimal digits, most significant first.
pub open spec fn digits_val(s: Seq<char>) -> int
    decreases s.len(),
{
    if s.len() == 0 {
        0
    } else {
        digits_val(s.drop_last()) * 10 + digit_value(s.last())
    }
}

/// Index of the first `'.'` in `s`, or `s.len()` if there is none.
pub open spec fn dot_pos(s: Seq<char>) -> int
    decreases s.len(),
{
    if s.len() == 0 {
        0
    } else if s[0] == '.' {
        0
    } else {
        1 + dot_pos(s.skip(1))
    }
}

pub open spec fn int_part(s: Seq<char>) -> Seq<char> {
    s.take(dot_pos(s))
}

pub open spec fn frac_part(s: Seq<char>) -> Seq<char> {
    if dot_pos(s) < s.len() {
        s.skip(dot_pos(s) + 1)
    } else {
        Seq::empty()
    }
}

pub open spec fn frac_digit(f: Seq<char>, i: int) -> int {
    if 0 <= i < f.len() {
        digit_value(f[i])
    } else {
        0
    }
}

/// The first three fractional digits read as a count of thousandths,
/// i.e. `floor(frac * 1000)` for the fractional part alone.
pub open spec fn frac3(f: Seq<char>) -> int {
    frac_digit(f, 0) * 100 + frac_digit(f, 1) * 10 + frac_digit(f, 2)
}

/// Value in milliseconds of a number token carrying an `ms` unit:
/// the integer part (the fraction is floored away).
pub open spec fn number_ms_value(s: Seq<char>) -> int {
    digits_val(int_part(s))
}

/// Value in milliseconds of a number token carrying a seconds unit:
/// `floor(seconds * 1000)`, computed exactly on the decimal digits.
pub open spec fn number_sec_value_ms(s: Seq<char>) -> int {
    digits_val(int_part(s)) * 1000 + frac3(frac_part(s))
}

/// Milliseconds denoted by one duration/delay token.
///
/// `"auto"` and the empty string mean 0.  A trailing `"ms"` marks a count of
/// milliseconds; any other token has a single-character unit stripped and is
/// read as seconds, multiplied by 1000 and floored.  A malformed number, or
/// one whose millisecond count does not fit in a `u64`, parses as 0 rather
/// than failing.
pub open spec fn spec_to_ms(s: Seq<char>) -> u64 {
    if s == "auto"@ || s.len() == 0 {
        0
    } else if s.len() >= 2 && s.subrange(s.len() - 2, s.len() as int) == "ms"@ {
        let p = s.take(s.len() - 2);
        if is_number(p) && number_ms_value(p) <= u64::MAX {
            number_ms_value(p) as u64
        } else {
            0
        }
    } else {
        let p = s.take(s.len() - 1);
        if is_number(p) && number_sec_value_ms(p) <= u64::MAX {
            number_sec_value_ms(p) as u64
        } else {
            0
        }
    }
}

proof fn lemma_digits_val_nonneg(s: Seq<char>)
    requires
        forall|i: int| 0 <= i < s.len() ==> is_digit(#[trigger] s[i]),
    ensures
        digits_val(s) >= 0,
    decreases s.len(),
{
    if s.len() > 0 {
        lemma_digits_val_nonneg(s.drop_last());
    }
}

proof fn lemma_dot_pos_at(s: Seq<char>, k: int)
    requires
        0 <= k < s.len(),
        s[k] == '.',
        forall|j: int| 0 <= j < k ==> s[j] != '.',
    ensures
        dot_pos(s) == k,
    decreases s.len(),
{
    if k > 0 {
        lemma_dot_pos_at(s.skip(1), k - 1);
    }
}

proof fn lemma_dot_pos_none(s: Seq<char>)
    requires
        forall|j: int| 0 <= j < s.len() ==> s[j] != '.',
    ensures
        dot_pos(s) == s.len(),
    decreases s.len(),
{
    if s.len() > 0 {
        lemma_dot_pos_none(s.skip(1));
    }
}

/// Parse one duration/delay token into milliseconds; see [`spec_to_ms`].
#[verifier::loop_isolation(false)]
#[verifier::rlimit(100)]
pub fn to_ms(s: &str) -> (r: u64)
    ensures
        r == spec_to_ms(s@),
{
    let n = s.unicode_len();
    if n == 0 {
        return 0;
    }
    if n == 4 {
        let c0 = s.get_char(0);
        let c1 = s.get_char(1);
        let c2 = s.get_char(2);
        let c3 = s.get_char(3);
        if c0 == 'a' && c1 == 'u' && c2 == 't' && c3 == 'o' {
            proof {
                reveal_strlit("auto");
                assert(s@ =~= "auto"@);
            }
            return 0;
        }
    }
    proof {
        reveal_strlit("auto");
        assert(s@ != "auto"@);
    }
    let mut is_ms = false;
    if n >= 2 {
        let cm = s.get_char(n - 2);
        let cs = s.get_char(n - 1);
        if cm == 'm' && cs == 's' {
            is_ms = true;
        }
    }
    let p_len = if is_ms {
        n - 2
    } else {
        n - 1
    };
    proof {
        reveal_strlit("ms");
        if is_ms {
            assert(s@.subrange(s@.len() - 2, s@.len() as int) =~= "ms"@);
        } else {
            if s@.len() >= 2 && s@.subrange(s@.len() - 2, s@.len() as int) == "ms"@ {
                assert(s@.subrange(s@.len() - 2, s@.len() as int)[0] == 'm');
                assert(s@.subrange(s@.len() - 2, s@.len() as int)[1] == 's');
                assert(false);
            }
        }
    }
    let ghost p: Seq<char> = s@.take(p_len as int);
    let mut i: usize = 0;
    let mut seen_digit = false;
    let mut dots: usize = 0;
    let mut dot_at: usize = p_len;
    let mut int_acc: u64 = 0;
    let mut int_overflow = false;
    let mut d1: u64 = 0;
    let mut d2: u64 = 0;
    let mut d3: u64 = 0;
    while i < p_len
        invariant
            p == s@.take(p_len as int),
            p_len < n == s@.len(),
            0 <= i <= p_len,
            forall|j: int| 0 <= j < i ==> is_num_char(#[trigger] p[j]),
            seen_digit == has_digit(p.take(i as int)),
            dots == count_dots(p.take(i as int)),
            dots <= i,
            dots == 0 ==> dot_at == p_len && (forall|j: int| 0 <= j < i ==> p[j] != '.'),
            dots > 0 ==> dot_at < i && p[dot_at as int] == '.' && (forall|j: int|
                0 <= j < dot_at ==> p[j] != '.'),
            !int_overflow ==> int_acc == digits_val(p.take(if dots == 0 {
                i as int
            } else {
                dot_at as int
            })),
            int_overflow ==> digits_val(p.take(if dots == 0 {
                i as int
            } else {
                dot_at as int
            })) > u64::MAX,
            dots == 0 ==> d1 == 0 && d2 == 0 && d3 == 0,
            dots == 1 ==> d1 == frac_digit(p.subrange(dot_at + 1, i as int), 0) && d2 == frac_digit(
                p.subrange(dot_at + 1, i as int),
                1,
            ) && d3 == frac_digit(p.subrange(dot_at + 1, i as int), 2),
            d1 <= 9 && d2 <= 9 && d3 <= 9,
        decreases p_len - i,
    {
        let c = s.get_char(i);
        let cv = c as u32;
        proof {
            assert(p[i as int] == s@[i as int]);
            assert(p.take(i + 1).drop_last() =~= p.take(i as int));
            assert(p.take(i + 1).last() == p[i as int]);
        }
        if cv == 46 {
            // '.'
            proof {
                assert(c == '.') by {
                    assert(c as int == 46);
                }
            }
            if dots == 0 {
                dot_at = i;
            } else {
                proof {
                    assert(p.subrange(dot_at + 1, i + 1).drop_last() =~= p.subrange(
                        dot_at + 1,
                        i as int,
                    ));
                }
            }
            dots = dots + 1;
        } else if 48 <= cv && cv <= 57 {
            let d = (cv - 48) as u64;
            if dots == 0 {
                if !int_overflow {
                    proof {
                        lemma_digits_val_nonneg(p.take(i as int));
                    }
                    match int_acc.checked_mul(10) {
                        Some(m) => match m.checked_add(d) {
                            Some(v) => {
                                int_acc = v;
                            },
                            None => {
                                int_overflow = true;
                            },
                        },
                        None => {
                            int_overflow = true;
                        },
                    }
                } else {
                    proof {
                        lemma_digits_val_nonneg(p.take(i as int));
                    }
                }
            } else {
                proof {
                    assert(p.subrange(dot_at + 1, i + 1).drop_last() =~= p.subrange(
                        dot_at + 1,
                        i as int,
                    ));
                    assert(p.subrange(dot_at + 1, i + 1).len() == i - dot_at);
                }
                let fi = i - dot_at - 1;
                if fi == 0 {
                    d1 = d;
                } else if fi == 1 {
                    d2 = d;
                } else if fi == 2 {
                    d3 = d;
                }
            }
            seen_digit = true;
        } else {
            proof {
                assert(!is_num_char(p[i as int]));
                assert(!all_num_chars(p));
            }
            return 0;
        }
        i = i + 1;
        proof {
            assert(p.take(i as int).drop_last() =~= p.take(i - 1));
        }
    }
    proof {
        assert(p.take(i as int) =~= p);
    }
    if !seen_digit {
        return 0;
    }
    if dots >= 2 {
        return 0;
    }
    proof {
        assert(is_number(p));
        if dots == 0 {
            lemma_dot_pos_none(p);
            assert(int_part(p) =~= p);
            assert(frac_part(p) == Seq::<char>::empty());
        } else {
            lemma_dot_pos_at(p, dot_at as int);
            assert(int_part(p) == p.take(dot_at as int));
            if dot_at + 1 < p.len() {
                assert(frac_part(p) == p.skip(dot_at + 1));
                assert(p.skip(dot_at + 1) =~= p.subrange(dot_at + 1, p_len as int));
            } else {
                assert(frac_part(p) =~= p.subrange(dot_at + 1, p_len as int));
            }
        }
    }
    if int_overflow {
        proof {
            lemma_digits_val_nonneg(int_part(p));
            assert(frac3(frac_part(p)) >= 0);
        }
        return 0;
    }
    if is_ms {
        return int_acc;
    }
    let frac: u64 = d1 * 100 + d2 * 10 + d3;
    match int_acc.checked_mul(1000) {
        Some(m) => match m.checked_add(frac) {
            Some(v) => v,
            None => {
                proof {
                    lemma_digits_val_nonneg(int_part(p));
                }
                0
            },
        },
        None => {
            proof {
                lemma_digits_val_nonneg(int_part(p));
                assert(frac3(frac_part(p)) >= 0);
            }
            0
        },
    }
}

/// The views of a sequence of strings.
pub open spec fn str_views(v: Seq<String>) -> Seq<Seq<char>> {
    Seq::new(v.len(), |i: int| v[i]@)
}

/// Splitting on the separator `", "`, with `cur` the token read so far.
pub open spec fn split_acc(s: Seq<char>, cur: Seq<char>) -> Seq<Seq<char>>
    decreases s.len(),
{
    if s.len() >= 2 && s[0] == ',' && s[1] == ' ' {
        seq![cur] + split_acc(s.skip(2), Seq::empty())
    } else if s.len() == 0 {
        seq![cur]
    } else {
        split_acc(s.skip(1), cur.push(s[0]))
    }
}

/// The comma-space separated tokens of a computed-style list value.
/// The empty string yields one empty token, as splitting does.
pub open spec fn spec_split(s: Seq<char>) -> Seq<Seq<char>> {
    split_acc(s, Seq::<char>::empty())
}

pub proof fn lemma_split_acc_nonempty(s: Seq<char>, cur: Seq<char>)
    ensures
        split_acc(s, cur).len() >= 1,
    decreases s.len(),
{
    if s.len() >= 2 && s[0] == ',' && s[1] == ' ' {
    } else if s.len() == 0 {
    } else {
        lemma_split_acc_nonempty(s.skip(1), cur.push(s[0]));
    }
}

/// Split a computed-style list value such as `"0.5s, 2s"` into its tokens.
#[verifier::loop_isolation(false)]
pub fn split_style_list(s: &str) -> (r: Vec<String>)
    ensures
        str_views(r@) == spec_split(s@),
        r@.len() >= 1,
{
    let n = s.unicode_len();
    let mut parts: Vec<String> = Vec::new();
    let mut cur = String::new();
    let mut i: usize = 0;
    proof {
        assert(s@.skip(0) =~= s@);
        assert(str_views(parts@) + split_acc(s@, Seq::<char>::empty()) =~~= split_acc(
            s@,
            Seq::<char>::empty(),
        ));
    }
    while i < n
        invariant
            i <= n,
            spec_split(s@) == str_views(parts@) + split_acc(s@.skip(i as int), cur@),
        decreases n - i,
    {
        let is_sep = i + 1 < n && s.get_char(i) == ',' && s.get_char(i + 1) == ' ';
        if is_sep {
            proof {
                assert(s@.skip(i as int)[0] == s@[i as int]);
                assert(s@.skip(i as int)[1] == s@[i + 1]);
                assert(s@.skip(i as int).skip(2) =~= s@.skip(i + 2));
            }
            parts.push(cur);
            cur = String::new();
            proof {
                assert(str_views(parts@) =~~= str_views(parts@.drop_last()).push(
                    parts@.last()@,
                ));
                assert(str_views(parts@.drop_last()).push(parts@.last()@) + split_acc(
                    s@.skip(i + 2),
                    Seq::<char>::empty(),
                ) =~~= str_views(parts@.drop_last()) + (seq![parts@.last()@] + split_acc(
                    s@.skip(i + 2),
                    Seq::<char>::empty(),
                )));
            }
            i = i + 2;
        } else {
            let c = s.substring_char(i, i + 1);
            proof {
                assert(s@.skip(i as int)[0] == s@[i as int]);
                assert(s@.skip(i as int).skip(1) =~= s@.skip(i + 1));
                assert(c@ =~= seq![s@[i as int]]);
            }
            let ghost cur0 = cur@;
            cur.append(c);
            proof {
                assert(cur@ =~= cur0.push(s@[i as int]));
            }
            i = i + 1;
        }
    }
    proof {
        assert(s@.skip(i as int) =~= Seq::<char>::empty());
    }
    parts.push(cur);
    proof {
        assert(str_views(parts@) =~~= str_views(parts@.drop_last()) + seq![parts@.last()@]);
    }
    parts
}

pub open spec fn sat_add_u64(a: u64, b: u64) -> u64 {
    if a + b > u64::MAX {
        u64::MAX
    } else {
        (a + b) as u64
    }
}

/// Milliseconds contributed by entry `i`: its duration plus its delay, the
/// delay list being repeated cyclically when it is shorter.
pub open spec fn spec_pair_ms(delays: Seq<Seq<char>>, durs: Seq<Seq<char>>, i: int) -> u64 {
    sat_add_u64(spec_to_ms(durs[i]), spec_to_ms(delays[i % (delays.len() as int)]))
}

pub open spec fn spec_timeout_prefix(delays: Seq<Seq<char>>, durs: Seq<Seq<char>>, n: int) -> u64
    decreases n,
{
    if n <= 0 {
        0
    } else {
        let rest = spec_timeout_prefix(delays, durs, n - 1);
        let cur = spec_pair_ms(delays, durs, n - 1);
        if cur > rest {
            cur
        } else {
            rest
        }
    }
}

/// The timeout of one family: the maximum over its duration entries of
/// duration plus delay, in milliseconds; 0 when there are no entries.
pub open spec fn spec_timeout(delays: Seq<Seq<char>>, durs: Seq<Seq<char>>) -> u64 {
    spec_timeout_prefix(delays, durs, durs.len() as int)
}

/// Combine a delay token list with a duration token list into the family's
/// timeout; see [`spec_timeout`].  A delay list shorter than the duration
/// list is repeated cyclically.
#[verifier::loop_isolation(false)]
pub fn get_timeout(delays: Vec<String>, durations: &Vec<String>) -> (r: u64)
    requires
        durations.len() > 0 ==> delays.len() > 0,
    ensures
        r == spec_timeout(str_views(delays@), str_views(durations@)),
{
    let mut timeout: u64 = 0;
    let n = durations.len();
    let mut i: usize = 0;
    while i < n
        invariant
            i <= n,
            timeout == spec_timeout_prefix(str_views(delays@), str_views(durations@), i as int),
        decreases n - i,
    {
        let d = to_ms(durations[i].as_str());
        let del = to_ms(delays[i % delays.len()].as_str());
        let sum = d.saturating_add(del);
        if sum > timeout {
            timeout = sum;
        }
        i = i + 1;
    }
    timeout
}

/// The resolved timing for a phase, from the four computed-style list values.
///
/// Each family's timeout is the maximum of duration plus delay over its
/// entries; if both timeouts are 0 there is nothing to wait for and the
/// result is `None`.  Otherwise the family with the larger timeout wins,
/// ties favouring `Transition`, and the property count is the number of
/// duration entries of the winning family alone.
pub open spec fn spec_transition_info(
    td: Seq<char>,
    tdur: Seq<char>,
    ad: Seq<char>,
    adur: Seq<char>,
) -> Option<CSSTransitionInfo> {
    let tt = spec_timeout(spec_split(td), spec_split(tdur));
    let at = spec_timeout(spec_split(ad), spec_split(adur));
    if tt == 0 && at == 0 {
        None
    } else if tt >= at {
        Some(
            (CSSTransitionInfo {
                types: AnimationTypes::Transition,
                prop_count: spec_split(tdur).len() as usize,
                timeout: tt,
            }),
        )
    } else {
        Some(
            (CSSTransitionInfo {
                types: AnimationTypes::Animation,
                prop_count: spec_split(adur).len() as usize,
                timeout: at,
            }),
        )
    }
}

/// Resolve a phase's timing from the raw computed-style values of
/// `transition-delay`, `transition-duration`, `animation-delay` and
/// `animation-duration`; see [`spec_transition_info`].
pub fn get_transition_info(
    transition_delay: &str,
    transition_duration: &str,
    animation_delay: &str,
    animation_duration: &str,
) -> (r: Option<CSSTransitionInfo>)
    ensures
        r == spec_transition_info(
            transition_delay@,
            transition_duration@,
            animation_delay@,
            animation_duration@,
        ),
{
    let transition_delays = split_style_list(transition_delay);
    let transition_durations = split_style_list(transition_duration);
    let animation_delays = split_style_list(animation_delay);
    let animation_durations = split_style_list(animation_duration);
    let transition_prop_count = transition_durations.len();
    let animation_prop_count = animation_durations.len();
    let transition_timeout = get_timeout(transition_delays, &transition_durations);
    let animation_timeout = get_timeout(animation_delays, &animation_durations);
    if transition_timeout == 0 && animation_timeout == 0 {
        None
    } else if transition_timeout >= animation_timeout {
        Some(
            CSSTransitionInfo {
                types: AnimationTypes::Transition,
                prop_count: transition_prop_count,
                timeout: transition_timeout,
            },
        )
    } else {
        Some(
            CSSTransitionInfo {
                types: AnimationTypes::Animation,
                prop_count: animation_prop_count,
                timeout: animation_timeout,
            },
        )
    }
}

} // verus!
