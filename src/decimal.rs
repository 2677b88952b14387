//! Decimal text of integers, and reading it back.
use vstd::prelude::*;

verus! {

/// The character for a single decimal digit.
pub open spec fn digit_char(d: nat) -> char {
    if d == 0 { '0' }
    else if d == 1 { '1' }
    else if d == 2 { '2' }
    else if d == 3 { '3' }
    else if d == 4 { '4' }
    else if d == 5 { '5' }
    else if d == 6 { '6' }
    else if d == 7 { '7' }
    else if d == 8 { '8' }
    else { '9' }
}

pub open spec fn is_digit(c: char) -> bool {
    '0' <= c && c <= '9'
}

pub open spec fn digit_value(c: char) -> nat {
    (c as u32 - '0' as u32) as nat
}

/// Canonical decimal text of a natural number: no sign, no leading zeros.
pub open spec fn nat_text(n: nat) -> Seq<char>
    decreases n,
{
    if n < 10 {
        seq![digit_char(n)]
    } else {
        nat_text(n / 10).push(digit_char(n % 10))
    }
}

/// Decimal text of an integer: a minus sign before the digits of a negative one.
pub open spec fn int_text(i: int) -> Seq<char> {
    if i < 0 {
        seq!['-'] + nat_text((-i) as nat)
    } else {
        nat_text(i as nat)
    }
}

/// The number that a run of digits denotes.
pub open spec fn digits_value(s: Seq<char>) -> nat
    decreases s.len(),
{
    if s.len() == 0 {
        0
    } else {
        digits_value(s.drop_last()) * 10 + digit_value(s.last())
    }
}

pub open spec fn all_digits(s: Seq<char>) -> bool {
    forall|k: int| 0 <= k < s.len() ==> is_digit(#[trigger] s[k])
}

pub proof fn lemma_digit_char(d: nat)
    requires
        d < 10,
    ensures
        is_digit(digit_char(d)),
        digit_value(digit_char(d)) == d,
{
}

/// The text of a number is a non-empty run of digits that reads back as the number.
pub proof fn lemma_nat_text(n: nat)
    ensures
        nat_text(n).len() > 0,
        all_digits(nat_text(n)),
        digits_value(nat_text(n)) == n,
        nat_text(n)[0] != '0' || n == 0,
    decreases n,
{
    if n < 10 {
        lemma_digit_char(n);
        assert(nat_text(n).drop_last() =~= Seq::<char>::empty());
        assert(digits_value(Seq::<char>::empty()) == 0);
    } else {
        lemma_nat_text(n / 10);
        lemma_digit_char(n % 10);
        let t = nat_text(n);
        assert(t.drop_last() =~= nat_text(n / 10));
        assert(t.last() == digit_char(n % 10));
        assert(digits_value(t) == digits_value(nat_text(n / 10)) * 10 + (n % 10));
        assert(all_digits(t)) by {
            assert forall|k: int| 0 <= k < t.len() implies is_digit(#[trigger] t[k]) by {
                if k < t.len() - 1 {
                    assert(t[k] == nat_text(n / 10)[k]);
                }
            }
        }
    }
}

/// The character of a digit below ten.
fn digit_str(d: u64) -> (r: &'static str)
    requires
        d < 10,
    ensures
        r@ == seq![digit_char(d as nat)],
{
    proof {
        reveal_strlit("0");
        reveal_strlit("1");
        reveal_strlit("2");
        reveal_strlit("3");
        reveal_strlit("4");
        reveal_strlit("5");
        reveal_strlit("6");
        reveal_strlit("7");
        reveal_strlit("8");
        reveal_strlit("9");
    }
    if d == 0 {
        "0"
    } else if d == 1 {
        "1"
    } else if d == 2 {
        "2"
    } else if d == 3 {
        "3"
    } else if d == 4 {
        "4"
    } else if d == 5 {
        "5"
    } else if d == 6 {
        "6"
    } else if d == 7 {
        "7"
    } else if d == 8 {
        "8"
    } else {
        "9"
    }
}

/// Appends the decimal text of `n` to `s`.
pub fn push_nat(s: &mut String, n: u64)
    ensures
        final(s)@ == old(s)@ + nat_text(n as nat),
    decreases n,
{
    if n < 10 {
        s.append(digit_str(n));
    } else {
        push_nat(s, n / 10);
        s.append(digit_str(n % 10));
    }
    assert(final(s)@ =~= old(s)@ + nat_text(n as nat));
}

/// A run of digits reads as at least what any of its prefixes reads as.
pub proof fn lemma_digits_value_prefix(s: Seq<char>, m: int)
    requires
        0 <= m <= s.len(),
    ensures
        digits_value(s.subrange(0, m)) <= digits_value(s),
    decreases s.len(),
{
    if m < s.len() {
        let p = s.drop_last();
        assert(s.subrange(0, m) =~= p.subrange(0, m));
        lemma_digits_value_prefix(p, m);
        let dv = digits_value(p);
        assert(dv <= dv * 10 + digit_value(s.last())) by (nonlinear_arith);
    } else {
        assert(s.subrange(0, m) =~= s);
    }
}

/// Reads the maximal run of digits that starts at `i`, as long as its value fits in
/// a `u64`; returns the value and the position after the run.
pub fn read_nat(t: &str, i: usize) -> (r: Option<(u64, usize)>)
    requires
        i <= t@.len(),
    ensures
        r matches Some((v, j)) ==> i < j <= t@.len() && all_digits(t@.subrange(i as int, j as int))
            && (j == t@.len() || !is_digit(t@[j as int])) && v == digits_value(
            t@.subrange(i as int, j as int),
        ),
        forall|v: u64, j: int|
            i < j <= t@.len() && #[trigger] t@.subrange(i as int, j) == #[trigger] nat_text(v as nat) && (j
                == t@.len() || !is_digit(t@[j])) ==> r == Some((v, j as usize)),
{
    let n = t.unicode_len();
    let mut k: usize = i;
    let mut val: u64 = 0;
    while k < n && is_digit_char(t.get_char(k))
        invariant
            n == t@.len(),
            i <= k <= n,
            all_digits(t@.subrange(i as int, k as int)),
            val == digits_value(t@.subrange(i as int, k as int)),
        decreases n - k,
    {
        let c = t.get_char(k);
        let d: u64 = (c as u32 - '0' as u32) as u64;
        let ghost next = t@.subrange(i as int, k + 1);
        assert(next.drop_last() =~= t@.subrange(i as int, k as int));
        assert(digits_value(next) == val * 10 + d);
        let m = val.checked_mul(10);
        let s = match m {
            Some(m) => m.checked_add(d),
            None => None,
        };
        match s {
            Some(s) => {
                val = s;
            },
            None => {
                proof {
                    assert forall|v: u64, j: int|
                        i < j <= t@.len() && #[trigger] t@.subrange(i as int, j) == #[trigger] nat_text(v as nat) && (j == t@.len() || !is_digit(t@[j])) implies false by {
                        lemma_nat_text(v as nat);
                        let w = t@.subrange(i as int, j);
                        if j <= k {
                            assert(w[j - i - 1] == t@[j - 1]);
                            if j < k {
                                assert(t@.subrange(i as int, k as int)[j - i] == t@[j]);
                            }
                        } else {
                            assert(w.subrange(0, k + 1 - i) =~= next);
                            lemma_digits_value_prefix(w, k + 1 - i);
                        }
                    }
                }
                return None;
            },
        }
        proof {
            assert forall|q: int| 0 <= q < next.len() implies is_digit(#[trigger] next[q]) by {
                if q < next.len() - 1 {
                    assert(next[q] == t@.subrange(i as int, k as int)[q]);
                }
            }
        }
        k = k + 1;
    }
    if k == i {
        proof {
            assert forall|v: u64, j: int|
                i < j <= t@.len() && #[trigger] t@.subrange(i as int, j) == #[trigger] nat_text(v as nat) && (
                j == t@.len() || !is_digit(t@[j])) implies false by {
                lemma_nat_text(v as nat);
                assert(t@.subrange(i as int, j)[0] == t@[i as int]);
            }
        }
        return None;
    }
    proof {
        assert forall|v: u64, j: int|
            i < j <= t@.len() && #[trigger] t@.subrange(i as int, j) == #[trigger] nat_text(v as nat) && (j
                == t@.len() || !is_digit(t@[j])) implies Some((val, k)) == Some((v, j as usize)) by {
            lemma_nat_text(v as nat);
            let w = t@.subrange(i as int, j);
            if j < k {
                assert(t@.subrange(i as int, k as int)[j - i] == t@[j]);
            } else if j > k {
                assert(w[k - i] == t@[k as int]);
            }
        }
    }
    Some((val, k))
}

fn is_digit_char(c: char) -> (r: bool)
    ensures
        r == is_digit(c),
{
    '0' <= c && c <= '9'
}

} // verus!
