//! The claims carried by a session token, and their JSON text.
use vstd::prelude::*;
use crate::decimal::{int_text, is_digit, lemma_nat_text, nat_text, push_nat, read_nat};

verus! {

/// What a token asserts: whose identity, in which role, valid until when
/// (seconds since the Unix epoch).
pub struct Claims {
    pub sub: i32,
    pub role: String,
    pub exp: u64,
}

pub ghost struct ClaimsView {
    pub sub: i32,
    pub role: Seq<char>,
    pub exp: u64,
}

impl View for Claims {
    type V = ClaimsView;

    open spec fn view(&self) -> ClaimsView {
        ClaimsView { sub: self.sub, role: self.role@, exp: self.exp }
    }
}

/// A character that stands in a JSON string as itself, with no escape.
pub open spec fn plain_char(c: char) -> bool {
    c != '"' && c != '\\' && ' ' <= c
}

impl ClaimsView {
    /// Claims that have a JSON text: the role needs no escaping.
    pub open spec fn wf(&self) -> bool {
        forall|k: int| 0 <= k < self.role.len() ==> plain_char(#[trigger] self.role[k])
    }
}

pub open spec fn sub_key() -> Seq<char> {
    seq!['{', '"', 's', 'u', 'b', '"', ':']
}

pub open spec fn role_key() -> Seq<char> {
    seq![',', '"', 'r', 'o', 'l', 'e', '"', ':', '"']
}

pub open spec fn exp_key() -> Seq<char> {
    seq!['"', ',', '"', 'e', 'x', 'p', '"', ':']
}

/// The JSON object text of the claims: `{"sub":N,"role":"R","exp":M}`.
pub open spec fn claims_text(c: ClaimsView) -> Seq<char> {
    sub_key() + int_text(c.sub as int) + role_key() + c.role + exp_key() + nat_text(
        c.exp as nat,
    ) + seq!['}']
}

/// Appends the decimal text of `i` to `s`.
fn push_int(s: &mut String, i: i32)
    ensures
        final(s)@ == old(s)@ + int_text(i as int),
{
    if i < 0 {
        proof {
            reveal_strlit("-");
        }
        s.append("-");
        let m: i64 = -(i as i64);
        push_nat(s, m as u64);
        assert(final(s)@ =~= old(s)@ + int_text(i as int));
    } else {
        push_nat(s, i as u64);
    }
}

/// The JSON text of the claims.
pub fn claims_to_text(c: &Claims) -> (r: String)
    ensures
        r@ == claims_text(c@),
{
    proof {
        reveal_strlit("{\"sub\":");
        reveal_strlit(",\"role\":\"");
        reveal_strlit("\",\"exp\":");
        reveal_strlit("}");
    }
    let mut s = String::from_str("{\"sub\":");
    push_int(&mut s, c.sub);
    s.append(",\"role\":\"");
    s.append(c.role.as_str());
    s.append("\",\"exp\":");
    push_nat(&mut s, c.exp);
    s.append("}");
    assert(s@ =~= claims_text(c@));
    s
}

pub open spec fn sub_end(c: ClaimsView) -> int {
    7 + int_text(c.sub as int).len() as int
}

pub open spec fn role_start(c: ClaimsView) -> int {
    sub_end(c) + 9
}

pub open spec fn role_end(c: ClaimsView) -> int {
    role_start(c) + c.role.len() as int
}

pub open spec fn exp_end(c: ClaimsView) -> int {
    role_end(c) + 8 + nat_text(c.exp as nat).len() as int
}

pub open spec fn abs_sub(c: ClaimsView) -> nat {
    if c.sub < 0 { (-c.sub) as nat } else { c.sub as nat }
}

/// Where each part of the text of the claims stands.
proof fn lemma_claims_layout(c: ClaimsView)
    ensures
        ({
            let t = claims_text(c);
            &&& t.subrange(0, 7) == sub_key()
            &&& (c.sub < 0) == (t[7] == '-')
            &&& t.subrange(if c.sub < 0 { 8 } else { 7 }, sub_end(c)) == nat_text(abs_sub(c))
            &&& !is_digit(t[sub_end(c)])
            &&& t.subrange(sub_end(c), role_start(c)) == role_key()
            &&& t.subrange(role_start(c), role_end(c)) == c.role
            &&& t[role_end(c)] == '"'
            &&& t.subrange(role_end(c), role_end(c) + 8) == exp_key()
            &&& !is_digit(t[exp_end(c)])
            &&& t.subrange(role_end(c) + 8, exp_end(c)) == nat_text(c.exp as nat)
            &&& t.subrange(exp_end(c), exp_end(c) + 1) == seq!['}']
            &&& t.len() == exp_end(c) + 1
        }),
{
    let t = claims_text(c);
    let it = int_text(c.sub as int);
    let nt = nat_text(abs_sub(c));
    lemma_nat_text(abs_sub(c));
    lemma_nat_text(c.exp as nat);
    let with_sub = sub_key() + it;
    let with_role_key = with_sub + role_key();
    let with_role = with_role_key + c.role;
    let with_exp_key = with_role + exp_key();
    let with_exp = with_exp_key + nat_text(c.exp as nat);
    assert(t == with_exp + seq!['}']);
    assert(t.subrange(0, 7) =~= sub_key());
    if c.sub < 0 {
        assert(it =~= seq!['-'] + nt);
        assert(t[7] == it[0]);
        assert(t.subrange(8, sub_end(c)) =~= nt);
    } else {
        assert(t[7] == it[0]);
        assert(t.subrange(7, sub_end(c)) =~= nt);
    }
    assert(t[sub_end(c)] == role_key()[0]);
    assert(t.subrange(sub_end(c), role_start(c)) =~= role_key());
    assert(t.subrange(role_start(c), role_end(c)) =~= c.role);
    assert(t[role_end(c)] == exp_key()[0]);
    assert(t.subrange(role_end(c), role_end(c) + 8) =~= exp_key());
    assert(t.subrange(role_end(c) + 8, exp_end(c)) =~= nat_text(c.exp as nat));
    assert(t.subrange(exp_end(c), exp_end(c) + 1) =~= seq!['}']);
    assert(t[exp_end(c)] == '}');
}

/// The claims whose text `t` is, if any.
pub open spec fn claims_of_text(t: Seq<char>) -> Option<ClaimsView> {
    if exists|c: ClaimsView| c.wf() && #[trigger] claims_text(c) == t {
        Some(choose|c: ClaimsView| c.wf() && #[trigger] claims_text(c) == t)
    } else {
        None
    }
}

/// Two well-formed claims with the same text are the same claims.
pub proof fn lemma_claims_text_injective(c1: ClaimsView, c2: ClaimsView)
    requires
        c1.wf(),
        c2.wf(),
        claims_text(c1) == claims_text(c2),
    ensures
        c1 == c2,
{
    let t = claims_text(c1);
    lemma_claims_layout(c1);
    lemma_claims_layout(c2);
    lemma_nat_text(abs_sub(c1));
    lemma_nat_text(abs_sub(c2));
    lemma_nat_text(c1.exp as nat);
    lemma_nat_text(c2.exp as nat);
    let a: int = if c1.sub < 0 { 8 } else { 7 };
    let n1 = nat_text(abs_sub(c1));
    let n2 = nat_text(abs_sub(c2));
    if sub_end(c1) < sub_end(c2) {
        assert(t.subrange(a, sub_end(c2))[sub_end(c1) - a] == t[sub_end(c1)]);
        assert(is_digit(n2[sub_end(c1) - a]));
    } else if sub_end(c2) < sub_end(c1) {
        assert(t.subrange(a, sub_end(c1))[sub_end(c2) - a] == t[sub_end(c2)]);
        assert(is_digit(n1[sub_end(c2) - a]));
    }
    assert(n1 == n2);
    assert(abs_sub(c1) == abs_sub(c2));
    assert(c1.sub == c2.sub);
    if role_end(c1) < role_end(c2) {
        assert(t.subrange(role_start(c2), role_end(c2))[role_end(c1) - role_start(c2)] == t[role_end(
            c1,
        )]);
        assert(plain_char(c2.role[role_end(c1) - role_start(c2)]));
    } else if role_end(c2) < role_end(c1) {
        assert(t.subrange(role_start(c1), role_end(c1))[role_end(c2) - role_start(c1)] == t[role_end(
            c2,
        )]);
        assert(plain_char(c1.role[role_end(c2) - role_start(c1)]));
    }
    assert(c1.role == c2.role);
    assert(nat_text(c1.exp as nat) == nat_text(c2.exp as nat));
    assert(c1.exp == c2.exp);
}

/// Reading the text of well-formed claims gives back exactly those claims.
pub proof fn lemma_claims_text_round_trip(c: ClaimsView)
    requires
        c.wf(),
    ensures
        claims_of_text(claims_text(c)) == Some(c),
{
    let t = claims_text(c);
    assert(c.wf() && claims_text(c) == t);
    let d = choose|d: ClaimsView| d.wf() && #[trigger] claims_text(d) == t;
    lemma_claims_text_injective(c, d);
}

/// Whether `lit` stands in `t` at position `i`.
pub(crate) fn text_at(t: &str, i: usize, lit: &str) -> (r: bool)
    requires
        i <= t@.len(),
    ensures
        r == (i + lit@.len() <= t@.len() && t@.subrange(i as int, i + lit@.len()) == lit@),
        t@.len() <= usize::MAX,
{
    let n = t.unicode_len();
    let m = lit.unicode_len();
    if m > n - i {
        return false;
    }
    let mut k: usize = 0;
    while k < m
        invariant
            n == t@.len(),
            m == lit@.len(),
            i + m <= n,
            k <= m,
            t@.subrange(i as int, i + k) == lit@.subrange(0, k as int),
        decreases m - k,
    {
        if t.get_char(i + k) != lit.get_char(k) {
            proof {
                if t@.subrange(i as int, i + m) == lit@ {
                    assert(t@.subrange(i as int, i + m)[k as int] == t@[i + k]);
                }
            }
            return false;
        }
        assert(t@.subrange(i as int, i + k + 1) =~= lit@.subrange(0, k + 1));
        k = k + 1;
    }
    assert(lit@.subrange(0, m as int) =~= lit@);
    true
}

/// The end of the maximal run of plain characters that starts at `i`.
pub(crate) fn plain_run_end(t: &str, i: usize) -> (r: usize)
    requires
        i <= t@.len(),
    ensures
        i <= r <= t@.len(),
        forall|k: int| i <= k < r ==> plain_char(#[trigger] t@[k]),
        r == t@.len() || !plain_char(t@[r as int]),
{
    let n = t.unicode_len();
    let mut k: usize = i;
    while k < n
        invariant
            n == t@.len(),
            i <= k <= n,
            forall|q: int| i <= q < k ==> plain_char(#[trigger] t@[q]),
        decreases n - k,
    {
        let c = t.get_char(k);
        if c == '"' || c == '\\' || (c as u32) < 32 {
            return k;
        }
        k = k + 1;
    }
    k
}

proof fn lemma_keys()
    ensures
        "{\"sub\":"@ == sub_key(),
        ",\"role\":\""@ == role_key(),
        "\",\"exp\":"@ == exp_key(),
        "}"@ == seq!['}'],
{
    reveal_strlit("{\"sub\":");
    reveal_strlit(",\"role\":\"");
    reveal_strlit("\",\"exp\":");
    reveal_strlit("}");
    assert("{\"sub\":"@ =~= sub_key());
    assert(",\"role\":\""@ =~= role_key());
    assert("\",\"exp\":"@ =~= exp_key());
    assert("}"@ =~= seq!['}']);
}

/// Reads the opening key and the subject; returns the subject and where its
/// digits end.
fn read_sub(t: &str) -> (r: Option<(i32, usize)>)
    ensures
        r matches Some((_, j)) ==> j <= t@.len(),
        forall|c: ClaimsView|
            c.wf() && #[trigger] claims_text(c) == t@ ==> (r matches Some((s, j)) && s == c.sub && j
                == sub_end(c)),
{
    proof {
        lemma_keys();
    }
    let n = t.unicode_len();
    if n < 8 || !text_at(t, 0, "{\"sub\":") {
        proof {
            assert forall|c: ClaimsView|
                c.wf() && #[trigger] claims_text(c) == t@ implies false by {
                lemma_claims_layout(c);
                lemma_nat_text(abs_sub(c));
            }
        }
        return None;
    }
    let neg = t.get_char(7) == '-';
    let start: usize = if neg { 8 } else { 7 };
    let (m, d1) = match read_nat(t, start) {
        Some(p) => p,
        None => {
            proof {
                assert forall|c: ClaimsView|
                    c.wf() && #[trigger] claims_text(c) == t@ implies false by {
                    lemma_claims_layout(c);
                    assert(t@.subrange(start as int, sub_end(c)) == nat_text(
                        (abs_sub(c) as u64) as nat,
                    ));
                }
            }
            return None;
        },
    };
    if (neg && m > 2147483648) || (!neg && m > 2147483647) {
        proof {
            assert forall|c: ClaimsView|
                c.wf() && #[trigger] claims_text(c) == t@ implies false by {
                lemma_claims_layout(c);
                assert(t@.subrange(start as int, sub_end(c)) == nat_text(
                    (abs_sub(c) as u64) as nat,
                ));
            }
        }
        return None;
    }
    let sub: i32 = if neg {
        (-(m as i64)) as i32
    } else {
        m as i32
    };
    proof {
        assert forall|c: ClaimsView|
            c.wf() && #[trigger] claims_text(c) == t@ implies sub == c.sub && d1 == sub_end(c) by {
            lemma_claims_layout(c);
            assert(t@.subrange(start as int, sub_end(c)) == nat_text((abs_sub(c) as u64) as nat));
        }
    }
    Some((sub, d1))
}

/// Reads the role key and the role that starts after it at `d1`; returns the
/// role and where it ends.
fn read_role(t: &str, d1: usize) -> (r: Option<(String, usize)>)
    requires
        d1 <= t@.len(),
    ensures
        r matches Some((role, j)) ==> j <= t@.len() && (forall|k: int|
            0 <= k < role@.len() ==> plain_char(#[trigger] role@[k])),
        forall|c: ClaimsView|
            c.wf() && #[trigger] claims_text(c) == t@ && sub_end(c) == d1 ==> (r matches Some(
                (role, j),
            ) && role@ == c.role && j == role_end(c)),
{
    proof {
        lemma_keys();
    }
    if !text_at(t, d1, ",\"role\":\"") {
        proof {
            assert forall|c: ClaimsView|
                c.wf() && #[trigger] claims_text(c) == t@ && sub_end(c) == d1 implies false by {
                lemma_claims_layout(c);
            }
        }
        return None;
    }
    let rs: usize = d1 + 9;
    let re = plain_run_end(t, rs);
    let role = t.substring_char(rs, re).to_owned();
    proof {
        assert forall|k: int| 0 <= k < role@.len() implies plain_char(#[trigger] role@[k]) by {
            assert(role@[k] == t@[rs + k]);
        }
        assert forall|c: ClaimsView|
            c.wf() && #[trigger] claims_text(c) == t@ && sub_end(c) == d1 implies role@ == c.role
            && re == role_end(c) by {
            lemma_claims_layout(c);
            if re < role_end(c) {
                assert(t@.subrange(role_start(c), role_end(c))[re - rs] == t@[re as int]);
            } else if re > role_end(c) {
                assert(plain_char(t@[role_end(c)]));
            }
        }
    }
    Some((role, re))
}

/// Reads the expiry key, the expiry and the closing brace, from `re` to the end.
fn read_exp(t: &str, re: usize) -> (r: Option<u64>)
    requires
        re <= t@.len(),
    ensures
        forall|c: ClaimsView|
            c.wf() && #[trigger] claims_text(c) == t@ && role_end(c) == re ==> r == Some(c.exp),
{
    proof {
        lemma_keys();
    }
    if !text_at(t, re, "\",\"exp\":") {
        proof {
            assert forall|c: ClaimsView|
                c.wf() && #[trigger] claims_text(c) == t@ && role_end(c) == re implies false by {
                lemma_claims_layout(c);
            }
        }
        return None;
    }
    match read_nat(t, re + 8) {
        Some((exp, _)) => {
            proof {
                assert forall|c: ClaimsView|
                    c.wf() && #[trigger] claims_text(c) == t@ && role_end(c) == re implies Some(exp)
                    == Some(c.exp) by {
                    lemma_claims_layout(c);
                    assert(t@.subrange(re + 8, exp_end(c)) == nat_text(c.exp as nat));
                }
            }
            Some(exp)
        },
        None => {
            proof {
                assert forall|c: ClaimsView|
                    c.wf() && #[trigger] claims_text(c) == t@ && role_end(c) == re implies false by {
                    lemma_claims_layout(c);
                    assert(t@.subrange(re + 8, exp_end(c)) == nat_text(c.exp as nat));
                }
            }
            None
        },
    }
}

/// Reads claims from their JSON text; `None` where the text is not the text of
/// any claims.
pub fn claims_from_text(t: &str) -> (r: Option<Claims>)
    ensures
        r matches Some(c) ==> c@.wf() && claims_text(c@) == t@,
        forall|c: ClaimsView|
            c.wf() && #[trigger] claims_text(c) == t@ ==> (r matches Some(x) && x@ == c),
        match claims_of_text(t@) {
            Some(c) => r matches Some(x) && x@ == c,
            None => r is None,
        },
{
    let (sub, d1) = match read_sub(t) {
        Some(p) => p,
        None => return None,
    };
    let (role, re) = match read_role(t, d1) {
        Some(p) => p,
        None => return None,
    };
    let exp = match read_exp(t, re) {
        Some(e) => e,
        None => return None,
    };
    let c = Claims { sub, role, exp };
    let text = claims_to_text(&c);
    let whole = t.to_owned();
    proof {
        assert forall|x: ClaimsView| x.wf() && #[trigger] claims_text(x) == t@ implies c@ == x by {
            assert(c@.role == x.role);
        }
    }
    if text == whole {
        proof {
            let d = choose|d: ClaimsView| d.wf() && #[trigger] claims_text(d) == t@;
            lemma_claims_text_injective(c@, d);
        }
        Some(c)
    } else {
        None
    }
}

} // verus!
