//! Character-level building blocks of the persistence format: escaped
//! strings, decimal numbers, fixed literals, and their parsers.
//!
//! The writers emit one canonical text for each value and the parsers
//! accept exactly that text, so writing and then parsing a container
//! gives the container back.

use vstd::prelude::*;
use vstd::string::StrSliceExecFns;
use crate::dec::{dec_digits, digit_char};
use crate::text::push_char;

verus! {

/// The escaped form of one string character: quote and backslash take a
/// backslash, everything else stands for itself.
pub open spec fn esc_char(c: char) -> Seq<char> {
    if c == '"' {
        seq!['\\', '"']
    } else if c == '\\' {
        seq!['\\', '\\']
    } else {
        seq![c]
    }
}

/// The escaped form of a string's characters.
pub open spec fn esc_str(s: Seq<char>) -> Seq<char>
    decreases s.len(),
{
    if s.len() == 0 {
        Seq::empty()
    } else {
        esc_char(s[0]) + esc_str(s.drop_first())
    }
}

/// A string value as written: its escaped characters and the closing
/// quote. The opening quote belongs to the literal before it.
pub open spec fn str_enc(s: Seq<char>) -> Seq<char> {
    esc_str(s) + seq!['"']
}

/// An optional string as written: `null`, or a quoted string.
pub open spec fn opt_str_enc(o: Option<Seq<char>>) -> Seq<char> {
    match o {
        None => "null"@,
        Some(s) => seq!['"'] + str_enc(s),
    }
}

/// Whether the character is a decimal digit.
pub open spec fn is_digit_char(c: char) -> bool {
    48 <= c as int <= 57
}

/// The value of a digit character.
pub open spec fn digit_val(c: char) -> nat
    recommends
        is_digit_char(c),
{
    (c as int - 48) as nat
}

/// Consumes a fixed literal from the front of the text.
pub open spec fn p_lit(rem: Seq<char>, lit: Seq<char>) -> Option<Seq<char>> {
    if rem.len() >= lit.len() && rem.take(lit.len() as int) == lit {
        Some(rem.skip(lit.len() as int))
    } else {
        None
    }
}

/// Consumes a string body up to and including its closing quote,
/// undoing the escaping. A text that ends inside the string or holds a
/// stray escape is refused.
pub open spec fn p_string_body(rem: Seq<char>) -> Option<(Seq<char>, Seq<char>)>
    decreases rem.len(),
{
    if rem.len() == 0 {
        None
    } else if rem[0] == '"' {
        Some((Seq::empty(), rem.drop_first()))
    } else if rem[0] == '\\' {
        if rem.len() < 2 || !(rem[1] == '"' || rem[1] == '\\') {
            None
        } else {
            match p_string_body(rem.skip(2)) {
                None => None,
                Some((v, r)) => Some((seq![rem[1]] + v, r)),
            }
        }
    } else {
        match p_string_body(rem.drop_first()) {
            None => None,
            Some((v, r)) => Some((seq![rem[0]] + v, r)),
        }
    }
}

/// Consumes digits from the front of the text, folding them onto `acc`.
pub open spec fn p_digits(rem: Seq<char>, acc: nat) -> (nat, Seq<char>)
    decreases rem.len(),
{
    if rem.len() > 0 && is_digit_char(rem[0]) {
        p_digits(rem.drop_first(), acc * 10 + digit_val(rem[0]))
    } else {
        (acc, rem)
    }
}

/// Consumes a number: at least one digit, read greedily.
pub open spec fn p_number(rem: Seq<char>) -> Option<(nat, Seq<char>)> {
    if rem.len() > 0 && is_digit_char(rem[0]) {
        Some(p_digits(rem, 0))
    } else {
        None
    }
}

/// Consumes an optional string: `null`, or a quoted string.
pub open spec fn p_opt_str(rem: Seq<char>) -> Option<(Option<Seq<char>>, Seq<char>)> {
    match p_lit(rem, "null"@) {
        Some(r) => Some((None, r)),
        None => match p_lit(rem, seq!['"']) {
            Some(r1) => match p_string_body(r1) {
                Some((v, r2)) => Some((Some(v), r2)),
                None => None,
            },
            None => None,
        },
    }
}

/// Appends the escaped characters of `v` and the closing quote.
pub fn push_str_enc(s: &mut String, v: &str)
    ensures
        final(s)@ == old(s)@ + str_enc(v@),
{
    let ghost s0 = s@;
    let n = v.unicode_len();
    let mut i: usize = 0;
    while i < n
        invariant
            n == v@.len(),
            0 <= i <= n,
            s@ == s0 + esc_str(v@.take(i as int)),
        decreases n - i,
    {
        let ghost t0 = v@.take(i as int);
        let ghost t1 = v@.take(i as int + 1);
        let c = v.get_char(i);
        if c == '"' || c == '\\' {
            push_char(s, '\\');
            push_char(s, c);
        } else {
            push_char(s, c);
        }
        proof {
            assert(t1 =~= t0 + seq![c]);
            lemma_esc_str_append(t0, seq![c]);
            assert(seq![c].drop_first() =~= Seq::<char>::empty());
            assert(esc_str(seq![c]) == esc_char(c) + esc_str(Seq::<char>::empty()));
            assert(esc_str(seq![c]) =~= esc_char(c));
            assert(s@ =~= s0 + esc_str(t1));
        }
        i += 1;
    }
    push_char(s, '"');
    proof {
        assert(v@.take(n as int) =~= v@);
        assert(s@ =~= s0 + str_enc(v@));
    }
}

/// Appends an optional string: `null`, or a quoted string.
pub fn push_opt_str(s: &mut String, v: &Option<String>)
    ensures
        final(s)@ == old(s)@ + opt_str_enc(v.deep_view()),
{
    let ghost s0 = s@;
    match v {
        None => {
            s.append("null");
        },
        Some(x) => {
            push_char(s, '"');
            push_str_enc(s, x.as_str());
            proof {
                assert(s@ =~= s0 + (seq!['"'] + str_enc(x@)));
            }
        },
    }
}

/// Consumes the literal at the cursor; on a mismatch the cursor stays.
pub fn eat_lit(s: &str, pos: &mut usize, lit: &str) -> (r: bool)
    requires
        *old(pos) <= s@.len(),
    ensures
        r ==> *final(pos) == *old(pos) + lit@.len() && *final(pos) <= s@.len() && p_lit(
            s@.skip(*old(pos) as int),
            lit@,
        ) == Some(s@.skip(*final(pos) as int)),
        !r ==> p_lit(s@.skip(*old(pos) as int), lit@) is None && *final(pos) == *old(pos),
{
    let i = *pos;
    let n = lit.unicode_len();
    let sn = s.unicode_len();
    if sn - i < n {
        proof {
            assert(s@.skip(i as int).len() < lit@.len());
        }
        return false;
    }
    let mut k: usize = 0;
    while k < n
        invariant
            i <= s@.len(),
            n == lit@.len(),
            sn == s@.len(),
            sn - i >= n,
            0 <= k <= n,
            i == *pos,
            forall|t: int| 0 <= t < k ==> s@[i + t] == lit@[t],
        decreases n - k,
    {
        if s.get_char(i + k) != lit.get_char(k) {
            proof {
                let rem = s@.skip(i as int);
                assert(rem.take(n as int)[k as int] == s@[i + k]);
                assert(rem.take(n as int) != lit@);
            }
            return false;
        }
        k += 1;
    }
    proof {
        let rem = s@.skip(i as int);
        assert(rem.take(n as int) =~= lit@);
        assert(rem.skip(n as int) =~= s@.skip(i as int + n as int));
    }
    *pos = i + n;
    true
}

/// Consumes a string body up to and including its closing quote,
/// undoing the escaping; on a refusal the parse as a whole is refused.
pub fn parse_string_at(s: &str, pos: &mut usize) -> (r: Option<String>)
    requires
        *old(pos) <= s@.len(),
    ensures
        r matches Some(v) ==> *old(pos) < *final(pos) <= s@.len() && p_string_body(
            s@.skip(*old(pos) as int),
        ) == Some((v@, s@.skip(*final(pos) as int))),
        r is None ==> p_string_body(s@.skip(*old(pos) as int)) is None,
{
    let ghost i0 = *pos as int;
    let n = s.unicode_len();
    let mut out = String::new();
    let mut j: usize = *pos;
    while j < n
        invariant
            i0 == *old(pos) as int,
            i0 <= j <= n,
            n == s@.len(),
            i0 >= 0,
            (match p_string_body(s@.skip(j as int)) {
                Some((v2, rr)) => p_string_body(s@.skip(i0)) == Some((out@ + v2, rr)),
                None => p_string_body(s@.skip(i0)) is None,
            }),
        decreases n - j,
    {
        let ghost rem = s@.skip(j as int);
        let c = s.get_char(j);
        proof {
            assert(rem[0] == c);
        }
        if c == '"' {
            proof {
                assert(rem.drop_first() =~= s@.skip(j as int + 1));
                assert(p_string_body(rem) == Some((Seq::<char>::empty(), s@.skip(j as int + 1))));
                assert(out@ + Seq::<char>::empty() =~= out@);
            }
            *pos = j + 1;
            return Some(out);
        } else if c == '\\' {
            if j + 1 >= n {
                proof {
                    assert(rem.len() < 2);
                    assert(p_string_body(rem) is None);
                }
                return None;
            }
            let c2 = s.get_char(j + 1);
            proof {
                assert(rem[1] == c2);
            }
            if c2 == '"' || c2 == '\\' {
                let ghost outpre = out@;
                push_char(&mut out, c2);
                proof {
                    assert(rem.skip(2) =~= s@.skip(j as int + 2));
                    if p_string_body(s@.skip(j as int + 2)) is Some {
                        let (v2, rr) = p_string_body(s@.skip(j as int + 2)).unwrap();
                        assert(p_string_body(rem) == Some((seq![c2] + v2, rr)));
                        assert(outpre + (seq![c2] + v2) =~= (outpre + seq![c2]) + v2);
                        assert(out@ == outpre + seq![c2]) by {
                            assert(out@ =~= outpre + seq![c2]);
                        }
                    } else {
                        assert(p_string_body(rem) is None);
                    }
                }
                j += 2;
            } else {
                proof {
                    assert(p_string_body(rem) is None);
                }
                return None;
            }
        } else {
            let ghost outpre = out@;
            push_char(&mut out, c);
            proof {
                assert(rem.drop_first() =~= s@.skip(j as int + 1));
                if p_string_body(s@.skip(j as int + 1)) is Some {
                    let (v2, rr) = p_string_body(s@.skip(j as int + 1)).unwrap();
                    assert(p_string_body(rem) == Some((seq![c] + v2, rr)));
                    assert(outpre + (seq![c] + v2) =~= (outpre + seq![c]) + v2);
                    assert(out@ =~= outpre + seq![c]);
                } else {
                    assert(p_string_body(rem) is None);
                }
            }
            j += 1;
        }
    }
    proof {
        assert(s@.skip(n as int).len() == 0);
        assert(p_string_body(s@.skip(n as int)) is None);
    }
    None
}

/// Consumes a number into a `u64`; a missing digit or a value above
/// `u64::MAX` is refused.
pub fn parse_u64_at(s: &str, pos: &mut usize) -> (r: Option<u64>)
    requires
        *old(pos) <= s@.len(),
    ensures
        r matches Some(v) ==> *old(pos) < *final(pos) <= s@.len() && p_number(
            s@.skip(*old(pos) as int),
        ) == Some((v as nat, s@.skip(*final(pos) as int))),
        r is None ==> (p_number(s@.skip(*old(pos) as int)) is None || p_number(
            s@.skip(*old(pos) as int),
        ).unwrap().0 > u64::MAX),
{
    let ghost i0 = *pos as int;
    let n = s.unicode_len();
    let i = *pos;
    if i >= n {
        return None;
    }
    let c0 = s.get_char(i);
    let cv0 = c0 as u32;
    proof {
        assert(s@.skip(i0)[0] == c0);
    }
    if !(48 <= cv0 && cv0 <= 57) {
        return None;
    }

    let mut acc: u64 = 0;
    let mut j: usize = i;
    loop
        invariant
            i0 == *old(pos) as int,
            i0 <= j <= n,
            n == s@.len(),
            i0 >= 0,
            p_number(s@.skip(i0)) is Some,
            p_digits(s@.skip(i0), 0) == p_digits(s@.skip(j as int), acc as nat),
        ensures
            i0 <= j <= n,
            n == s@.len(),
            p_number(s@.skip(i0)) is Some,
            p_digits(s@.skip(i0), 0) == p_digits(s@.skip(j as int), acc as nat),
            j == n || !is_digit_char(s@.skip(j as int)[0]),
        decreases n - j,
    {
        if j >= n {
            break;
        }
        let c = s.get_char(j);
        let cv = c as u32;
        if !(48 <= cv && cv <= 57) {
            proof {
                assert(s@.skip(j as int)[0] == c);
                assert(!is_digit_char(s@.skip(j as int)[0]));
            }
            break;
        }
        let d64: u64 = (c as u32 as u64) - 48;
        proof {
            assert(s@.skip(j as int)[0] == c);
            assert(is_digit_char(c));
            assert(digit_val(c) == d64 as nat);
        }
        if acc > (u64::MAX - d64) / 10 {
            proof {
                let rem = s@.skip(j as int);
                assert(p_digits(rem, acc as nat) == p_digits(
                    rem.drop_first(),
                    (acc as nat) * 10 + digit_val(c),
                ));
                lemma_p_digits_ge(rem.drop_first(), (acc as nat) * 10 + digit_val(c));
                assert((acc as nat) * 10 + (d64 as nat) > u64::MAX) by (nonlinear_arith)
                    requires
                        acc > (u64::MAX - d64) / 10,
                        d64 <= 9,
                ;
            }
            return None;
        }
        proof {
            assert((acc as nat) * 10 + (d64 as nat) <= u64::MAX) by (nonlinear_arith)
                requires
                    acc <= (u64::MAX - d64) / 10,
                    d64 <= 9,
            ;
            assert(s@.skip(j as int).drop_first() =~= s@.skip(j as int + 1));
        }
        acc = acc * 10 + d64;
        j += 1;
    }
    proof {
        let rem = s@.skip(j as int);
        assert(p_digits(rem, acc as nat) == ((acc as nat, rem)));
        assert(s@.skip(i0)[0] == c0);
        assert(is_digit_char(s@.skip(i0)[0]));
        assert(j > i0);
    }
    *pos = j;
    Some(acc)
}

/// Consumes a number into a `u32`; a missing digit or a value above
/// `u32::MAX` is refused.
pub fn parse_u32_at(s: &str, pos: &mut usize) -> (r: Option<u32>)
    requires
        *old(pos) <= s@.len(),
    ensures
        r matches Some(v) ==> *old(pos) < *final(pos) <= s@.len() && p_number(
            s@.skip(*old(pos) as int),
        ) == Some((v as nat, s@.skip(*final(pos) as int))),
        r is None ==> (p_number(s@.skip(*old(pos) as int)) is None || p_number(
            s@.skip(*old(pos) as int),
        ).unwrap().0 > u32::MAX),
{
    match parse_u64_at(s, pos) {
        Some(v) => {
            if v <= 0xffff_ffff {
                Some(v as u32)
            } else {
                None
            }
        },
        None => None,
    }
}

/// Consumes an optional string: `null`, or a quoted string.
pub fn parse_opt_str_at(s: &str, pos: &mut usize) -> (r: Option<Option<String>>)
    requires
        *old(pos) <= s@.len(),
    ensures
        r matches Some(o) ==> *old(pos) < *final(pos) <= s@.len() && p_opt_str(
            s@.skip(*old(pos) as int),
        ) == Some((o.deep_view(), s@.skip(*final(pos) as int))),
        r is None ==> p_opt_str(s@.skip(*old(pos) as int)) is None,
{
    let ghost i0 = *pos as int;
    if eat_lit(s, pos, "null") {
        proof {
            reveal_strlit("null");
        }
        return Some(None);
    }
    if eat_lit(s, pos, "\"") {
        proof {
            reveal_strlit("\"");
            assert("\""@ =~= seq!['"']);
        }
        match parse_string_at(s, pos) {
            Some(v) => Some(Some(v)),
            None => None,
        }
    } else {
        proof {
            reveal_strlit("\"");
            assert("\""@ =~= seq!['"']);
        }
        None
    }
}

/// Escaping splits over concatenation.
pub proof fn lemma_esc_str_append(a: Seq<char>, b: Seq<char>)
    ensures
        esc_str(a + b) == esc_str(a) + esc_str(b),
    decreases a.len(),
{
    if a.len() == 0 {
        assert(a + b =~= b);
        assert(esc_str(a) + esc_str(b) =~= esc_str(b));
    } else {
        assert((a + b).drop_first() =~= a.drop_first() + b);
        lemma_esc_str_append(a.drop_first(), b);
        assert(esc_char((a + b)[0]) + (esc_str(a.drop_first()) + esc_str(b)) =~= (esc_char(a[0])
            + esc_str(a.drop_first())) + esc_str(b));
    }
}

/// A literal at the front of the text parses to exactly what follows it.
pub proof fn lemma_p_lit_exact(lit: Seq<char>, rest: Seq<char>)
    ensures
        p_lit(lit + rest, lit) == Some(rest),
{
    assert((lit + rest).take(lit.len() as int) =~= lit);
    assert((lit + rest).skip(lit.len() as int) =~= rest);
}

/// An escaped string followed by its closing quote parses back to the
/// original string.
pub proof fn lemma_p_string_body_enc(v: Seq<char>, rest: Seq<char>)
    ensures
        p_string_body(str_enc(v) + rest) == Some((v, rest)),
    decreases v.len(),
{
    if v.len() == 0 {
        assert(str_enc(v) =~= seq!['"']);
        assert((str_enc(v) + rest)[0] == '"');
        assert((str_enc(v) + rest).drop_first() =~= rest);
    } else {
        let c = v[0];
        let tail = v.drop_first();
        lemma_p_string_body_enc(tail, rest);
        assert(esc_str(v) == esc_char(c) + esc_str(tail));
        let whole = str_enc(v) + rest;
        if c == '"' || c == '\\' {
            assert(whole =~= seq!['\\', c] + (str_enc(tail) + rest));
            assert(whole[0] == '\\');
            assert(whole[1] == c);
            assert(whole.skip(2) =~= str_enc(tail) + rest);
            assert(seq![c] + tail =~= v);
        } else {
            assert(whole =~= seq![c] + (str_enc(tail) + rest));
            assert(whole[0] == c);
            assert(whole[0] != '"' && whole[0] != '\\');
            assert(whole.drop_first() =~= str_enc(tail) + rest);
            assert(seq![c] + tail =~= v);
        }
    }
}

/// Digits only raise the accumulated value.
pub proof fn lemma_p_digits_ge(rem: Seq<char>, acc: nat)
    ensures
        p_digits(rem, acc).0 >= acc,
    decreases rem.len(),
{
    if rem.len() > 0 && is_digit_char(rem[0]) {
        lemma_p_digits_ge(rem.drop_first(), acc * 10 + digit_val(rem[0]));
    }
}

/// Ten to the power `k`.
pub open spec fn ten_pow(k: nat) -> nat
    decreases k,
{
    if k == 0 {
        1nat
    } else {
        10 * ten_pow((k - 1) as nat)
    }
}

/// Every character of a decimal numeral is a digit, and the digit value
/// of `digit_char` is the digit itself.
pub proof fn lemma_dec_digits_are_digits(n: nat)
    ensures
        dec_digits(n).len() >= 1,
        forall|i: int| 0 <= i < dec_digits(n).len() ==> is_digit_char(#[trigger] dec_digits(n)[i]),
    decreases n,
{
    if n < 10 {
        assert(is_digit_char(digit_char(n)));
    } else {
        lemma_dec_digits_are_digits(n / 10);
        assert(is_digit_char(digit_char(n % 10)));
        assert forall|i: int| 0 <= i < dec_digits(n).len() implies is_digit_char(
            #[trigger] dec_digits(n)[i],
        ) by {
            if i < dec_digits(n / 10).len() {
                assert(dec_digits(n)[i] == dec_digits(n / 10)[i]);
            } else {
                assert(dec_digits(n)[i] == digit_char(n % 10));
            }
        }
    }
}

/// Parsing digits walks through an all-digit prefix.
pub proof fn lemma_p_digits_split(a: Seq<char>, b: Seq<char>, acc: nat)
    requires
        forall|i: int| 0 <= i < a.len() ==> is_digit_char(#[trigger] a[i]),
    ensures
        p_digits(a + b, acc) == p_digits(b, p_digits(a, acc).0),
    decreases a.len(),
{
    if a.len() == 0 {
        assert(a + b =~= b);
    } else {
        assert((a + b)[0] == a[0]);
        assert((a + b).drop_first() =~= a.drop_first() + b);
        lemma_p_digits_split(a.drop_first(), b, acc * 10 + digit_val(a[0]));
    }
}

/// Parsing the decimal numeral of `n` onto `acc` yields `acc` shifted
/// past the numeral, plus `n`.
pub proof fn lemma_p_digits_dec(n: nat, acc: nat)
    ensures
        p_digits(dec_digits(n), acc) == ((acc * ten_pow(dec_digits(n).len() as nat) + n,
        Seq::<char>::empty())),
    decreases n,
{
    lemma_dec_digits_are_digits(n);
    if n < 10 {
        assert(dec_digits(n) == seq![digit_char(n)]);
        assert(digit_val(digit_char(n)) == n);
        assert(dec_digits(n).drop_first() =~= Seq::<char>::empty());
        assert(is_digit_char(dec_digits(n)[0]));
        assert(p_digits(dec_digits(n), acc) == p_digits(
            Seq::<char>::empty(),
            acc * 10 + digit_val(dec_digits(n)[0]),
        ));
        assert(p_digits(Seq::<char>::empty(), acc * 10 + n) == ((acc * 10 + n,
        Seq::<char>::empty())));
        assert(ten_pow(0) == 1);
        assert(ten_pow(1) == 10);
    } else {
        let hi = dec_digits(n / 10);
        let lo = seq![digit_char(n % 10)];
        assert(dec_digits(n) == hi + lo);
        lemma_dec_digits_are_digits(n / 10);
        lemma_p_digits_split(hi, lo, acc);
        lemma_p_digits_dec(n / 10, acc);
        let vhi = acc * ten_pow(hi.len() as nat) + n / 10;
        let phi = ten_pow(hi.len() as nat);
        assert(p_digits(hi, acc).0 == vhi);
        assert(digit_val(digit_char(n % 10)) == n % 10);
        assert(is_digit_char(lo[0]));
        assert(lo.drop_first() =~= Seq::<char>::empty());
        assert(p_digits(lo, vhi) == p_digits(Seq::<char>::empty(), vhi * 10 + digit_val(lo[0])));
        assert(p_digits(Seq::<char>::empty(), vhi * 10 + n % 10) == ((vhi * 10 + n % 10,
        Seq::<char>::empty())));
        assert(ten_pow(dec_digits(n).len() as nat) == 10 * phi);
        assert(vhi * 10 + n % 10 == acc * (10 * phi) + ((n / 10) * 10 + n % 10))
            by (nonlinear_arith)
            requires
                vhi == acc * phi + n / 10,
        ;
        assert((n / 10) * 10 + n % 10 == n);
    }
}

/// The decimal numeral of `n`, followed by anything that does not start
/// with a digit, parses back to `n`.
pub proof fn lemma_p_number_enc(n: nat, rest: Seq<char>)
    requires
        rest.len() == 0 || !is_digit_char(rest[0]),
    ensures
        p_number(dec_digits(n) + rest) == Some((n, rest)),
{
    lemma_dec_digits_are_digits(n);
    let whole = dec_digits(n) + rest;
    assert(whole[0] == dec_digits(n)[0]);
    lemma_p_digits_split(dec_digits(n), rest, 0);
    lemma_p_digits_dec(n, 0);
    assert(p_digits(dec_digits(n), 0).0 == 0 * ten_pow(dec_digits(n).len() as nat) + n);
    assert(p_digits(rest, n) == ((n, rest)));
}

/// Consumes a number that must fit a `u32`.
pub open spec fn p_u32(rem: Seq<char>) -> Option<(u32, Seq<char>)> {
    match p_number(rem) {
        None => None,
        Some(t) => if t.0 <= u32::MAX {
            Some((t.0 as u32, t.1))
        } else {
            None
        },
    }
}

/// Consumes a number that must fit a `u64`.
pub open spec fn p_u64(rem: Seq<char>) -> Option<(u64, Seq<char>)> {
    match p_number(rem) {
        None => None,
        Some(t) => if t.0 <= u64::MAX {
            Some((t.0 as u64, t.1))
        } else {
            None
        },
    }
}

/// The numeral of a `u32`, followed by anything that does not start
/// with a digit, parses back to it.
pub proof fn lemma_p_u32_enc(n: u32, rest: Seq<char>)
    requires
        rest.len() == 0 || !is_digit_char(rest[0]),
    ensures
        p_u32(dec_digits(n as nat) + rest) == Some((n, rest)),
{
    lemma_p_number_enc(n as nat, rest);
}

/// The numeral of a `u64`, followed by anything that does not start
/// with a digit, parses back to it.
pub proof fn lemma_p_u64_enc(n: u64, rest: Seq<char>)
    requires
        rest.len() == 0 || !is_digit_char(rest[0]),
    ensures
        p_u64(dec_digits(n as nat) + rest) == Some((n, rest)),
{
    lemma_p_number_enc(n as nat, rest);
}

/// A written optional string parses back to the option.
pub proof fn lemma_p_opt_str_enc(o: Option<Seq<char>>, rest: Seq<char>)
    ensures
        p_opt_str(opt_str_enc(o) + rest) == Some((o, rest)),
{
    reveal_strlit("null");
    match o {
        None => {
            lemma_p_lit_exact("null"@, rest);
        },
        Some(s) => {
            let whole = opt_str_enc(o) + rest;
            assert(whole =~= seq!['"'] + (str_enc(s) + rest));
            assert(whole[0] == '"');
            assert(p_lit(whole, "null"@) is None) by {
                if whole.len() >= "null"@.len() {
                    assert(whole.take("null"@.len() as int)[0] == '"');
                }
            }
            lemma_p_lit_exact(seq!['"'], str_enc(s) + rest);
            lemma_p_string_body_enc(s, rest);
        },
    }
}

/// An array as written: `[]` when empty, else the opening literal, the
/// first element, each further element behind the separator, and the
/// closing literal.
pub open spec fn enc_array<T>(
    vs: Seq<T>,
    f: spec_fn(T) -> Seq<char>,
    lopen: Seq<char>,
    lsep: Seq<char>,
    lend: Seq<char>,
) -> Seq<char> {
    if vs.len() == 0 {
        "[]"@
    } else {
        lopen + f(vs[0]) + enc_array_mid(vs.drop_first(), f, lsep) + lend
    }
}

/// The middle of an array: every element behind its separator.
pub open spec fn enc_array_mid<T>(l: Seq<T>, f: spec_fn(T) -> Seq<char>, lsep: Seq<char>) -> Seq<
    char,
>
    decreases l.len(),
{
    if l.len() == 0 {
        Seq::empty()
    } else {
        lsep + f(l[0]) + enc_array_mid(l.drop_first(), f, lsep)
    }
}

/// The middle of an array splits over concatenation.
pub proof fn lemma_enc_array_mid_append<T>(
    a: Seq<T>,
    b: Seq<T>,
    f: spec_fn(T) -> Seq<char>,
    lsep: Seq<char>,
)
    ensures
        enc_array_mid(a + b, f, lsep) == enc_array_mid(a, f, lsep) + enc_array_mid(b, f, lsep),
    decreases a.len(),
{
    if a.len() == 0 {
        assert(a + b =~= b);
        assert(enc_array_mid(a, f, lsep) + enc_array_mid(b, f, lsep) =~= enc_array_mid(b, f, lsep));
    } else {
        assert((a + b)[0] == a[0]);
        assert((a + b).drop_first() =~= a.drop_first() + b);
        lemma_enc_array_mid_append(a.drop_first(), b, f, lsep);
        assert(lsep + f(a[0]) + (enc_array_mid(a.drop_first(), f, lsep) + enc_array_mid(b, f, lsep))
            =~= (lsep + f(a[0]) + enc_array_mid(a.drop_first(), f, lsep)) + enc_array_mid(
            b,
            f,
            lsep,
        ));
    }
}

/// Consumes an array: `[]`, or the opening literal and at least one
/// element, each further one behind the separator, then the closing
/// literal.
pub open spec fn p_array<T>(
    rem: Seq<char>,
    p: spec_fn(Seq<char>) -> Option<(T, Seq<char>)>,
    lopen: Seq<char>,
    lsep: Seq<char>,
    lend: Seq<char>,
) -> Option<(Seq<T>, Seq<char>)> {
    match p_lit(rem, "[]"@) {
        Some(r) => Some((Seq::empty(), r)),
        None => match p_lit(rem, lopen) {
            None => None,
            Some(r1) => match p(r1) {
                None => None,
                Some((v, r2)) => p_array_rest(r2, p, lsep, lend, seq![v]),
            },
        },
    }
}

/// Consumes the rest of a non-empty array, element by element.
pub open spec fn p_array_rest<T>(
    rem: Seq<char>,
    p: spec_fn(Seq<char>) -> Option<(T, Seq<char>)>,
    lsep: Seq<char>,
    lend: Seq<char>,
    acc: Seq<T>,
) -> Option<(Seq<T>, Seq<char>)>
    decreases rem.len(),
{
    match p_lit(rem, lend) {
        Some(r) => Some((acc, r)),
        None => match p_lit(rem, lsep) {
            None => None,
            Some(r1) => match p(r1) {
                None => None,
                Some((v, r2)) => if r2.len() < rem.len() {
                    p_array_rest(r2, p, lsep, lend, acc.push(v))
                } else {
                    None
                },
            },
        },
    }
}

/// Parsing the middle of a written array hands back its elements, when
/// each element's text parses back to the element and the separator and
/// the closing literal cannot be mistaken for one another.
pub proof fn lemma_p_array_rest_enc<T>(
    l: Seq<T>,
    acc: Seq<T>,
    f: spec_fn(T) -> Seq<char>,
    p: spec_fn(Seq<char>) -> Option<(T, Seq<char>)>,
    lsep: Seq<char>,
    lend: Seq<char>,
    rest: Seq<char>,
)
    requires
        forall|k: int, rr: Seq<char>|
            0 <= k < l.len() ==> #[trigger] p(f(l[k]) + rr) == Some((l[k], rr)),
        lsep.len() > 0,
        lend.len() > 0,
        lsep[0] != lend[0],
    ensures
        p_array_rest(enc_array_mid(l, f, lsep) + (lend + rest), p, lsep, lend, acc) == Some(
            (acc + l, rest),
        ),
    decreases l.len(),
{
    if l.len() == 0 {
        let whole = enc_array_mid(l, f, lsep) + (lend + rest);
        assert(whole =~= lend + rest);
        lemma_p_lit_exact(lend, rest);
        assert(acc + l =~= acc);
    } else {
        let mid_tail = enc_array_mid(l.drop_first(), f, lsep);
        let whole = enc_array_mid(l, f, lsep) + (lend + rest);
        assert(whole =~= lsep + (f(l[0]) + (mid_tail + (lend + rest))));
        assert(whole[0] == lsep[0]);
        assert(p_lit(whole, lend) is None) by {
            if whole.len() >= lend.len() {
                assert(whole.take(lend.len() as int)[0] == lsep[0]);
            }
        }
        lemma_p_lit_exact(lsep, f(l[0]) + (mid_tail + (lend + rest)));
        assert(p(f(l[0]) + (mid_tail + (lend + rest))) == Some((l[0], mid_tail + (lend + rest))));
        let r2 = mid_tail + (lend + rest);
        assert(r2.len() < whole.len());
        lemma_p_array_rest_enc(l.drop_first(), acc.push(l[0]), f, p, lsep, lend, rest);
        assert(mid_tail + (lend + rest) =~= enc_array_mid(l.drop_first(), f, lsep) + (lend + rest));
        assert(acc.push(l[0]) + l.drop_first() =~= acc + l);
    }
}

/// Parsing a written array hands back its elements.
pub proof fn lemma_p_array_enc<T>(
    vs: Seq<T>,
    f: spec_fn(T) -> Seq<char>,
    p: spec_fn(Seq<char>) -> Option<(T, Seq<char>)>,
    lopen: Seq<char>,
    lsep: Seq<char>,
    lend: Seq<char>,
    rest: Seq<char>,
)
    requires
        forall|k: int, rr: Seq<char>|
            0 <= k < vs.len() ==> #[trigger] p(f(vs[k]) + rr) == Some((vs[k], rr)),
        lsep.len() > 0,
        lend.len() > 0,
        lsep[0] != lend[0],
        lopen.len() >= 2,
        lopen[0] == '[',
        lopen[1] != ']',
    ensures
        p_array(enc_array(vs, f, lopen, lsep, lend) + rest, p, lopen, lsep, lend) == Some(
            (vs, rest),
        ),
{
    reveal_strlit("[]");
    if vs.len() == 0 {
        let whole = enc_array(vs, f, lopen, lsep, lend) + rest;
        assert(whole =~= "[]"@ + rest);
        lemma_p_lit_exact("[]"@, rest);
    } else {
        let tail = f(vs[0]) + (enc_array_mid(vs.drop_first(), f, lsep) + (lend + rest));
        let whole = enc_array(vs, f, lopen, lsep, lend) + rest;
        assert(whole =~= lopen + tail);
        assert(whole[1] == lopen[1]);
        assert(p_lit(whole, "[]"@) is None) by {
            assert("[]"@.len() == 2);
            assert("[]"@[1] == ']');
            if whole.len() >= 2 {
                assert(whole.take(2)[1] == lopen[1]);
            }
        }
        lemma_p_lit_exact(lopen, tail);
        assert(p(f(vs[0]) + (enc_array_mid(vs.drop_first(), f, lsep) + (lend + rest))) == Some(
            (vs[0], enc_array_mid(vs.drop_first(), f, lsep) + (lend + rest)),
        ));
        lemma_p_array_rest_enc(vs.drop_first(), seq![vs[0]], f, p, lsep, lend, rest);
        assert(seq![vs[0]] + vs.drop_first() =~= vs);
    }
}

} // verus!
