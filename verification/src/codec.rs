//! The line-oriented JSON wire codec of the IPC protocol.
//!
//! Each request and response travels as one JSON value on one line.  The
//! encoder emits the canonical form: object fields in declaration order, no
//! interior whitespace, strings escaped as JSON demands.  The decoder reads
//! exactly that canonical form back and rejects everything else as
//! malformed.  The round-trip laws at the end state that decoding an
//! encoded value always yields the value itself.

use vstd::prelude::*;
use vstd::string::StrSliceExecFns;
use vstd::string::StringExecFns;

verus! {

/// Relies on std's `FromIterator<char> for String` (`collect`): the
/// resulting string holds exactly the characters of the vector, in order.
#[verifier::external_body]
pub fn string_of_chars(v: &Vec<char>) -> (r: String)
    ensures
        r@ == v@,
{
    v.iter().collect()
}

/// The characters of a string, in order.
pub fn chars_of(s: &str) -> (r: Vec<char>)
    ensures
        r@ == s@,
{
    let mut r: Vec<char> = Vec::new();
    let n = s.unicode_len();
    let mut i: usize = 0;
    while i < n
        invariant
            i <= n,
            n == s@.len(),
            r@ =~= s@.take(i as int),
        decreases n - i,
    {
        r.push(s.get_char(i));
        i = i + 1;
    }
    proof {
        assert(r@ =~= s@);
    }
    r
}

/// The hexadecimal digit for a value below sixteen, lower case.
pub open spec fn hex_digit(n: int) -> char {
    if n == 0 { '0' }
    else if n == 1 { '1' }
    else if n == 2 { '2' }
    else if n == 3 { '3' }
    else if n == 4 { '4' }
    else if n == 5 { '5' }
    else if n == 6 { '6' }
    else if n == 7 { '7' }
    else if n == 8 { '8' }
    else if n == 9 { '9' }
    else if n == 10 { 'a' }
    else if n == 11 { 'b' }
    else if n == 12 { 'c' }
    else if n == 13 { 'd' }
    else if n == 14 { 'e' }
    else { 'f' }
}

fn hex_digit_x(n: u32) -> (r: char)
    requires
        n < 16,
    ensures
        r == hex_digit(n as int),
{
    if n == 0 { '0' }
    else if n == 1 { '1' }
    else if n == 2 { '2' }
    else if n == 3 { '3' }
    else if n == 4 { '4' }
    else if n == 5 { '5' }
    else if n == 6 { '6' }
    else if n == 7 { '7' }
    else if n == 8 { '8' }
    else if n == 9 { '9' }
    else if n == 10 { 'a' }
    else if n == 11 { 'b' }
    else if n == 12 { 'c' }
    else if n == 13 { 'd' }
    else if n == 14 { 'e' }
    else { 'f' }
}

/// The value of a hexadecimal digit, or sixteen for any other character.
pub open spec fn hex_val(c: char) -> int {
    if c == '0' { 0 }
    else if c == '1' { 1 }
    else if c == '2' { 2 }
    else if c == '3' { 3 }
    else if c == '4' { 4 }
    else if c == '5' { 5 }
    else if c == '6' { 6 }
    else if c == '7' { 7 }
    else if c == '8' { 8 }
    else if c == '9' { 9 }
    else if c == 'a' { 10 }
    else if c == 'b' { 11 }
    else if c == 'c' { 12 }
    else if c == 'd' { 13 }
    else if c == 'e' { 14 }
    else if c == 'f' { 15 }
    else { 16 }
}

fn hex_val_x(c: char) -> (r: u32)
    ensures
        r == hex_val(c),
{
    if c == '0' { 0 }
    else if c == '1' { 1 }
    else if c == '2' { 2 }
    else if c == '3' { 3 }
    else if c == '4' { 4 }
    else if c == '5' { 5 }
    else if c == '6' { 6 }
    else if c == '7' { 7 }
    else if c == '8' { 8 }
    else if c == '9' { 9 }
    else if c == 'a' { 10 }
    else if c == 'b' { 11 }
    else if c == 'c' { 12 }
    else if c == 'd' { 13 }
    else if c == 'e' { 14 }
    else if c == 'f' { 15 }
    else { 16 }
}

/// How one character appears inside a JSON string literal: the named escapes
/// for quote, backslash, newline, carriage return and tab; a `\u00..` escape
/// for any other control character; the character itself otherwise.
pub open spec fn esc_char(c: char) -> Seq<char> {
    if c == '"' {
        seq!['\\', '"']
    } else if c == '\\' {
        seq!['\\', '\\']
    } else if c == '\n' {
        seq!['\\', 'n']
    } else if c == '\r' {
        seq!['\\', 'r']
    } else if c == '\t' {
        seq!['\\', 't']
    } else if (c as u32) < 32 {
        seq!['\\', 'u', '0', '0', hex_digit((c as u32) as int / 16), hex_digit((c as u32) as int % 16)]
    } else {
        seq![c]
    }
}

/// A whole string body, escaped character by character.
pub open spec fn esc_seq(s: Seq<char>) -> Seq<char>
    decreases s.len(),
{
    if s.len() == 0 {
        Seq::<char>::empty()
    } else {
        esc_char(s[0]) + esc_seq(s.skip(1))
    }
}

/// A JSON string literal: quote, escaped body, quote.
pub open spec fn enc_str(s: Seq<char>) -> Seq<char> {
    seq!['"'] + esc_seq(s) + seq!['"']
}

/// Escaping distributes over concatenation.
pub proof fn lemma_esc_seq_concat(a: Seq<char>, b: Seq<char>)
    ensures
        esc_seq(a + b) == esc_seq(a) + esc_seq(b),
    decreases a.len(),
{
    if a.len() == 0 {
        assert(a + b =~= b);
        assert(esc_seq(a) + esc_seq(b) =~= esc_seq(b));
    } else {
        lemma_esc_seq_concat(a.skip(1), b);
        assert((a + b).skip(1) =~= a.skip(1) + b);
        assert(esc_char((a + b)[0]) + (esc_seq(a.skip(1)) + esc_seq(b)) =~= (esc_char(a[0])
            + esc_seq(a.skip(1))) + esc_seq(b));
    }
}

fn push_esc_char(out: &mut Vec<char>, c: char)
    ensures
        final(out)@ == old(out)@ + esc_char(c),
{
    let ghost init = out@;
    if c == '"' {
        out.push('\\');
        out.push('"');
    } else if c == '\\' {
        out.push('\\');
        out.push('\\');
    } else if c == '\n' {
        out.push('\\');
        out.push('n');
    } else if c == '\r' {
        out.push('\\');
        out.push('r');
    } else if c == '\t' {
        out.push('\\');
        out.push('t');
    } else if (c as u32) < 32 {
        let v = c as u32;
        out.push('\\');
        out.push('u');
        out.push('0');
        out.push('0');
        out.push(hex_digit_x(v / 16));
        out.push(hex_digit_x(v % 16));
    } else {
        out.push(c);
    }
    proof {
        assert(out@ =~= init + esc_char(c));
    }
}

/// Appends the canonical JSON string literal for `s`.
fn push_json_str(out: &mut Vec<char>, s: &str)
    ensures
        final(out)@ == old(out)@ + enc_str(s@),
{
    let ghost init = out@;
    out.push('"');
    let n = s.unicode_len();
    let mut i: usize = 0;
    while i < n
        invariant
            i <= n,
            n == s@.len(),
            out@ == init + seq!['"'] + esc_seq(s@.take(i as int)),
        decreases n - i,
    {
        let c = s.get_char(i);
        push_esc_char(out, c);
        i = i + 1;
        proof {
            assert(s@.take(i as int) =~= s@.take(i as int - 1) + seq![s@[i as int - 1]]);
            lemma_esc_seq_concat(s@.take(i as int - 1), seq![s@[i as int - 1]]);
            assert(seq![s@[i as int - 1]].skip(1) =~= Seq::<char>::empty());
            assert(esc_seq(Seq::<char>::empty()) =~= Seq::<char>::empty());
            assert(esc_seq(seq![s@[i as int - 1]]) =~= esc_char(s@[i as int - 1]) + esc_seq(
                Seq::<char>::empty(),
            ));
            assert(esc_seq(seq![s@[i as int - 1]]) =~= esc_char(s@[i as int - 1]));
            assert(out@ =~= init + seq!['"'] + esc_seq(s@.take(i as int)));
        }
    }
    out.push('"');
    proof {
        assert(s@.take(n as int) =~= s@);
        assert(out@ =~= init + enc_str(s@));
    }
}

/// Appends every character of `s` as it stands.
fn push_lit(out: &mut Vec<char>, s: &str)
    ensures
        final(out)@ == old(out)@ + s@,
{
    let ghost init = out@;
    let n = s.unicode_len();
    let mut i: usize = 0;
    while i < n
        invariant
            i <= n,
            n == s@.len(),
            out@ == init + s@.take(i as int),
        decreases n - i,
    {
        out.push(s.get_char(i));
        i = i + 1;
        proof {
            assert(init + s@.take(i as int) =~= (init + s@.take(i as int - 1)).push(s@[i as int
                - 1]));
        }
    }
    proof {
        assert(s@.take(n as int) =~= s@);
    }
}


/// Canonical parse of a JSON string body after the opening quote: the
/// decoded characters, and the rest of the input after the closing quote.
pub open spec fn p_str_body(s: Seq<char>) -> Option<(Seq<char>, Seq<char>)>
    decreases s.len(),
{
    if s.len() == 0 {
        None
    } else if s[0] == '"' {
        Some((Seq::<char>::empty(), s.skip(1)))
    } else if s[0] == '\\' {
        if s.len() < 2 {
            None
        } else {
            let e = s[1];
            if e == '"' || e == '\\' {
                match p_str_body(s.skip(2)) {
                    Some(p) => Some((seq![e] + p.0, p.1)),
                    None => None,
                }
            } else if e == 'n' {
                match p_str_body(s.skip(2)) {
                    Some(p) => Some((seq!['\n'] + p.0, p.1)),
                    None => None,
                }
            } else if e == 'r' {
                match p_str_body(s.skip(2)) {
                    Some(p) => Some((seq!['\r'] + p.0, p.1)),
                    None => None,
                }
            } else if e == 't' {
                match p_str_body(s.skip(2)) {
                    Some(p) => Some((seq!['\t'] + p.0, p.1)),
                    None => None,
                }
            } else if e == 'u' {
                if s.len() >= 6 && s[2] == '0' && s[3] == '0' && hex_val(s[4]) < 16 && hex_val(
                    s[5],
                ) < 16 {
                    let v = hex_val(s[4]) * 16 + hex_val(s[5]);
                    match p_str_body(s.skip(6)) {
                        Some(p) => Some((seq![(v as u32) as char] + p.0, p.1)),
                        None => None,
                    }
                } else {
                    None
                }
            } else {
                None
            }
        }
    } else if (s[0] as u32) < 32 {
        None
    } else {
        match p_str_body(s.skip(1)) {
            Some(p) => Some((seq![s[0]] + p.0, p.1)),
            None => None,
        }
    }
}

/// Canonical parse of a JSON string literal, opening quote included.
pub open spec fn p_string(s: Seq<char>) -> Option<(Seq<char>, Seq<char>)> {
    if s.len() >= 1 && s[0] == '"' {
        p_str_body(s.skip(1))
    } else {
        None
    }
}

/// Reading a hexadecimal digit back yields the value it encodes.
pub proof fn lemma_hex_round_trip(n: int)
    requires
        0 <= n < 16,
    ensures
        hex_val(hex_digit(n)) == n,
{
}

/// A successful string-body parse consumes at least one character.
pub proof fn lemma_str_body_consumes(s: Seq<char>)
    ensures
        p_str_body(s) matches Some(p) ==> p.1.len() < s.len(),
    decreases s.len(),
{
    if s.len() == 0 {
    } else if s[0] == '"' {
    } else if s[0] == '\\' {
        if s.len() >= 2 {
            let e = s[1];
            if e == '"' || e == '\\' || e == 'n' || e == 'r' || e == 't' {
                lemma_str_body_consumes(s.skip(2));
            } else if e == 'u' {
                if s.len() >= 6 {
                    lemma_str_body_consumes(s.skip(6));
                }
            }
        }
    } else {
        lemma_str_body_consumes(s.skip(1));
    }
}

/// A successful string parse consumes at least two characters.
pub proof fn lemma_string_consumes(s: Seq<char>)
    ensures
        p_string(s) matches Some(p) ==> p.1.len() + 2 <= s.len(),
{
    if s.len() >= 1 && s[0] == '"' {
        lemma_str_body_consumes(s.skip(1));
    }
}

/// Law: parsing an escaped string body yields the original characters and
/// leaves exactly what follows the closing quote.
pub proof fn lemma_str_body_round_trip(s: Seq<char>, rest: Seq<char>)
    ensures
        p_str_body(esc_seq(s) + seq!['"'] + rest) == Some((s, rest)),
    decreases s.len(),
{
    let t = esc_seq(s) + seq!['"'] + rest;
    if s.len() == 0 {
        assert(t =~= seq!['"'] + rest);
        assert(t[0] == '"');
        assert(t.skip(1) =~= rest);
    } else {
        let c = s[0];
        let e = esc_char(c);
        let t2 = esc_seq(s.skip(1)) + seq!['"'] + rest;
        assert(esc_seq(s) == e + esc_seq(s.skip(1)));
        assert(t =~= e + t2);
        lemma_str_body_round_trip(s.skip(1), rest);
        if c == '"' {
            assert(t[0] == '\\' && t[1] == '"');
            assert(t.skip(2) =~= t2);
            assert(seq![c] + s.skip(1) =~= s);
        } else if c == '\\' {
            assert(t[0] == '\\' && t[1] == '\\');
            assert(t.skip(2) =~= t2);
            assert(seq![c] + s.skip(1) =~= s);
        } else if c == '\n' {
            assert(t[0] == '\\' && t[1] == 'n');
            assert(t.skip(2) =~= t2);
            assert(seq![c] + s.skip(1) =~= s);
        } else if c == '\r' {
            assert(t[0] == '\\' && t[1] == 'r');
            assert(t.skip(2) =~= t2);
            assert(seq![c] + s.skip(1) =~= s);
        } else if c == '\t' {
            assert(t[0] == '\\' && t[1] == 't');
            assert(t.skip(2) =~= t2);
            assert(seq![c] + s.skip(1) =~= s);
        } else if (c as u32) < 32 {
            let hi = (c as u32) as int / 16;
            let lo = (c as u32) as int % 16;
            assert(t[0] == '\\' && t[1] == 'u' && t[2] == '0' && t[3] == '0');
            assert(t[4] == hex_digit(hi) && t[5] == hex_digit(lo));
            lemma_hex_round_trip(hi);
            lemma_hex_round_trip(lo);
            assert(hex_val(t[4]) * 16 + hex_val(t[5]) == c as u32) by {
                assert(hi * 16 + lo == c as u32);
            }
            vstd::utf8::char_u32_cast(c, c as u32);
            assert((((hex_val(t[4]) * 16 + hex_val(t[5])) as u32) as char) == c);
            assert(t.skip(6) =~= t2);
            assert(seq![c] + s.skip(1) =~= s);
        } else {
            assert(t[0] == c);
            assert(t.skip(1) =~= t2);
            assert(seq![c] + s.skip(1) =~= s);
        }
    }
}

/// Law: parsing an encoded string literal yields the original string.
pub proof fn lemma_string_round_trip(s: Seq<char>, rest: Seq<char>)
    ensures
        p_string(enc_str(s) + rest) == Some((s, rest)),
{
    let t = enc_str(s) + rest;
    assert(t[0] == '"');
    assert(t.skip(1) =~= esc_seq(s) + seq!['"'] + rest);
    lemma_str_body_round_trip(s, rest);
}

fn parse_str_body(v: &Vec<char>, i: usize) -> (r: Option<(Vec<char>, usize)>)
    requires
        i <= v.len(),
    ensures
        (r is Some) == (p_str_body(v@.skip(i as int)) is Some),
        r matches Some(p) ==> i < p.1 <= v.len() && p_str_body(v@.skip(i as int)) == Some(
            (p.0@, v@.skip(p.1 as int)),
        ),
    decreases v.len() - i,
{
    let ghost sj = v@.skip(i as int);
    if i == v.len() {
        return None;
    }
    let c = v[i];
    proof {
        assert(sj[0] == c);
    }
    if c == '"' {
        proof {
            assert(sj.skip(1) =~= v@.skip(i as int + 1));
        }
        let out: Vec<char> = Vec::new();
        proof {
            assert(out@ =~= Seq::<char>::empty());
        }
        Some((out, i + 1))
    } else if c == '\\' {
        if i + 1 == v.len() {
            proof {
                assert(sj.len() < 2);
            }
            return None;
        }
        let e = v[i + 1];
        proof {
            assert(sj[1] == e);
            assert(sj.skip(2) =~= v@.skip(i as int + 2));
        }
        if e == '"' || e == '\\' || e == 'n' || e == 'r' || e == 't' {
            let d: char = if e == 'n' {
                '\n'
            } else if e == 'r' {
                '\r'
            } else if e == 't' {
                '\t'
            } else {
                e
            };
            match parse_str_body(v, i + 2) {
                Some((mut body, k)) => {
                    let ghost tail = body@;
                    body.insert(0, d);
                    proof {
                        assert(body@ =~= seq![d] + tail);
                    }
                    Some((body, k))
                },
                None => None,
            }
        } else if e == 'u' {
            if v.len() - i < 6 {
                proof {
                    assert(sj.len() < 6);
                }
                return None;
            }
            let h1 = v[i + 2];
            let h2 = v[i + 3];
            let d1 = hex_val_x(v[i + 4]);
            let d2 = hex_val_x(v[i + 5]);
            proof {
                assert(sj[2] == h1 && sj[3] == h2);
                assert(sj[4] == v@[i as int + 4] && sj[5] == v@[i as int + 5]);
            }
            if h1 != '0' || h2 != '0' || d1 >= 16 || d2 >= 16 {
                return None;
            }
            let code = d1 * 16 + d2;
            let decoded = (code as u8) as char;
            proof {
                assert(sj.skip(6) =~= v@.skip(i as int + 6));
                assert(decoded == (((hex_val(sj[4]) * 16 + hex_val(sj[5])) as u32) as char));
            }
            match parse_str_body(v, i + 6) {
                Some((mut body, k)) => {
                    let ghost tail = body@;
                    body.insert(0, decoded);
                    proof {
                        assert(body@ =~= seq![decoded] + tail);
                    }
                    Some((body, k))
                },
                None => None,
            }
        } else {
            None
        }
    } else if (c as u32) < 32 {
        None
    } else {
        proof {
            assert(sj.skip(1) =~= v@.skip(i as int + 1));
        }
        match parse_str_body(v, i + 1) {
            Some((mut body, k)) => {
                let ghost tail = body@;
                body.insert(0, c);
                proof {
                    assert(body@ =~= seq![c] + tail);
                }
                Some((body, k))
            },
            None => None,
        }
    }
}

/// Parses the canonical JSON string literal at `i`; on success yields the
/// decoded string and the index just past the closing quote.
pub fn parse_json_str(v: &Vec<char>, i: usize) -> (r: Option<(String, usize)>)
    requires
        i <= v.len(),
    ensures
        (r is Some) == (p_string(v@.skip(i as int)) is Some),
        r matches Some(p) ==> i < p.1 <= v.len() && p_string(v@.skip(i as int)) == Some(
            (p.0@, v@.skip(p.1 as int)),
        ),
{
    let ghost s0 = v@.skip(i as int);
    if i == v.len() || v[i] != '"' {
        if i < v.len() {
            proof {
                assert(s0[0] == v@[i as int]);
            }
        }
        return None;
    }
    proof {
        assert(s0[0] == '"');
        assert(s0.skip(1) =~= v@.skip(i as int + 1));
    }
    match parse_str_body(v, i + 1) {
        Some((body, k)) => Some((string_of_chars(&body), k)),
        None => None,
    }
}


/// A fixed piece of the canonical form: consumed as-is, or the parse fails.
pub open spec fn p_lit(s: Seq<char>, l: Seq<char>) -> Option<Seq<char>> {
    if l.len() <= s.len() && s.take(l.len() as int) == l {
        Some(s.skip(l.len() as int))
    } else {
        None
    }
}

/// Law: a literal followed by anything parses as that literal.
pub proof fn lemma_lit_round_trip(l: Seq<char>, rest: Seq<char>)
    ensures
        p_lit(l + rest, l) == Some(rest),
{
    assert((l + rest).take(l.len() as int) =~= l);
    assert((l + rest).skip(l.len() as int) =~= rest);
}

/// Consumes the exact characters of `l` at `i`.
fn expect_lit(v: &Vec<char>, i: usize, l: &str) -> (r: Option<usize>)
    requires
        i <= v.len(),
    ensures
        (r is Some) == (p_lit(v@.skip(i as int), l@) is Some),
        r matches Some(j) ==> i <= j <= v.len() && j == i + l@.len() && p_lit(
            v@.skip(i as int),
            l@,
        ) == Some(v@.skip(j as int)),
{
    let ghost s = v@.skip(i as int);
    let n = l.unicode_len();
    if v.len() - i < n {
        proof {
            assert(s.len() < l@.len());
        }
        return None;
    }
    let mut k: usize = 0;
    while k < n
        invariant
            k <= n,
            n == l@.len(),
            i <= v.len(),
            n <= v.len() - i,
            s == v@.skip(i as int),
            forall|m: int| 0 <= m < k as int ==> v@[i + m] == l@[m],
        decreases n - k,
    {
        if v[i + k] != l.get_char(k) {
            proof {
                assert(s.len() == v@.len() - i);
                assert(s[k as int] == v@[i + k as int]);
                assert(s.take(n as int)[k as int] != l@[k as int]);
                assert(s.take(n as int) != l@);
            }
            return None;
        }
        k = k + 1;
    }
    proof {
        assert(s.len() == v@.len() - i);
        assert forall|m: int| 0 <= m < n implies s.take(n as int)[m] == l@[m] by {
            assert(s[m] == v@[i + m]);
        }
        assert(s.take(n as int) =~= l@);
        assert(s.skip(n as int) =~= v@.skip(i as int + n as int));
    }
    Some(i + n)
}

/// The canonical decimal digits of a number.
pub open spec fn dec_str(n: nat) -> Seq<char>
    decreases n,
{
    if n < 10 {
        seq![hex_digit(n as int)]
    } else {
        dec_str(n / 10) + seq![hex_digit((n % 10) as int)]
    }
}

/// Appends the canonical decimal form of `x`.
pub(crate) fn push_uint(out: &mut Vec<char>, x: u64)
    ensures
        final(out)@ == old(out)@ + dec_str(x as nat),
    decreases x,
{
    if x < 10 {
        out.push(hex_digit_x(x as u32));
        proof {
            assert(out@ =~= old(out)@ + dec_str(x as nat));
        }
    } else {
        push_uint(out, x / 10);
        out.push(hex_digit_x((x % 10) as u32));
        proof {
            assert(out@ =~= old(out)@ + dec_str(x as nat));
        }
    }
}

/// Whether a character is a decimal digit.
pub open spec fn is_digit(c: char) -> bool {
    48 <= (c as u32) <= 57
}

/// How many leading decimal digits the input has.
pub open spec fn digit_count(s: Seq<char>) -> nat
    decreases s.len(),
{
    if s.len() > 0 && is_digit(s[0]) {
        1 + digit_count(s.skip(1))
    } else {
        0
    }
}

/// The value of a digit string, by character codes.
pub open spec fn digits_val(ds: Seq<char>) -> int
    decreases ds.len(),
{
    if ds.len() == 0 {
        0
    } else {
        digits_val(ds.drop_last()) * 10 + ((ds.last() as u32) as int - 48)
    }
}

/// Canonical parse of a decimal number that fits a `u32`: at most ten
/// digits whose value is in range.
pub open spec fn p_u32(s: Seq<char>) -> Option<(u32, Seq<char>)> {
    let k = digit_count(s) as int;
    if 1 <= k <= 10 && digits_val(s.take(k)) <= u32::MAX {
        Some((digits_val(s.take(k)) as u32, s.skip(k)))
    } else {
        None
    }
}

proof fn lemma_digit_count_prefix(ds: Seq<char>, rest: Seq<char>)
    requires
        forall|m: int| 0 <= m < ds.len() ==> is_digit(#[trigger] ds[m]),
        rest.len() == 0 || !is_digit(rest[0]),
    ensures
        digit_count(ds + rest) == ds.len(),
    decreases ds.len(),
{
    if ds.len() == 0 {
        assert(ds + rest =~= rest);
    } else {
        lemma_digit_count_prefix(ds.skip(1), rest);
        assert((ds + rest).skip(1) =~= ds.skip(1) + rest);
        assert(is_digit((ds + rest)[0]));
    }
}

proof fn lemma_dec_str_digits(n: nat)
    ensures
        dec_str(n).len() >= 1,
        forall|m: int| 0 <= m < dec_str(n).len() ==> is_digit(#[trigger] dec_str(n)[m]),
    decreases n,
{
    if n < 10 {
        assert(is_digit(dec_str(n)[0]));
    } else {
        lemma_dec_str_digits(n / 10);
        assert forall|m: int| 0 <= m < dec_str(n).len() implies is_digit(#[trigger] dec_str(n)[m]) by {
            if m < dec_str(n / 10).len() {
                assert(dec_str(n)[m] == dec_str(n / 10)[m]);
            } else {
                assert(dec_str(n)[m] == hex_digit((n % 10) as int));
            }
        }
    }
}

proof fn lemma_dec_str_val(n: nat)
    ensures
        digits_val(dec_str(n)) == n,
    decreases n,
{
    if n < 10 {
        assert(dec_str(n).drop_last() =~= Seq::<char>::empty());
        assert(digits_val(Seq::<char>::empty()) == 0);
        assert(dec_str(n).last() == hex_digit(n as int));
        assert((hex_digit(n as int) as u32) as int - 48 == n);
    } else {
        lemma_dec_str_val(n / 10);
        assert((hex_digit((n % 10) as int) as u32) as int - 48 == n % 10);
        assert(dec_str(n).drop_last() =~= dec_str(n / 10));
        assert(dec_str(n).last() == hex_digit((n % 10) as int));
        assert((n / 10) * 10 + n % 10 == n) by {
            vstd::arithmetic::div_mod::lemma_fundamental_div_mod(n as int, 10);
        }
    }
}

/// Powers of ten.
pub open spec fn pow10(k: nat) -> nat
    decreases k,
{
    if k == 0 {
        1
    } else {
        10 * pow10((k - 1) as nat)
    }
}

proof fn lemma_pow10_mono(a: nat, b: nat)
    requires
        a <= b,
    ensures
        pow10(a) <= pow10(b),
    decreases b,
{
    if a < b {
        lemma_pow10_mono(a, (b - 1) as nat);
        assert(pow10(b) == 10 * pow10((b - 1) as nat));
    }
}

proof fn lemma_pow10_ten()
    ensures
        pow10(10) == 10000000000,
{
    assert(pow10(0) == 1);
    assert(pow10(1) == 10);
    assert(pow10(2) == 100);
    assert(pow10(3) == 1000);
    assert(pow10(4) == 10000);
    assert(pow10(5) == 100000);
    assert(pow10(6) == 1000000);
    assert(pow10(7) == 10000000);
    assert(pow10(8) == 100000000);
    assert(pow10(9) == 1000000000);
}

proof fn lemma_dec_str_len(n: nat)
    ensures
        1 <= dec_str(n).len(),
        n < pow10(dec_str(n).len()),
        n >= 1 ==> pow10((dec_str(n).len() - 1) as nat) <= n,
    decreases n,
{
    if n < 10 {
        assert(pow10(0) == 1);
        assert(pow10(1) == 10);
    } else {
        lemma_dec_str_len(n / 10);
        let l1 = dec_str(n / 10).len();
        assert(dec_str(n).len() == l1 + 1);
        assert(n == (n / 10) * 10 + n % 10) by {
            vstd::arithmetic::div_mod::lemma_fundamental_div_mod(n as int, 10);
        }
        assert((n / 10) * 10 + 10 <= pow10(l1) * 10) by (nonlinear_arith)
            requires
                n / 10 < pow10(l1),
        ;
        assert(pow10(l1 + 1) == 10 * pow10(l1));
        assert(10 * pow10((l1 - 1) as nat) <= 10 * (n / 10)) by (nonlinear_arith)
            requires
                pow10((l1 - 1) as nat) <= n / 10,
        ;
        assert(pow10(l1) == 10 * pow10((l1 - 1) as nat));
    }
}

proof fn lemma_digits_val_bound(ds: Seq<char>)
    requires
        forall|m: int| 0 <= m < ds.len() ==> is_digit(#[trigger] ds[m]),
    ensures
        0 <= digits_val(ds) < pow10(ds.len()),
    decreases ds.len(),
{
    if ds.len() == 0 {
    } else {
        assert forall|m: int| 0 <= m < ds.drop_last().len() implies is_digit(
            #[trigger] ds.drop_last()[m],
        ) by {
            assert(ds.drop_last()[m] == ds[m]);
        }
        lemma_digits_val_bound(ds.drop_last());
        assert(is_digit(ds.last()));
        assert((ds.last() as u32) as int - 48 <= 9);
        assert(digits_val(ds.drop_last()) * 10 + 9 < pow10(ds.drop_last().len()) * 10)
            by (nonlinear_arith)
            requires
                digits_val(ds.drop_last()) < pow10(ds.drop_last().len()),
        ;
        assert(digits_val(ds.drop_last()) * 10 >= 0) by (nonlinear_arith)
            requires
                digits_val(ds.drop_last()) >= 0,
        ;
        assert(pow10(ds.len()) == 10 * pow10((ds.len() - 1) as nat));
    }
}

/// Law: parsing the canonical decimal form of a `u32`, followed by anything
/// that does not begin with a digit, yields the number back.
pub proof fn lemma_u32_round_trip(n: u32, rest: Seq<char>)
    requires
        rest.len() == 0 || !is_digit(rest[0]),
    ensures
        p_u32(dec_str(n as nat) + rest) == Some((n, rest)),
{
    let ds = dec_str(n as nat);
    lemma_dec_str_digits(n as nat);
    lemma_digit_count_prefix(ds, rest);
    lemma_dec_str_val(n as nat);
    lemma_dec_str_len(n as nat);
    if ds.len() > 10 {
        if n >= 1 {
            lemma_pow10_mono(10, (ds.len() - 1) as nat);
            lemma_pow10_ten();
            assert(false);
        } else {
            assert(false);
        }
    }
    assert((ds + rest).take(ds.len() as int) =~= ds);
    assert((ds + rest).skip(ds.len() as int) =~= rest);
}

/// Parses a canonical decimal `u32` at `i`.
fn parse_u32(v: &Vec<char>, i: usize) -> (r: Option<(u32, usize)>)
    requires
        i <= v.len(),
    ensures
        (r is Some) == (p_u32(v@.skip(i as int)) is Some),
        r matches Some(p) ==> i < p.1 <= v.len() && p_u32(v@.skip(i as int)) == Some(
            (p.0, v@.skip(p.1 as int)),
        ),
{
    let ghost s = v@.skip(i as int);
    proof {
        assert(s.len() == v@.len() - i);
    }
    let mut j: usize = i;
    let mut acc: u64 = 0;
    loop
        invariant
            i <= j <= v.len(),
            s == v@.skip(i as int),
            s.len() == v@.len() - i,
            j - i <= 10,
            forall|m: int| i as int <= m < j as int ==> is_digit(#[trigger] v@[m]),
            acc == digits_val(v@.subrange(i as int, j as int)),
            acc <= 0xffffffffff,
        ensures
            i <= j <= v.len(),
            j - i <= 10,
            forall|m: int| i as int <= m < j as int ==> is_digit(#[trigger] v@[m]),
            acc == digits_val(v@.subrange(i as int, j as int)),
            j == v.len() || !is_digit(v@[j as int]),
        decreases v.len() - j,
    {
        if j == v.len() {
            break;
        }
        let c = v[j];
        if !((c as u32) >= 48 && (c as u32) <= 57) {
            break;
        }
        if j - i == 10 {
            proof {
                assert forall|m: int| 0 <= m < 11 implies is_digit(#[trigger] s[m]) by {
                    assert(s[m] == v@[i + m]);
                }
                lemma_digit_count_at_least(s, 11);
            }
            return None;
        }
        let d = (c as u32) - 48;
        proof {
            assert(is_digit(c));
            let ds = v@.subrange(i as int, j as int + 1);
            assert(ds.drop_last() =~= v@.subrange(i as int, j as int));
            assert(ds.last() == c);
            assert forall|m: int| 0 <= m < v@.subrange(i as int, j as int).len() implies is_digit(
                #[trigger] v@.subrange(i as int, j as int)[m],
            ) by {
                assert(v@.subrange(i as int, j as int)[m] == v@[i + m]);
            }
            lemma_digits_val_bound(v@.subrange(i as int, j as int));
            lemma_pow10_mono((j - i) as nat, 9);
            lemma_pow10_ten();
            assert(pow10(9) == 1000000000);
        }
        acc = acc * 10 + d as u64;
        j = j + 1;
    }
    let ghost ds = v@.subrange(i as int, j as int);
    proof {
        assert(s =~= v@.subrange(i as int, j as int) + v@.skip(j as int));
        assert forall|m: int| 0 <= m < ds.len() implies is_digit(#[trigger] ds[m]) by {
            assert(ds[m] == v@[i + m]);
        }
        lemma_digit_count_prefix(ds, v@.skip(j as int));
        assert(digit_count(s) == j - i);
    }
    if j == i {
        return None;
    }
    if acc > 0xffffffff {
        proof {
            assert(s.take((j - i) as int) =~= ds);
        }
        return None;
    }
    proof {
        assert(s.take((j - i) as int) =~= ds);
        assert(s.skip((j - i) as int) =~= v@.skip(j as int));
    }
    Some((acc as u32, j))
}

proof fn lemma_digit_count_at_least(s: Seq<char>, k: nat)
    requires
        k <= s.len(),
        forall|m: int| 0 <= m < k ==> is_digit(#[trigger] s[m]),
    ensures
        digit_count(s) >= k,
    decreases k,
{
    if k > 0 {
        assert(is_digit(s[0]));
        assert forall|m: int| 0 <= m < k - 1 implies is_digit(#[trigger] s.skip(1)[m]) by {
            assert(s.skip(1)[m] == s[m + 1]);
        }
        lemma_digit_count_at_least(s.skip(1), (k - 1) as nat);
    }
}


/// Shows that a literal cannot match when some character differs (or the
/// input is too short).
proof fn lemma_lit_mismatch(s: Seq<char>, l: Seq<char>, k: int)
    requires
        0 <= k < l.len(),
        s.len() <= k || s[k] != l[k],
    ensures
        p_lit(s, l) is None,
{
    if l.len() <= s.len() {
        assert(s.take(l.len() as int)[k] == s[k]);
        assert(s.take(l.len() as int) != l);
    }
}

/// The canonical wire word for a stop reason.
pub open spec fn enc_stop(r: crate::ipc::StopReason) -> Seq<char> {
    match r {
        crate::ipc::StopReason::EndTurn => "\"end_turn\""@,
        crate::ipc::StopReason::MaxTokens => "\"max_tokens\""@,
        crate::ipc::StopReason::MaxTurnRequests => "\"max_turn_requests\""@,
        crate::ipc::StopReason::Refusal => "\"refusal\""@,
        crate::ipc::StopReason::Cancelled => "\"cancelled\""@,
    }
}

/// Canonical parse of a stop reason.
pub open spec fn p_stop(s: Seq<char>) -> Option<(crate::ipc::StopReason, Seq<char>)> {
    if p_lit(s, "\"end_turn\""@) is Some {
        Some((crate::ipc::StopReason::EndTurn, p_lit(s, "\"end_turn\""@)->Some_0))
    } else if p_lit(s, "\"max_tokens\""@) is Some {
        Some((crate::ipc::StopReason::MaxTokens, p_lit(s, "\"max_tokens\""@)->Some_0))
    } else if p_lit(s, "\"max_turn_requests\""@) is Some {
        Some((crate::ipc::StopReason::MaxTurnRequests, p_lit(s, "\"max_turn_requests\""@)->Some_0))
    } else if p_lit(s, "\"refusal\""@) is Some {
        Some((crate::ipc::StopReason::Refusal, p_lit(s, "\"refusal\""@)->Some_0))
    } else if p_lit(s, "\"cancelled\""@) is Some {
        Some((crate::ipc::StopReason::Cancelled, p_lit(s, "\"cancelled\""@)->Some_0))
    } else {
        None
    }
}

/// Law: a stop reason reads back as itself.
pub proof fn lemma_stop_round_trip(r: crate::ipc::StopReason, rest: Seq<char>)
    ensures
        p_stop(enc_stop(r) + rest) == Some((r, rest)),
{
    reveal_strlit("\"end_turn\"");
    reveal_strlit("\"max_tokens\"");
    reveal_strlit("\"max_turn_requests\"");
    reveal_strlit("\"refusal\"");
    reveal_strlit("\"cancelled\"");
    let t = enc_stop(r) + rest;
    lemma_lit_round_trip(enc_stop(r), rest);
    match r {
        crate::ipc::StopReason::EndTurn => {
        },
        crate::ipc::StopReason::MaxTokens => {
            lemma_lit_mismatch(t, "\"end_turn\""@, 1);
        },
        crate::ipc::StopReason::MaxTurnRequests => {
            lemma_lit_mismatch(t, "\"end_turn\""@, 1);
            lemma_lit_mismatch(t, "\"max_tokens\""@, 6);
        },
        crate::ipc::StopReason::Refusal => {
            lemma_lit_mismatch(t, "\"end_turn\""@, 1);
            lemma_lit_mismatch(t, "\"max_tokens\""@, 1);
            lemma_lit_mismatch(t, "\"max_turn_requests\""@, 1);
        },
        crate::ipc::StopReason::Cancelled => {
            lemma_lit_mismatch(t, "\"end_turn\""@, 1);
            lemma_lit_mismatch(t, "\"max_tokens\""@, 1);
            lemma_lit_mismatch(t, "\"max_turn_requests\""@, 1);
            lemma_lit_mismatch(t, "\"refusal\""@, 1);
        },
    }
}

fn push_stop(out: &mut Vec<char>, r: &crate::ipc::StopReason)
    ensures
        final(out)@ == old(out)@ + enc_stop(*r),
{
    match r {
        crate::ipc::StopReason::EndTurn => push_lit(out, "\"end_turn\""),
        crate::ipc::StopReason::MaxTokens => push_lit(out, "\"max_tokens\""),
        crate::ipc::StopReason::MaxTurnRequests => push_lit(out, "\"max_turn_requests\""),
        crate::ipc::StopReason::Refusal => push_lit(out, "\"refusal\""),
        crate::ipc::StopReason::Cancelled => push_lit(out, "\"cancelled\""),
    }
}

fn parse_stop(v: &Vec<char>, i: usize) -> (r: Option<(crate::ipc::StopReason, usize)>)
    requires
        i <= v.len(),
    ensures
        (r is Some) == (p_stop(v@.skip(i as int)) is Some),
        r matches Some(p) ==> i <= p.1 <= v.len() && p_stop(v@.skip(i as int)) == Some(
            (p.0, v@.skip(p.1 as int)),
        ),
{
    if let Some(j) = expect_lit(v, i, "\"end_turn\"") {
        Some((crate::ipc::StopReason::EndTurn, j))
    } else if let Some(j) = expect_lit(v, i, "\"max_tokens\"") {
        Some((crate::ipc::StopReason::MaxTokens, j))
    } else if let Some(j) = expect_lit(v, i, "\"max_turn_requests\"") {
        Some((crate::ipc::StopReason::MaxTurnRequests, j))
    } else if let Some(j) = expect_lit(v, i, "\"refusal\"") {
        Some((crate::ipc::StopReason::Refusal, j))
    } else if let Some(j) = expect_lit(v, i, "\"cancelled\"") {
        Some((crate::ipc::StopReason::Cancelled, j))
    } else {
        None
    }
}

/// The canonical wire form of a boolean.
pub open spec fn enc_bool(b: bool) -> Seq<char> {
    if b {
        "true"@
    } else {
        "false"@
    }
}

/// Canonical parse of a boolean.
pub open spec fn p_bool(s: Seq<char>) -> Option<(bool, Seq<char>)> {
    if p_lit(s, "true"@) is Some {
        Some((true, p_lit(s, "true"@)->Some_0))
    } else if p_lit(s, "false"@) is Some {
        Some((false, p_lit(s, "false"@)->Some_0))
    } else {
        None
    }
}

/// Law: a boolean reads back as itself.
pub proof fn lemma_bool_round_trip(b: bool, rest: Seq<char>)
    ensures
        p_bool(enc_bool(b) + rest) == Some((b, rest)),
{
    reveal_strlit("true");
    reveal_strlit("false");
    lemma_lit_round_trip(enc_bool(b), rest);
    if !b {
        lemma_lit_mismatch(enc_bool(b) + rest, "true"@, 0);
    }
}

fn push_bool(out: &mut Vec<char>, b: bool)
    ensures
        final(out)@ == old(out)@ + enc_bool(b),
{
    if b {
        push_lit(out, "true");
    } else {
        push_lit(out, "false");
    }
}

fn parse_bool(v: &Vec<char>, i: usize) -> (r: Option<(bool, usize)>)
    requires
        i <= v.len(),
    ensures
        (r is Some) == (p_bool(v@.skip(i as int)) is Some),
        r matches Some(p) ==> i <= p.1 <= v.len() && p_bool(v@.skip(i as int)) == Some(
            (p.0, v@.skip(p.1 as int)),
        ),
{
    if let Some(j) = expect_lit(v, i, "true") {
        Some((true, j))
    } else if let Some(j) = expect_lit(v, i, "false") {
        Some((false, j))
    } else {
        None
    }
}

/// The canonical wire form of an optional string: `null` or the literal.
pub open spec fn enc_opt_str(o: Option<Seq<char>>) -> Seq<char> {
    match o {
        Some(x) => enc_str(x),
        None => "null"@,
    }
}

/// Canonical parse of `null` or a string literal.
pub open spec fn p_opt_str(s: Seq<char>) -> Option<(Option<Seq<char>>, Seq<char>)> {
    if p_lit(s, "null"@) is Some {
        Some((None, p_lit(s, "null"@)->Some_0))
    } else {
        match p_string(s) {
            Some(p) => Some((Some(p.0), p.1)),
            None => None,
        }
    }
}

/// Law: an optional string reads back as itself.
pub proof fn lemma_opt_str_round_trip(o: Option<Seq<char>>, rest: Seq<char>)
    ensures
        p_opt_str(enc_opt_str(o) + rest) == Some((o, rest)),
{
    reveal_strlit("null");
    match o {
        None => {
            lemma_lit_round_trip("null"@, rest);
        },
        Some(x) => {
            let t = enc_opt_str(o) + rest;
            assert(t[0] == '"');
            lemma_lit_mismatch(t, "null"@, 0);
            lemma_string_round_trip(x, rest);
        },
    }
}

fn push_opt_json_str(out: &mut Vec<char>, o: &Option<String>)
    ensures
        final(out)@ == old(out)@ + enc_opt_str(o.deep_view()),
{
    match o {
        Some(x) => push_json_str(out, x.as_str()),
        None => push_lit(out, "null"),
    }
}

fn parse_opt_str(v: &Vec<char>, i: usize) -> (r: Option<(Option<String>, usize)>)
    requires
        i <= v.len(),
    ensures
        (r is Some) == (p_opt_str(v@.skip(i as int)) is Some),
        r matches Some(p) ==> i <= p.1 <= v.len() && p_opt_str(v@.skip(i as int)) == Some(
            (p.0.deep_view(), v@.skip(p.1 as int)),
        ),
{
    if let Some(j) = expect_lit(v, i, "null") {
        Some((None, j))
    } else {
        match parse_json_str(v, i) {
            Some((x, j)) => Some((Some(x), j)),
            None => None,
        }
    }
}

/// The canonical wire form of an optional number: `null` or its digits.
pub open spec fn enc_opt_u32(o: Option<u32>) -> Seq<char> {
    match o {
        Some(x) => dec_str(x as nat),
        None => "null"@,
    }
}

/// Canonical parse of `null` or a decimal `u32`.
pub open spec fn p_opt_u32(s: Seq<char>) -> Option<(Option<u32>, Seq<char>)> {
    if p_lit(s, "null"@) is Some {
        Some((None, p_lit(s, "null"@)->Some_0))
    } else {
        match p_u32(s) {
            Some(p) => Some((Some(p.0), p.1)),
            None => None,
        }
    }
}

/// Law: an optional number reads back as itself when what follows does not
/// begin with a digit.
pub proof fn lemma_opt_u32_round_trip(o: Option<u32>, rest: Seq<char>)
    requires
        rest.len() == 0 || !is_digit(rest[0]),
    ensures
        p_opt_u32(enc_opt_u32(o) + rest) == Some((o, rest)),
{
    reveal_strlit("null");
    match o {
        None => {
            lemma_lit_round_trip("null"@, rest);
        },
        Some(x) => {
            let t = enc_opt_u32(o) + rest;
            lemma_dec_str_digits(x as nat);
            assert(is_digit(t[0]));
            assert(t[0] != 'n');
            lemma_lit_mismatch(t, "null"@, 0);
            lemma_u32_round_trip(x, rest);
        },
    }
}

fn push_opt_u32(out: &mut Vec<char>, o: &Option<u32>)
    ensures
        final(out)@ == old(out)@ + enc_opt_u32(*o),
{
    match o {
        Some(x) => push_uint(out, *x as u64),
        None => push_lit(out, "null"),
    }
}

fn parse_opt_u32(v: &Vec<char>, i: usize) -> (r: Option<(Option<u32>, usize)>)
    requires
        i <= v.len(),
    ensures
        (r is Some) == (p_opt_u32(v@.skip(i as int)) is Some),
        r matches Some(p) ==> i <= p.1 <= v.len() && p_opt_u32(v@.skip(i as int)) == Some(
            (p.0, v@.skip(p.1 as int)),
        ),
{
    if let Some(j) = expect_lit(v, i, "null") {
        Some((None, j))
    } else {
        match parse_u32(v, i) {
            Some((x, j)) => Some((Some(x), j)),
            None => None,
        }
    }
}


/// The canonical wire form of a list of strings.
pub open spec fn enc_str_items(xs: Seq<Seq<char>>) -> Seq<char>
    decreases xs.len(),
{
    if xs.len() <= 1 {
        enc_str(xs[0]) + "]"@
    } else {
        enc_str(xs[0]) + ","@ + enc_str_items(xs.skip(1))
    }
}

/// The canonical wire form of a string array.
pub open spec fn enc_str_list(xs: Seq<Seq<char>>) -> Seq<char> {
    if xs.len() == 0 {
        "[]"@
    } else {
        "["@ + enc_str_items(xs)
    }
}

/// Canonical parse of the items of a non-empty string array, closing
/// bracket included.
pub open spec fn p_str_items(s: Seq<char>) -> Option<(Seq<Seq<char>>, Seq<char>)>
    decreases s.len(),
        via p_str_items_dec
{
    match p_string(s) {
        Some(p) => {
            if p_lit(p.1, ","@) is Some {
                match p_str_items(p_lit(p.1, ","@)->Some_0) {
                    Some(q) => Some((seq![p.0] + q.0, q.1)),
                    None => None,
                }
            } else if p_lit(p.1, "]"@) is Some {
                Some((seq![p.0], p_lit(p.1, "]"@)->Some_0))
            } else {
                None
            }
        },
        None => None,
    }
}

#[via_fn]
proof fn p_str_items_dec(s: Seq<char>) {
    lemma_string_consumes(s);
}

/// Canonical parse of a string array.
pub open spec fn p_str_list(s: Seq<char>) -> Option<(Seq<Seq<char>>, Seq<char>)> {
    match p_lit(s, "["@) {
        Some(r1) => {
            if p_lit(r1, "]"@) is Some {
                Some((Seq::<Seq<char>>::empty(), p_lit(r1, "]"@)->Some_0))
            } else {
                p_str_items(r1)
            }
        },
        None => None,
    }
}

/// Law: a non-empty string array's items read back as themselves.
proof fn lemma_str_items_round_trip(xs: Seq<Seq<char>>, rest: Seq<char>)
    requires
        xs.len() >= 1,
    ensures
        p_str_items(enc_str_items(xs) + rest) == Some((xs, rest)),
    decreases xs.len(),
{
    reveal_strlit(",");
    reveal_strlit("]");
    if xs.len() == 1 {
        let t = enc_str_items(xs) + rest;
        assert(t =~= enc_str(xs[0]) + ("]"@ + rest));
        lemma_string_round_trip(xs[0], "]"@ + rest);
        assert(("]"@ + rest)[0] == ']');
        lemma_lit_mismatch("]"@ + rest, ","@, 0);
        lemma_lit_round_trip("]"@, rest);
        assert(("]"@ + rest).skip(1) =~= rest);
        assert(seq![xs[0]] =~= xs);
    } else {
        let t = enc_str_items(xs) + rest;
        let tail = ","@ + (enc_str_items(xs.skip(1)) + rest);
        assert(t =~= enc_str(xs[0]) + tail);
        lemma_string_round_trip(xs[0], tail);
        assert(tail[0] == ',');
        lemma_lit_round_trip(","@, enc_str_items(xs.skip(1)) + rest);
        assert(tail.skip(1) =~= enc_str_items(xs.skip(1)) + rest);
        lemma_str_items_round_trip(xs.skip(1), rest);
        assert(seq![xs[0]] + xs.skip(1) =~= xs);
    }
}

/// Law: a string array reads back as itself.
pub proof fn lemma_str_list_round_trip(xs: Seq<Seq<char>>, rest: Seq<char>)
    ensures
        p_str_list(enc_str_list(xs) + rest) == Some((xs, rest)),
{
    reveal_strlit("[");
    reveal_strlit("]");
    reveal_strlit("[]");
    if xs.len() == 0 {
        let t = enc_str_list(xs) + rest;
        assert(t =~= "["@ + ("]"@ + rest));
        lemma_lit_round_trip("["@, "]"@ + rest);
        assert(t.skip(1) =~= "]"@ + rest);
        lemma_lit_round_trip("]"@, rest);
    } else {
        let t = enc_str_list(xs) + rest;
        let t1 = enc_str_items(xs) + rest;
        assert(t =~= "["@ + t1);
        lemma_lit_round_trip("["@, t1);
        assert(t.skip(1) =~= t1);
        assert(t1[0] == '"');
        lemma_lit_mismatch(t1, "]"@, 0);
        lemma_str_items_round_trip(xs, rest);
    }
}

/// Appends the canonical string array for `xs`.
fn push_str_list(out: &mut Vec<char>, xs: &Vec<String>)
    ensures
        final(out)@ == old(out)@ + enc_str_list(xs.deep_view()),
{
    if xs.len() == 0 {
        push_lit(out, "[]");
        proof {
            assert(out@ =~= old(out)@ + enc_str_list(xs.deep_view()));
        }
    } else {
        push_lit(out, "[");
        push_str_items(out, xs, 0);
        proof {
            assert(xs.deep_view().skip(0) =~= xs.deep_view());
            assert(out@ =~= old(out)@ + enc_str_list(xs.deep_view()));
        }
    }
}

fn push_str_items(out: &mut Vec<char>, xs: &Vec<String>, i: usize)
    requires
        i < xs.len(),
    ensures
        final(out)@ == old(out)@ + enc_str_items(xs.deep_view().skip(i as int)),
    decreases xs.len() - i,
{
    let ghost tail = xs.deep_view().skip(i as int);
    proof {
        assert(tail[0] == xs.deep_view()[i as int]);
        assert(xs.deep_view()[i as int] == xs@[i as int].deep_view());
    }
    push_json_str(out, xs[i].as_str());
    if i + 1 == xs.len() {
        push_lit(out, "]");
        proof {
            assert(tail.len() == 1);
            assert(out@ =~= old(out)@ + enc_str_items(tail));
        }
    } else {
        push_lit(out, ",");
        push_str_items(out, xs, i + 1);
        proof {
            assert(tail.skip(1) =~= xs.deep_view().skip(i as int + 1));
            assert(out@ =~= old(out)@ + enc_str_items(tail));
        }
    }
}

fn parse_str_items(v: &Vec<char>, i: usize) -> (r: Option<(Vec<String>, usize)>)
    requires
        i <= v.len(),
    ensures
        (r is Some) == (p_str_items(v@.skip(i as int)) is Some),
        r matches Some(p) ==> i < p.1 <= v.len() && p_str_items(v@.skip(i as int)) == Some(
            (p.0.deep_view(), v@.skip(p.1 as int)),
        ),
    decreases v.len() - i,
{
    match parse_json_str(v, i) {
        None => None,
        Some((x, j)) => {
            if let Some(j2) = expect_lit(v, j, ",") {
                proof {
                    reveal_strlit(",");
                }
                match parse_str_items(v, j2) {
                    Some((mut items, k)) => {
                        let ghost prevv = items@;
                        let ghost prev = items.deep_view();
                        items.insert(0, x);
                        proof {
                            assert forall|m: int|
                                0 <= m < items.deep_view().len() implies items.deep_view()[m] == (
                            seq![x@] + prev)[m] by {
                                assert(items.deep_view()[m] == items@[m].deep_view());
                                if m > 0 {
                                    assert(items@[m] == prevv[m - 1]);
                                    assert(prev[m - 1] == prevv[m - 1].deep_view());
                                }
                            }
                            assert(items.deep_view() =~= seq![x@] + prev);
                        }
                        Some((items, k))
                    },
                    None => None,
                }
            } else if let Some(j2) = expect_lit(v, j, "]") {
                let mut items: Vec<String> = Vec::new();
                items.push(x);
                proof {
                    assert(items.deep_view() =~= seq![x@]);
                }
                Some((items, j2))
            } else {
                None
            }
        },
    }
}

fn parse_str_list(v: &Vec<char>, i: usize) -> (r: Option<(Vec<String>, usize)>)
    requires
        i <= v.len(),
    ensures
        (r is Some) == (p_str_list(v@.skip(i as int)) is Some),
        r matches Some(p) ==> i < p.1 <= v.len() && p_str_list(v@.skip(i as int)) == Some(
            (p.0.deep_view(), v@.skip(p.1 as int)),
        ),
{
    match expect_lit(v, i, "[") {
        None => None,
        Some(j) => {
            proof {
                reveal_strlit("[");
                reveal_strlit("]");
            }
            if let Some(j2) = expect_lit(v, j, "]") {
                let items: Vec<String> = Vec::new();
                proof {
                    assert(items.deep_view() =~= Seq::<Seq<char>>::empty());
                }
                Some((items, j2))
            } else {
                parse_str_items(v, j)
            }
        },
    }
}


/// The canonical wire form of a plan entry.
pub open spec fn enc_plan_entry(e: crate::ipc::PlanEntrySummaryView) -> Seq<char> {
    "{\"status\":"@ + enc_str(e.status) + ",\"priority\":"@ + enc_str(e.priority)
        + ",\"content\":"@ + enc_str(e.content) + "}"@
}

/// Canonical parse of a plan entry.
pub open spec fn p_plan_entry(s: Seq<char>) -> Option<(crate::ipc::PlanEntrySummaryView, Seq<char>)> {
    match p_lit(s, "{\"status\":"@) {
        Some(r1) => match p_string(r1) {
            Some(p1) => match p_lit(p1.1, ",\"priority\":"@) {
                Some(r2) => match p_string(r2) {
                    Some(p2) => match p_lit(p2.1, ",\"content\":"@) {
                        Some(r3) => match p_string(r3) {
                            Some(p3) => match p_lit(p3.1, "}"@) {
                                Some(r4) => Some(
                                    (crate::ipc::PlanEntrySummaryView {
                                        status: p1.0,
                                        priority: p2.0,
                                        content: p3.0,
                                    }, r4),
                                ),
                                None => None,
                            },
                            None => None,
                        },
                        None => None,
                    },
                    None => None,
                },
                None => None,
            },
            None => None,
        },
        None => None,
    }
}

proof fn lemma_plan_entry_consumes(s: Seq<char>)
    ensures
        p_plan_entry(s) matches Some(p) ==> p.1.len() < s.len(),
{
    reveal_strlit("{\"status\":");
    match p_lit(s, "{\"status\":"@) {
        Some(r1) => {
            lemma_string_consumes(r1);
            match p_string(r1) {
                Some(p1) => match p_lit(p1.1, ",\"priority\":"@) {
                    Some(r2) => {
                        lemma_string_consumes(r2);
                        match p_string(r2) {
                            Some(p2) => match p_lit(p2.1, ",\"content\":"@) {
                                Some(r3) => {
                                    lemma_string_consumes(r3);
                                },
                                None => {},
                            },
                            None => {},
                        }
                    },
                    None => {},
                },
                None => {},
            }
        },
        None => {},
    }
}

/// Law: a plan entry reads back as itself.
proof fn lemma_plan_entry_round_trip(e: crate::ipc::PlanEntrySummaryView, rest: Seq<char>)
    ensures
        p_plan_entry(enc_plan_entry(e) + rest) == Some((e, rest)),
{
    let t = enc_plan_entry(e) + rest;
    let u3 = "}"@ + rest;
    let u2 = enc_str(e.content) + u3;
    let u2l = ",\"content\":"@ + u2;
    let u1 = enc_str(e.priority) + u2l;
    let u1l = ",\"priority\":"@ + u1;
    let u0 = enc_str(e.status) + u1l;
    assert(t =~= "{\"status\":"@ + u0);
    lemma_lit_round_trip("{\"status\":"@, u0);
    lemma_string_round_trip(e.status, u1l);
    lemma_lit_round_trip(",\"priority\":"@, u1);
    lemma_string_round_trip(e.priority, u2l);
    lemma_lit_round_trip(",\"content\":"@, u2);
    lemma_string_round_trip(e.content, u3);
    lemma_lit_round_trip("}"@, rest);
}

fn push_plan_entry(out: &mut Vec<char>, e: &crate::ipc::PlanEntrySummary)
    ensures
        final(out)@ == old(out)@ + enc_plan_entry(e.deep_view()),
{
    push_lit(out, "{\"status\":");
    push_json_str(out, e.status.as_str());
    push_lit(out, ",\"priority\":");
    push_json_str(out, e.priority.as_str());
    push_lit(out, ",\"content\":");
    push_json_str(out, e.content.as_str());
    push_lit(out, "}");
    proof {
        assert(out@ =~= old(out)@ + enc_plan_entry(e.deep_view()));
    }
}

fn parse_plan_entry(v: &Vec<char>, i: usize) -> (r: Option<(crate::ipc::PlanEntrySummary, usize)>)
    requires
        i <= v.len(),
    ensures
        (r is Some) == (p_plan_entry(v@.skip(i as int)) is Some),
        r matches Some(p) ==> i < p.1 <= v.len() && p_plan_entry(v@.skip(i as int)) == Some(
            (p.0.deep_view(), v@.skip(p.1 as int)),
        ),
{
    proof {
        reveal_strlit("{\"status\":");
    }
    match expect_lit(v, i, "{\"status\":") {
        None => None,
        Some(j1) => match parse_json_str(v, j1) {
            None => None,
            Some((status, j2)) => match expect_lit(v, j2, ",\"priority\":") {
                None => None,
                Some(j3) => match parse_json_str(v, j3) {
                    None => None,
                    Some((priority, j4)) => match expect_lit(v, j4, ",\"content\":") {
                        None => None,
                        Some(j5) => match parse_json_str(v, j5) {
                            None => None,
                            Some((content, j6)) => match expect_lit(v, j6, "}") {
                                None => None,
                                Some(j7) => Some(
                                    (crate::ipc::PlanEntrySummary { status, priority, content }, j7),
                                ),
                            },
                        },
                    },
                },
            },
        },
    }
}

/// The canonical wire form of a list of plan entries.
pub open spec fn enc_plan_items(xs: Seq<crate::ipc::PlanEntrySummaryView>) -> Seq<char>
    decreases xs.len(),
{
    if xs.len() <= 1 {
        enc_plan_entry(xs[0]) + "]"@
    } else {
        enc_plan_entry(xs[0]) + ","@ + enc_plan_items(xs.skip(1))
    }
}

/// The canonical wire form of a plan-entry array.
pub open spec fn enc_plan_list(xs: Seq<crate::ipc::PlanEntrySummaryView>) -> Seq<char> {
    if xs.len() == 0 {
        "[]"@
    } else {
        "["@ + enc_plan_items(xs)
    }
}

/// Canonical parse of the items of a non-empty plan-entry array.
pub open spec fn p_plan_items(s: Seq<char>) -> Option<
    (Seq<crate::ipc::PlanEntrySummaryView>, Seq<char>),
>
    decreases s.len(),
        via p_plan_items_dec
{
    match p_plan_entry(s) {
        Some(p) => {
            if p_lit(p.1, ","@) is Some {
                match p_plan_items(p_lit(p.1, ","@)->Some_0) {
                    Some(q) => Some((seq![p.0] + q.0, q.1)),
                    None => None,
                }
            } else if p_lit(p.1, "]"@) is Some {
                Some((seq![p.0], p_lit(p.1, "]"@)->Some_0))
            } else {
                None
            }
        },
        None => None,
    }
}

#[via_fn]
proof fn p_plan_items_dec(s: Seq<char>) {
    lemma_plan_entry_consumes(s);
}

/// Canonical parse of a plan-entry array.
pub open spec fn p_plan_list(s: Seq<char>) -> Option<
    (Seq<crate::ipc::PlanEntrySummaryView>, Seq<char>),
> {
    match p_lit(s, "["@) {
        Some(r1) => {
            if p_lit(r1, "]"@) is Some {
                Some((Seq::<crate::ipc::PlanEntrySummaryView>::empty(), p_lit(r1, "]"@)->Some_0))
            } else {
                p_plan_items(r1)
            }
        },
        None => None,
    }
}

proof fn lemma_plan_items_consumes(s: Seq<char>)
    ensures
        p_plan_items(s) matches Some(p) ==> p.1.len() < s.len(),
    decreases s.len(),
{
    lemma_plan_entry_consumes(s);
    match p_plan_entry(s) {
        Some(p) => {
            if p_lit(p.1, ","@) is Some {
                lemma_plan_items_consumes(p_lit(p.1, ","@)->Some_0);
            }
        },
        None => {},
    }
}

/// Law: a non-empty plan-entry array's items read back as themselves.
#[verifier::rlimit(100)]
proof fn lemma_plan_items_round_trip(xs: Seq<crate::ipc::PlanEntrySummaryView>, rest: Seq<char>)
    requires
        xs.len() >= 1,
    ensures
        p_plan_items(enc_plan_items(xs) + rest) == Some((xs, rest)),
    decreases xs.len(),
{
    reveal_strlit(",");
    reveal_strlit("]");
    reveal_strlit("{\"status\":");
    if xs.len() == 1 {
        let t = enc_plan_items(xs) + rest;
        assert(t =~= enc_plan_entry(xs[0]) + ("]"@ + rest));
        lemma_plan_entry_round_trip(xs[0], "]"@ + rest);
        assert(("]"@ + rest)[0] == ']');
        lemma_lit_mismatch("]"@ + rest, ","@, 0);
        lemma_lit_round_trip("]"@, rest);
        assert(("]"@ + rest).skip(1) =~= rest);
        assert(seq![xs[0]] =~= xs);
    } else {
        let t = enc_plan_items(xs) + rest;
        let tail = ","@ + (enc_plan_items(xs.skip(1)) + rest);
        assert(t =~= enc_plan_entry(xs[0]) + tail);
        lemma_plan_entry_round_trip(xs[0], tail);
        assert(tail[0] == ',');
        lemma_lit_round_trip(","@, enc_plan_items(xs.skip(1)) + rest);
        assert(tail.skip(1) =~= enc_plan_items(xs.skip(1)) + rest);
        lemma_plan_items_round_trip(xs.skip(1), rest);
        assert(seq![xs[0]] + xs.skip(1) =~= xs);
    }
}

/// Law: a plan-entry array reads back as itself.
proof fn lemma_plan_list_round_trip(xs: Seq<crate::ipc::PlanEntrySummaryView>, rest: Seq<char>)
    ensures
        p_plan_list(enc_plan_list(xs) + rest) == Some((xs, rest)),
{
    reveal_strlit("[");
    reveal_strlit("]");
    reveal_strlit("[]");
    reveal_strlit("{\"status\":");
    if xs.len() == 0 {
        let t = enc_plan_list(xs) + rest;
        assert(t =~= "["@ + ("]"@ + rest));
        lemma_lit_round_trip("["@, "]"@ + rest);
        assert(t.skip(1) =~= "]"@ + rest);
        lemma_lit_round_trip("]"@, rest);
    } else {
        let t = enc_plan_list(xs) + rest;
        let t1 = enc_plan_items(xs) + rest;
        assert(t =~= "["@ + t1);
        lemma_lit_round_trip("["@, t1);
        assert(t.skip(1) =~= t1);
        assert(t1[0] == '{');
        lemma_lit_mismatch(t1, "]"@, 0);
        lemma_plan_items_round_trip(xs, rest);
    }
}

fn push_plan_list(out: &mut Vec<char>, xs: &Vec<crate::ipc::PlanEntrySummary>)
    ensures
        final(out)@ == old(out)@ + enc_plan_list(xs.deep_view()),
{
    if xs.len() == 0 {
        push_lit(out, "[]");
        proof {
            assert(out@ =~= old(out)@ + enc_plan_list(xs.deep_view()));
        }
    } else {
        push_lit(out, "[");
        push_plan_items(out, xs, 0);
        proof {
            assert(xs.deep_view().skip(0) =~= xs.deep_view());
            assert(out@ =~= old(out)@ + enc_plan_list(xs.deep_view()));
        }
    }
}

fn push_plan_items(out: &mut Vec<char>, xs: &Vec<crate::ipc::PlanEntrySummary>, i: usize)
    requires
        i < xs.len(),
    ensures
        final(out)@ == old(out)@ + enc_plan_items(xs.deep_view().skip(i as int)),
    decreases xs.len() - i,
{
    let ghost tail = xs.deep_view().skip(i as int);
    proof {
        assert(tail[0] == xs.deep_view()[i as int]);
        assert(xs.deep_view()[i as int] == xs@[i as int].deep_view());
    }
    push_plan_entry(out, &xs[i]);
    if i + 1 == xs.len() {
        push_lit(out, "]");
        proof {
            assert(tail.len() == 1);
            assert(out@ =~= old(out)@ + enc_plan_items(tail));
        }
    } else {
        push_lit(out, ",");
        push_plan_items(out, xs, i + 1);
        proof {
            assert(tail.skip(1) =~= xs.deep_view().skip(i as int + 1));
            assert(out@ =~= old(out)@ + enc_plan_items(tail));
        }
    }
}

fn parse_plan_items(v: &Vec<char>, i: usize) -> (r: Option<
    (Vec<crate::ipc::PlanEntrySummary>, usize),
>)
    requires
        i <= v.len(),
    ensures
        (r is Some) == (p_plan_items(v@.skip(i as int)) is Some),
        r matches Some(p) ==> i < p.1 <= v.len() && p_plan_items(v@.skip(i as int)) == Some(
            (p.0.deep_view(), v@.skip(p.1 as int)),
        ),
    decreases v.len() - i,
{
    match parse_plan_entry(v, i) {
        None => None,
        Some((x, j)) => {
            if let Some(j2) = expect_lit(v, j, ",") {
                proof {
                    reveal_strlit(",");
                }
                match parse_plan_items(v, j2) {
                    Some((mut items, k)) => {
                        let ghost prevv = items@;
                        let ghost prev = items.deep_view();
                        items.insert(0, x);
                        proof {
                            assert forall|m: int|
                                0 <= m < items.deep_view().len() implies items.deep_view()[m] == (
                            seq![x.deep_view()] + prev)[m] by {
                                assert(items.deep_view()[m] == items@[m].deep_view());
                                if m > 0 {
                                    assert(items@[m] == prevv[m - 1]);
                                    assert(prev[m - 1] == prevv[m - 1].deep_view());
                                }
                            }
                            assert(items.deep_view() =~= seq![x.deep_view()] + prev);
                        }
                        Some((items, k))
                    },
                    None => None,
                }
            } else if let Some(j2) = expect_lit(v, j, "]") {
                let mut items: Vec<crate::ipc::PlanEntrySummary> = Vec::new();
                items.push(x);
                proof {
                    assert(items.deep_view() =~= seq![x.deep_view()]);
                }
                Some((items, j2))
            } else {
                None
            }
        },
    }
}

fn parse_plan_list(v: &Vec<char>, i: usize) -> (r: Option<
    (Vec<crate::ipc::PlanEntrySummary>, usize),
>)
    requires
        i <= v.len(),
    ensures
        (r is Some) == (p_plan_list(v@.skip(i as int)) is Some),
        r matches Some(p) ==> i < p.1 <= v.len() && p_plan_list(v@.skip(i as int)) == Some(
            (p.0.deep_view(), v@.skip(p.1 as int)),
        ),
{
    match expect_lit(v, i, "[") {
        None => None,
        Some(j) => {
            proof {
                reveal_strlit("[");
                reveal_strlit("]");
            }
            if let Some(j2) = expect_lit(v, j, "]") {
                let items: Vec<crate::ipc::PlanEntrySummary> = Vec::new();
                proof {
                    assert(items.deep_view() =~= Seq::<crate::ipc::PlanEntrySummaryView>::empty());
                }
                Some((items, j2))
            } else {
                parse_plan_items(v, j)
            }
        },
    }
}

/// The canonical wire form of an advertised command.
pub open spec fn enc_cmd(c: crate::ipc::CommandSummaryView) -> Seq<char> {
    "{\"name\":"@ + enc_str(c.name) + ",\"description\":"@ + enc_str(c.description)
        + ",\"hint\":"@ + enc_opt_str(c.hint) + "}"@
}

/// Canonical parse of an advertised command.
pub open spec fn p_cmd(s: Seq<char>) -> Option<(crate::ipc::CommandSummaryView, Seq<char>)> {
    match p_lit(s, "{\"name\":"@) {
        Some(r1) => match p_string(r1) {
            Some(p1) => match p_lit(p1.1, ",\"description\":"@) {
                Some(r2) => match p_string(r2) {
                    Some(p2) => match p_lit(p2.1, ",\"hint\":"@) {
                        Some(r3) => match p_opt_str(r3) {
                            Some(p3) => match p_lit(p3.1, "}"@) {
                                Some(r4) => Some(
                                    (crate::ipc::CommandSummaryView {
                                        name: p1.0,
                                        description: p2.0,
                                        hint: p3.0,
                                    }, r4),
                                ),
                                None => None,
                            },
                            None => None,
                        },
                        None => None,
                    },
                    None => None,
                },
                None => None,
            },
            None => None,
        },
        None => None,
    }
}

proof fn lemma_opt_str_consumes(s: Seq<char>)
    ensures
        p_opt_str(s) matches Some(p) ==> p.1.len() < s.len(),
{
    reveal_strlit("null");
    lemma_string_consumes(s);
}

proof fn lemma_cmd_consumes(s: Seq<char>)
    ensures
        p_cmd(s) matches Some(p) ==> p.1.len() < s.len(),
{
    reveal_strlit("{\"name\":");
    match p_lit(s, "{\"name\":"@) {
        Some(r1) => {
            lemma_string_consumes(r1);
            match p_string(r1) {
                Some(p1) => match p_lit(p1.1, ",\"description\":"@) {
                    Some(r2) => {
                        lemma_string_consumes(r2);
                        match p_string(r2) {
                            Some(p2) => match p_lit(p2.1, ",\"hint\":"@) {
                                Some(r3) => {
                                    lemma_opt_str_consumes(r3);
                                },
                                None => {},
                            },
                            None => {},
                        }
                    },
                    None => {},
                },
                None => {},
            }
        },
        None => {},
    }
}

/// Law: an advertised command reads back as itself.
proof fn lemma_cmd_round_trip(c: crate::ipc::CommandSummaryView, rest: Seq<char>)
    ensures
        p_cmd(enc_cmd(c) + rest) == Some((c, rest)),
{
    let t = enc_cmd(c) + rest;
    let u3 = "}"@ + rest;
    let u2 = enc_opt_str(c.hint) + u3;
    let u2l = ",\"hint\":"@ + u2;
    let u1 = enc_str(c.description) + u2l;
    let u1l = ",\"description\":"@ + u1;
    let u0 = enc_str(c.name) + u1l;
    assert(t =~= "{\"name\":"@ + u0);
    lemma_lit_round_trip("{\"name\":"@, u0);
    lemma_string_round_trip(c.name, u1l);
    lemma_lit_round_trip(",\"description\":"@, u1);
    lemma_string_round_trip(c.description, u2l);
    lemma_lit_round_trip(",\"hint\":"@, u2);
    lemma_opt_str_round_trip(c.hint, u3);
    lemma_lit_round_trip("}"@, rest);
}

fn push_cmd(out: &mut Vec<char>, c: &crate::ipc::CommandSummary)
    ensures
        final(out)@ == old(out)@ + enc_cmd(c.deep_view()),
{
    push_lit(out, "{\"name\":");
    push_json_str(out, c.name.as_str());
    push_lit(out, ",\"description\":");
    push_json_str(out, c.description.as_str());
    push_lit(out, ",\"hint\":");
    push_opt_json_str(out, &c.hint);
    push_lit(out, "}");
    proof {
        assert(out@ =~= old(out)@ + enc_cmd(c.deep_view()));
    }
}

fn parse_cmd(v: &Vec<char>, i: usize) -> (r: Option<(crate::ipc::CommandSummary, usize)>)
    requires
        i <= v.len(),
    ensures
        (r is Some) == (p_cmd(v@.skip(i as int)) is Some),
        r matches Some(p) ==> i < p.1 <= v.len() && p_cmd(v@.skip(i as int)) == Some(
            (p.0.deep_view(), v@.skip(p.1 as int)),
        ),
{
    proof {
        reveal_strlit("{\"name\":");
    }
    match expect_lit(v, i, "{\"name\":") {
        None => None,
        Some(j1) => match parse_json_str(v, j1) {
            None => None,
            Some((name, j2)) => match expect_lit(v, j2, ",\"description\":") {
                None => None,
                Some(j3) => match parse_json_str(v, j3) {
                    None => None,
                    Some((description, j4)) => match expect_lit(v, j4, ",\"hint\":") {
                        None => None,
                        Some(j5) => match parse_opt_str(v, j5) {
                            None => None,
                            Some((hint, j6)) => match expect_lit(v, j6, "}") {
                                None => None,
                                Some(j7) => Some(
                                    (crate::ipc::CommandSummary { name, description, hint }, j7),
                                ),
                            },
                        },
                    },
                },
            },
        },
    }
}

/// The canonical wire form of a list of advertised commands.
pub open spec fn enc_cmd_items(xs: Seq<crate::ipc::CommandSummaryView>) -> Seq<char>
    decreases xs.len(),
{
    if xs.len() <= 1 {
        enc_cmd(xs[0]) + "]"@
    } else {
        enc_cmd(xs[0]) + ","@ + enc_cmd_items(xs.skip(1))
    }
}

/// The canonical wire form of a command array.
pub open spec fn enc_cmd_list(xs: Seq<crate::ipc::CommandSummaryView>) -> Seq<char> {
    if xs.len() == 0 {
        "[]"@
    } else {
        "["@ + enc_cmd_items(xs)
    }
}

/// Canonical parse of the items of a non-empty command array.
pub open spec fn p_cmd_items(s: Seq<char>) -> Option<
    (Seq<crate::ipc::CommandSummaryView>, Seq<char>),
>
    decreases s.len(),
        via p_cmd_items_dec
{
    match p_cmd(s) {
        Some(p) => {
            if p_lit(p.1, ","@) is Some {
                match p_cmd_items(p_lit(p.1, ","@)->Some_0) {
                    Some(q) => Some((seq![p.0] + q.0, q.1)),
                    None => None,
                }
            } else if p_lit(p.1, "]"@) is Some {
                Some((seq![p.0], p_lit(p.1, "]"@)->Some_0))
            } else {
                None
            }
        },
        None => None,
    }
}

#[via_fn]
proof fn p_cmd_items_dec(s: Seq<char>) {
    lemma_cmd_consumes(s);
}

/// Canonical parse of a command array.
pub open spec fn p_cmd_list(s: Seq<char>) -> Option<(Seq<crate::ipc::CommandSummaryView>, Seq<char>)> {
    match p_lit(s, "["@) {
        Some(r1) => {
            if p_lit(r1, "]"@) is Some {
                Some((Seq::<crate::ipc::CommandSummaryView>::empty(), p_lit(r1, "]"@)->Some_0))
            } else {
                p_cmd_items(r1)
            }
        },
        None => None,
    }
}

proof fn lemma_cmd_items_consumes(s: Seq<char>)
    ensures
        p_cmd_items(s) matches Some(p) ==> p.1.len() < s.len(),
    decreases s.len(),
{
    lemma_cmd_consumes(s);
    match p_cmd(s) {
        Some(p) => {
            if p_lit(p.1, ","@) is Some {
                lemma_cmd_items_consumes(p_lit(p.1, ","@)->Some_0);
            }
        },
        None => {},
    }
}

/// Law: a non-empty command array's items read back as themselves.
#[verifier::rlimit(100)]
proof fn lemma_cmd_items_round_trip(xs: Seq<crate::ipc::CommandSummaryView>, rest: Seq<char>)
    requires
        xs.len() >= 1,
    ensures
        p_cmd_items(enc_cmd_items(xs) + rest) == Some((xs, rest)),
    decreases xs.len(),
{
    reveal_strlit(",");
    reveal_strlit("]");
    reveal_strlit("{\"name\":");
    if xs.len() == 1 {
        let t = enc_cmd_items(xs) + rest;
        assert(t =~= enc_cmd(xs[0]) + ("]"@ + rest));
        lemma_cmd_round_trip(xs[0], "]"@ + rest);
        assert(("]"@ + rest)[0] == ']');
        lemma_lit_mismatch("]"@ + rest, ","@, 0);
        lemma_lit_round_trip("]"@, rest);
        assert(("]"@ + rest).skip(1) =~= rest);
        assert(seq![xs[0]] =~= xs);
    } else {
        let t = enc_cmd_items(xs) + rest;
        let tail = ","@ + (enc_cmd_items(xs.skip(1)) + rest);
        assert(t =~= enc_cmd(xs[0]) + tail);
        lemma_cmd_round_trip(xs[0], tail);
        assert(tail[0] == ',');
        lemma_lit_round_trip(","@, enc_cmd_items(xs.skip(1)) + rest);
        assert(tail.skip(1) =~= enc_cmd_items(xs.skip(1)) + rest);
        lemma_cmd_items_round_trip(xs.skip(1), rest);
        assert(seq![xs[0]] + xs.skip(1) =~= xs);
    }
}

/// Law: a command array reads back as itself.
proof fn lemma_cmd_list_round_trip(xs: Seq<crate::ipc::CommandSummaryView>, rest: Seq<char>)
    ensures
        p_cmd_list(enc_cmd_list(xs) + rest) == Some((xs, rest)),
{
    reveal_strlit("[");
    reveal_strlit("]");
    reveal_strlit("[]");
    reveal_strlit("{\"name\":");
    if xs.len() == 0 {
        let t = enc_cmd_list(xs) + rest;
        assert(t =~= "["@ + ("]"@ + rest));
        lemma_lit_round_trip("["@, "]"@ + rest);
        assert(t.skip(1) =~= "]"@ + rest);
        lemma_lit_round_trip("]"@, rest);
    } else {
        let t = enc_cmd_list(xs) + rest;
        let t1 = enc_cmd_items(xs) + rest;
        assert(t =~= "["@ + t1);
        lemma_lit_round_trip("["@, t1);
        assert(t.skip(1) =~= t1);
        assert(t1[0] == '{');
        lemma_lit_mismatch(t1, "]"@, 0);
        lemma_cmd_items_round_trip(xs, rest);
    }
}

fn push_cmd_list(out: &mut Vec<char>, xs: &Vec<crate::ipc::CommandSummary>)
    ensures
        final(out)@ == old(out)@ + enc_cmd_list(xs.deep_view()),
{
    if xs.len() == 0 {
        push_lit(out, "[]");
        proof {
            assert(out@ =~= old(out)@ + enc_cmd_list(xs.deep_view()));
        }
    } else {
        push_lit(out, "[");
        push_cmd_items(out, xs, 0);
        proof {
            assert(xs.deep_view().skip(0) =~= xs.deep_view());
            assert(out@ =~= old(out)@ + enc_cmd_list(xs.deep_view()));
        }
    }
}

fn push_cmd_items(out: &mut Vec<char>, xs: &Vec<crate::ipc::CommandSummary>, i: usize)
    requires
        i < xs.len(),
    ensures
        final(out)@ == old(out)@ + enc_cmd_items(xs.deep_view().skip(i as int)),
    decreases xs.len() - i,
{
    let ghost tail = xs.deep_view().skip(i as int);
    proof {
        assert(tail[0] == xs.deep_view()[i as int]);
        assert(xs.deep_view()[i as int] == xs@[i as int].deep_view());
    }
    push_cmd(out, &xs[i]);
    if i + 1 == xs.len() {
        push_lit(out, "]");
        proof {
            assert(tail.len() == 1);
            assert(out@ =~= old(out)@ + enc_cmd_items(tail));
        }
    } else {
        push_lit(out, ",");
        push_cmd_items(out, xs, i + 1);
        proof {
            assert(tail.skip(1) =~= xs.deep_view().skip(i as int + 1));
            assert(out@ =~= old(out)@ + enc_cmd_items(tail));
        }
    }
}

fn parse_cmd_items(v: &Vec<char>, i: usize) -> (r: Option<(Vec<crate::ipc::CommandSummary>, usize)>)
    requires
        i <= v.len(),
    ensures
        (r is Some) == (p_cmd_items(v@.skip(i as int)) is Some),
        r matches Some(p) ==> i < p.1 <= v.len() && p_cmd_items(v@.skip(i as int)) == Some(
            (p.0.deep_view(), v@.skip(p.1 as int)),
        ),
    decreases v.len() - i,
{
    match parse_cmd(v, i) {
        None => None,
        Some((x, j)) => {
            if let Some(j2) = expect_lit(v, j, ",") {
                proof {
                    reveal_strlit(",");
                }
                match parse_cmd_items(v, j2) {
                    Some((mut items, k)) => {
                        let ghost prevv = items@;
                        let ghost prev = items.deep_view();
                        items.insert(0, x);
                        proof {
                            assert forall|m: int|
                                0 <= m < items.deep_view().len() implies items.deep_view()[m] == (
                            seq![x.deep_view()] + prev)[m] by {
                                assert(items.deep_view()[m] == items@[m].deep_view());
                                if m > 0 {
                                    assert(items@[m] == prevv[m - 1]);
                                    assert(prev[m - 1] == prevv[m - 1].deep_view());
                                }
                            }
                            assert(items.deep_view() =~= seq![x.deep_view()] + prev);
                        }
                        Some((items, k))
                    },
                    None => None,
                }
            } else if let Some(j2) = expect_lit(v, j, "]") {
                let mut items: Vec<crate::ipc::CommandSummary> = Vec::new();
                items.push(x);
                proof {
                    assert(items.deep_view() =~= seq![x.deep_view()]);
                }
                Some((items, j2))
            } else {
                None
            }
        },
    }
}

fn parse_cmd_list(v: &Vec<char>, i: usize) -> (r: Option<(Vec<crate::ipc::CommandSummary>, usize)>)
    requires
        i <= v.len(),
    ensures
        (r is Some) == (p_cmd_list(v@.skip(i as int)) is Some),
        r matches Some(p) ==> i < p.1 <= v.len() && p_cmd_list(v@.skip(i as int)) == Some(
            (p.0.deep_view(), v@.skip(p.1 as int)),
        ),
{
    match expect_lit(v, i, "[") {
        None => None,
        Some(j) => {
            proof {
                reveal_strlit("[");
                reveal_strlit("]");
            }
            if let Some(j2) = expect_lit(v, j, "]") {
                let items: Vec<crate::ipc::CommandSummary> = Vec::new();
                proof {
                    assert(items.deep_view() =~= Seq::<crate::ipc::CommandSummaryView>::empty());
                }
                Some((items, j2))
            } else {
                parse_cmd_items(v, j)
            }
        },
    }
}


/// The canonical wire form of a transcript event.
pub open spec fn enc_event(e: crate::ipc::TranscriptEventView) -> Seq<char> {
    match e {
        crate::ipc::TranscriptEventView::UserMessage { text } => "{\"kind\":\"user_message\",\"text\":"@
            + enc_str(text) + "}"@,
        crate::ipc::TranscriptEventView::AgentMessage { text } => "{\"kind\":\"agent_message\",\"text\":"@
            + enc_str(text) + "}"@,
        crate::ipc::TranscriptEventView::AgentThought { text } => "{\"kind\":\"agent_thought\",\"text\":"@
            + enc_str(text) + "}"@,
        crate::ipc::TranscriptEventView::ToolCall { id, title, status } => "{\"kind\":\"tool_call\",\"id\":"@
            + enc_str(id) + ",\"title\":"@ + enc_str(title) + ",\"status\":"@ + enc_str(status)
            + "}"@,
        crate::ipc::TranscriptEventView::ToolCallUpdate { id, status, message } => "{\"kind\":\"tool_call_update\",\"id\":"@
            + enc_str(id) + ",\"status\":"@ + enc_opt_str(status) + ",\"message\":"@ + enc_opt_str(
            message,
        ) + "}"@,
        crate::ipc::TranscriptEventView::Plan { entries } => "{\"kind\":\"plan\",\"entries\":"@
            + enc_plan_list(entries) + "}"@,
        crate::ipc::TranscriptEventView::AvailableCommands { commands } => "{\"kind\":\"available_commands\",\"commands\":"@
            + enc_cmd_list(commands) + "}"@,
        crate::ipc::TranscriptEventView::SystemMessage { text } => "{\"kind\":\"system_message\",\"text\":"@
            + enc_str(text) + "}"@,
    }
}

/// Canonical parse of one text-only event body after its kind tag.
pub open spec fn p_text_body(s: Seq<char>) -> Option<(Seq<char>, Seq<char>)> {
    match p_string(s) {
        Some(p1) => match p_lit(p1.1, "}"@) {
            Some(r2) => Some((p1.0, r2)),
            None => None,
        },
        None => None,
    }
}

/// Canonical parse of a transcript event.
pub open spec fn p_event(s: Seq<char>) -> Option<(crate::ipc::TranscriptEventView, Seq<char>)> {
    match p_lit(s, "{\"kind\":\""@) {
        Some(r0) => {
            if p_lit(r0, "user_message\",\"text\":"@) is Some {
                match p_text_body(p_lit(r0, "user_message\",\"text\":"@)->Some_0) {
                    Some(p) => Some(
                        (crate::ipc::TranscriptEventView::UserMessage { text: p.0 }, p.1),
                    ),
                    None => None,
                }
            } else if p_lit(r0, "agent_message\",\"text\":"@) is Some {
                match p_text_body(p_lit(r0, "agent_message\",\"text\":"@)->Some_0) {
                    Some(p) => Some(
                        (crate::ipc::TranscriptEventView::AgentMessage { text: p.0 }, p.1),
                    ),
                    None => None,
                }
            } else if p_lit(r0, "agent_thought\",\"text\":"@) is Some {
                match p_text_body(p_lit(r0, "agent_thought\",\"text\":"@)->Some_0) {
                    Some(p) => Some(
                        (crate::ipc::TranscriptEventView::AgentThought { text: p.0 }, p.1),
                    ),
                    None => None,
                }
            } else if p_lit(r0, "system_message\",\"text\":"@) is Some {
                match p_text_body(p_lit(r0, "system_message\",\"text\":"@)->Some_0) {
                    Some(p) => Some(
                        (crate::ipc::TranscriptEventView::SystemMessage { text: p.0 }, p.1),
                    ),
                    None => None,
                }
            } else if p_lit(r0, "tool_call\",\"id\":"@) is Some {
                match p_string(p_lit(r0, "tool_call\",\"id\":"@)->Some_0) {
                    Some(p1) => match p_lit(p1.1, ",\"title\":"@) {
                        Some(r2) => match p_string(r2) {
                            Some(p2) => match p_lit(p2.1, ",\"status\":"@) {
                                Some(r3) => match p_string(r3) {
                                    Some(p3) => match p_lit(p3.1, "}"@) {
                                        Some(r4) => Some(
                                            (crate::ipc::TranscriptEventView::ToolCall {
                                                id: p1.0,
                                                title: p2.0,
                                                status: p3.0,
                                            }, r4),
                                        ),
                                        None => None,
                                    },
                                    None => None,
                                },
                                None => None,
                            },
                            None => None,
                        },
                        None => None,
                    },
                    None => None,
                }
            } else if p_lit(r0, "tool_call_update\",\"id\":"@) is Some {
                match p_string(p_lit(r0, "tool_call_update\",\"id\":"@)->Some_0) {
                    Some(p1) => match p_lit(p1.1, ",\"status\":"@) {
                        Some(r2) => match p_opt_str(r2) {
                            Some(p2) => match p_lit(p2.1, ",\"message\":"@) {
                                Some(r3) => match p_opt_str(r3) {
                                    Some(p3) => match p_lit(p3.1, "}"@) {
                                        Some(r4) => Some(
                                            (crate::ipc::TranscriptEventView::ToolCallUpdate {
                                                id: p1.0,
                                                status: p2.0,
                                                message: p3.0,
                                            }, r4),
                                        ),
                                        None => None,
                                    },
                                    None => None,
                                },
                                None => None,
                            },
                            None => None,
                        },
                        None => None,
                    },
                    None => None,
                }
            } else if p_lit(r0, "plan\",\"entries\":"@) is Some {
                match p_plan_list(p_lit(r0, "plan\",\"entries\":"@)->Some_0) {
                    Some(p1) => match p_lit(p1.1, "}"@) {
                        Some(r2) => Some(
                            (crate::ipc::TranscriptEventView::Plan { entries: p1.0 }, r2),
                        ),
                        None => None,
                    },
                    None => None,
                }
            } else if p_lit(r0, "available_commands\",\"commands\":"@) is Some {
                match p_cmd_list(p_lit(r0, "available_commands\",\"commands\":"@)->Some_0) {
                    Some(p1) => match p_lit(p1.1, "}"@) {
                        Some(r2) => Some(
                            (crate::ipc::TranscriptEventView::AvailableCommands {
                                commands: p1.0,
                            }, r2),
                        ),
                        None => None,
                    },
                    None => None,
                }
            } else {
                None
            }
        },
        None => None,
    }
}

proof fn lemma_plan_list_consumes(s: Seq<char>)
    ensures
        p_plan_list(s) matches Some(p) ==> p.1.len() < s.len(),
{
    reveal_strlit("[");
    reveal_strlit("]");
    match p_lit(s, "["@) {
        Some(r1) => {
            lemma_plan_items_consumes(r1);
        },
        None => {},
    }
}

proof fn lemma_cmd_list_consumes(s: Seq<char>)
    ensures
        p_cmd_list(s) matches Some(p) ==> p.1.len() < s.len(),
{
    reveal_strlit("[");
    reveal_strlit("]");
    match p_lit(s, "["@) {
        Some(r1) => {
            lemma_cmd_items_consumes(r1);
        },
        None => {},
    }
}

proof fn lemma_event_consumes(s: Seq<char>)
    ensures
        p_event(s) matches Some(p) ==> p.1.len() < s.len(),
{
    reveal_strlit("{\"kind\":\"");
    match p_lit(s, "{\"kind\":\""@) {
        Some(r0) => {
            if p_lit(r0, "user_message\",\"text\":"@) is Some {
                lemma_string_consumes(p_lit(r0, "user_message\",\"text\":"@)->Some_0);
            } else if p_lit(r0, "agent_message\",\"text\":"@) is Some {
                lemma_string_consumes(p_lit(r0, "agent_message\",\"text\":"@)->Some_0);
            } else if p_lit(r0, "agent_thought\",\"text\":"@) is Some {
                lemma_string_consumes(p_lit(r0, "agent_thought\",\"text\":"@)->Some_0);
            } else if p_lit(r0, "system_message\",\"text\":"@) is Some {
                lemma_string_consumes(p_lit(r0, "system_message\",\"text\":"@)->Some_0);
            } else if p_lit(r0, "tool_call\",\"id\":"@) is Some {
                let r1 = p_lit(r0, "tool_call\",\"id\":"@)->Some_0;
                lemma_string_consumes(r1);
                match p_string(r1) {
                    Some(p1) => match p_lit(p1.1, ",\"title\":"@) {
                        Some(r2) => {
                            lemma_string_consumes(r2);
                            match p_string(r2) {
                                Some(p2) => match p_lit(p2.1, ",\"status\":"@) {
                                    Some(r3) => {
                                        lemma_string_consumes(r3);
                                    },
                                    None => {},
                                },
                                None => {},
                            }
                        },
                        None => {},
                    },
                    None => {},
                }
            } else if p_lit(r0, "tool_call_update\",\"id\":"@) is Some {
                let r1 = p_lit(r0, "tool_call_update\",\"id\":"@)->Some_0;
                lemma_string_consumes(r1);
                match p_string(r1) {
                    Some(p1) => match p_lit(p1.1, ",\"status\":"@) {
                        Some(r2) => {
                            lemma_opt_str_consumes(r2);
                            match p_opt_str(r2) {
                                Some(p2) => match p_lit(p2.1, ",\"message\":"@) {
                                    Some(r3) => {
                                        lemma_opt_str_consumes(r3);
                                    },
                                    None => {},
                                },
                                None => {},
                            }
                        },
                        None => {},
                    },
                    None => {},
                }
            } else if p_lit(r0, "plan\",\"entries\":"@) is Some {
                lemma_plan_list_consumes(p_lit(r0, "plan\",\"entries\":"@)->Some_0);
            } else if p_lit(r0, "available_commands\",\"commands\":"@) is Some {
                lemma_cmd_list_consumes(p_lit(r0, "available_commands\",\"commands\":"@)->Some_0);
            }
        },
        None => {},
    }
}

/// Law: a transcript event reads back as itself.
#[verifier::rlimit(100)]
proof fn lemma_event_round_trip(e: crate::ipc::TranscriptEventView, rest: Seq<char>)
    ensures
        p_event(enc_event(e) + rest) == Some((e, rest)),
{
    reveal_strlit("{\"kind\":\"");
    reveal_strlit("user_message\",\"text\":");
    reveal_strlit("agent_message\",\"text\":");
    reveal_strlit("agent_thought\",\"text\":");
    reveal_strlit("system_message\",\"text\":");
    reveal_strlit("tool_call\",\"id\":");
    reveal_strlit("tool_call_update\",\"id\":");
    reveal_strlit("plan\",\"entries\":");
    reveal_strlit("available_commands\",\"commands\":");
    reveal_strlit("{\"kind\":\"user_message\",\"text\":");
    reveal_strlit("{\"kind\":\"agent_message\",\"text\":");
    reveal_strlit("{\"kind\":\"agent_thought\",\"text\":");
    reveal_strlit("{\"kind\":\"system_message\",\"text\":");
    reveal_strlit("{\"kind\":\"tool_call\",\"id\":");
    reveal_strlit("{\"kind\":\"tool_call_update\",\"id\":");
    reveal_strlit("{\"kind\":\"plan\",\"entries\":");
    reveal_strlit("{\"kind\":\"available_commands\",\"commands\":");
    let t = enc_event(e) + rest;
    match e {
        crate::ipc::TranscriptEventView::UserMessage { text } => {
            let body = enc_str(text) + ("}"@ + rest);
            let r0v = "user_message\",\"text\":"@ + body;
            assert(t =~= "{\"kind\":\""@ + r0v);
            lemma_lit_round_trip("{\"kind\":\""@, r0v);
            lemma_lit_round_trip("user_message\",\"text\":"@, body);
            lemma_string_round_trip(text, "}"@ + rest);
            lemma_lit_round_trip("}"@, rest);
        },
        crate::ipc::TranscriptEventView::AgentMessage { text } => {
            let body = enc_str(text) + ("}"@ + rest);
            let r0v = "agent_message\",\"text\":"@ + body;
            assert(t =~= "{\"kind\":\""@ + r0v);
            lemma_lit_round_trip("{\"kind\":\""@, r0v);
            lemma_lit_mismatch(r0v, "user_message\",\"text\":"@, 0);
            lemma_lit_round_trip("agent_message\",\"text\":"@, body);
            lemma_string_round_trip(text, "}"@ + rest);
            lemma_lit_round_trip("}"@, rest);
        },
        crate::ipc::TranscriptEventView::AgentThought { text } => {
            let body = enc_str(text) + ("}"@ + rest);
            let r0v = "agent_thought\",\"text\":"@ + body;
            assert(t =~= "{\"kind\":\""@ + r0v);
            lemma_lit_round_trip("{\"kind\":\""@, r0v);
            lemma_lit_mismatch(r0v, "user_message\",\"text\":"@, 0);
            lemma_lit_mismatch(r0v, "agent_message\",\"text\":"@, 6);
            lemma_lit_round_trip("agent_thought\",\"text\":"@, body);
            lemma_string_round_trip(text, "}"@ + rest);
            lemma_lit_round_trip("}"@, rest);
        },
        crate::ipc::TranscriptEventView::SystemMessage { text } => {
            let body = enc_str(text) + ("}"@ + rest);
            let r0v = "system_message\",\"text\":"@ + body;
            assert(t =~= "{\"kind\":\""@ + r0v);
            lemma_lit_round_trip("{\"kind\":\""@, r0v);
            lemma_lit_mismatch(r0v, "user_message\",\"text\":"@, 0);
            lemma_lit_mismatch(r0v, "agent_message\",\"text\":"@, 0);
            lemma_lit_mismatch(r0v, "agent_thought\",\"text\":"@, 0);
            lemma_lit_round_trip("system_message\",\"text\":"@, body);
            lemma_string_round_trip(text, "}"@ + rest);
            lemma_lit_round_trip("}"@, rest);
        },
        crate::ipc::TranscriptEventView::ToolCall { id, title, status } => {
            let u3 = "}"@ + rest;
            let u2 = enc_str(status) + u3;
            let u2l = ",\"status\":"@ + u2;
            let u1 = enc_str(title) + u2l;
            let u1l = ",\"title\":"@ + u1;
            let u0 = enc_str(id) + u1l;
            let r0v = "tool_call\",\"id\":"@ + u0;
            assert(t =~= "{\"kind\":\""@ + r0v);
            lemma_lit_round_trip("{\"kind\":\""@, r0v);
            lemma_lit_mismatch(r0v, "user_message\",\"text\":"@, 0);
            lemma_lit_mismatch(r0v, "agent_message\",\"text\":"@, 0);
            lemma_lit_mismatch(r0v, "agent_thought\",\"text\":"@, 0);
            lemma_lit_mismatch(r0v, "system_message\",\"text\":"@, 0);
            lemma_lit_round_trip("tool_call\",\"id\":"@, u0);
            lemma_string_round_trip(id, u1l);
            lemma_lit_round_trip(",\"title\":"@, u1);
            lemma_string_round_trip(title, u2l);
            lemma_lit_round_trip(",\"status\":"@, u2);
            lemma_string_round_trip(status, u3);
            lemma_lit_round_trip("}"@, rest);
        },
        crate::ipc::TranscriptEventView::ToolCallUpdate { id, status, message } => {
            let u3 = "}"@ + rest;
            let u2 = enc_opt_str(message) + u3;
            let u2l = ",\"message\":"@ + u2;
            let u1 = enc_opt_str(status) + u2l;
            let u1l = ",\"status\":"@ + u1;
            let u0 = enc_str(id) + u1l;
            let r0v = "tool_call_update\",\"id\":"@ + u0;
            assert(t =~= "{\"kind\":\""@ + r0v);
            lemma_lit_round_trip("{\"kind\":\""@, r0v);
            lemma_lit_mismatch(r0v, "user_message\",\"text\":"@, 0);
            lemma_lit_mismatch(r0v, "agent_message\",\"text\":"@, 0);
            lemma_lit_mismatch(r0v, "agent_thought\",\"text\":"@, 0);
            lemma_lit_mismatch(r0v, "system_message\",\"text\":"@, 0);
            lemma_lit_mismatch(r0v, "tool_call\",\"id\":"@, 9);
            lemma_lit_round_trip("tool_call_update\",\"id\":"@, u0);
            lemma_string_round_trip(id, u1l);
            lemma_lit_round_trip(",\"status\":"@, u1);
            lemma_opt_str_round_trip(status, u2l);
            lemma_lit_round_trip(",\"message\":"@, u2);
            lemma_opt_str_round_trip(message, u3);
            lemma_lit_round_trip("}"@, rest);
        },
        crate::ipc::TranscriptEventView::Plan { entries } => {
            let u0 = enc_plan_list(entries) + ("}"@ + rest);
            let r0v = "plan\",\"entries\":"@ + u0;
            assert(t =~= "{\"kind\":\""@ + r0v);
            lemma_lit_round_trip("{\"kind\":\""@, r0v);
            lemma_lit_mismatch(r0v, "user_message\",\"text\":"@, 0);
            lemma_lit_mismatch(r0v, "agent_message\",\"text\":"@, 0);
            lemma_lit_mismatch(r0v, "agent_thought\",\"text\":"@, 0);
            lemma_lit_mismatch(r0v, "system_message\",\"text\":"@, 0);
            lemma_lit_mismatch(r0v, "tool_call\",\"id\":"@, 0);
            lemma_lit_mismatch(r0v, "tool_call_update\",\"id\":"@, 0);
            lemma_lit_round_trip("plan\",\"entries\":"@, u0);
            lemma_plan_list_round_trip(entries, "}"@ + rest);
            lemma_lit_round_trip("}"@, rest);
        },
        crate::ipc::TranscriptEventView::AvailableCommands { commands } => {
            let u0 = enc_cmd_list(commands) + ("}"@ + rest);
            let r0v = "available_commands\",\"commands\":"@ + u0;
            assert(t =~= "{\"kind\":\""@ + r0v);
            lemma_lit_round_trip("{\"kind\":\""@, r0v);
            lemma_lit_mismatch(r0v, "user_message\",\"text\":"@, 0);
            lemma_lit_mismatch(r0v, "agent_message\",\"text\":"@, 1);
            lemma_lit_mismatch(r0v, "agent_thought\",\"text\":"@, 1);
            lemma_lit_mismatch(r0v, "system_message\",\"text\":"@, 0);
            lemma_lit_mismatch(r0v, "tool_call\",\"id\":"@, 0);
            lemma_lit_mismatch(r0v, "tool_call_update\",\"id\":"@, 0);
            lemma_lit_mismatch(r0v, "plan\",\"entries\":"@, 0);
            lemma_lit_round_trip("available_commands\",\"commands\":"@, u0);
            lemma_cmd_list_round_trip(commands, "}"@ + rest);
            lemma_lit_round_trip("}"@, rest);
        },
    }
}

fn push_event(out: &mut Vec<char>, e: &crate::ipc::TranscriptEvent)
    ensures
        final(out)@ == old(out)@ + enc_event(e.deep_view()),
{
    match e {
        crate::ipc::TranscriptEvent::UserMessage { text } => {
            push_lit(out, "{\"kind\":\"user_message\",\"text\":");
            push_json_str(out, text.as_str());
            push_lit(out, "}");
            proof {
                assert(out@ =~= old(out)@ + enc_event(e.deep_view()));
            }
        },
        crate::ipc::TranscriptEvent::AgentMessage { text } => {
            push_lit(out, "{\"kind\":\"agent_message\",\"text\":");
            push_json_str(out, text.as_str());
            push_lit(out, "}");
            proof {
                assert(out@ =~= old(out)@ + enc_event(e.deep_view()));
            }
        },
        crate::ipc::TranscriptEvent::AgentThought { text } => {
            push_lit(out, "{\"kind\":\"agent_thought\",\"text\":");
            push_json_str(out, text.as_str());
            push_lit(out, "}");
            proof {
                assert(out@ =~= old(out)@ + enc_event(e.deep_view()));
            }
        },
        crate::ipc::TranscriptEvent::SystemMessage { text } => {
            push_lit(out, "{\"kind\":\"system_message\",\"text\":");
            push_json_str(out, text.as_str());
            push_lit(out, "}");
            proof {
                assert(out@ =~= old(out)@ + enc_event(e.deep_view()));
            }
        },
        crate::ipc::TranscriptEvent::ToolCall { id, title, status } => {
            push_lit(out, "{\"kind\":\"tool_call\",\"id\":");
            push_json_str(out, id.as_str());
            push_lit(out, ",\"title\":");
            push_json_str(out, title.as_str());
            push_lit(out, ",\"status\":");
            push_json_str(out, status.as_str());
            push_lit(out, "}");
            proof {
                assert(out@ =~= old(out)@ + enc_event(e.deep_view()));
            }
        },
        crate::ipc::TranscriptEvent::ToolCallUpdate { id, status, message } => {
            push_lit(out, "{\"kind\":\"tool_call_update\",\"id\":");
            push_json_str(out, id.as_str());
            push_lit(out, ",\"status\":");
            push_opt_json_str(out, status);
            push_lit(out, ",\"message\":");
            push_opt_json_str(out, message);
            push_lit(out, "}");
            proof {
                assert(out@ =~= old(out)@ + enc_event(e.deep_view()));
            }
        },
        crate::ipc::TranscriptEvent::Plan { entries } => {
            push_lit(out, "{\"kind\":\"plan\",\"entries\":");
            push_plan_list(out, entries);
            push_lit(out, "}");
            proof {
                assert(out@ =~= old(out)@ + enc_event(e.deep_view()));
            }
        },
        crate::ipc::TranscriptEvent::AvailableCommands { commands } => {
            push_lit(out, "{\"kind\":\"available_commands\",\"commands\":");
            push_cmd_list(out, commands);
            push_lit(out, "}");
            proof {
                assert(out@ =~= old(out)@ + enc_event(e.deep_view()));
            }
        },
    }
}


fn parse_event(v: &Vec<char>, i: usize) -> (r: Option<(crate::ipc::TranscriptEvent, usize)>)
    requires
        i <= v.len(),
    ensures
        (r is Some) == (p_event(v@.skip(i as int)) is Some),
        r matches Some(p) ==> i < p.1 <= v.len() && p_event(v@.skip(i as int)) == Some(
            (p.0.deep_view(), v@.skip(p.1 as int)),
        ),
{
    proof {
        reveal_strlit("{\"kind\":\"");
    }
    match expect_lit(v, i, "{\"kind\":\"") {
        None => None,
        Some(j0) => {
            if let Some(j1) = expect_lit(v, j0, "user_message\",\"text\":") {
                match parse_json_str(v, j1) {
                    Some((text, j2)) => match expect_lit(v, j2, "}") {
                        Some(j3) => Some((crate::ipc::TranscriptEvent::UserMessage { text }, j3)),
                        None => None,
                    },
                    None => None,
                }
            } else if let Some(j1) = expect_lit(v, j0, "agent_message\",\"text\":") {
                match parse_json_str(v, j1) {
                    Some((text, j2)) => match expect_lit(v, j2, "}") {
                        Some(j3) => Some((crate::ipc::TranscriptEvent::AgentMessage { text }, j3)),
                        None => None,
                    },
                    None => None,
                }
            } else if let Some(j1) = expect_lit(v, j0, "agent_thought\",\"text\":") {
                match parse_json_str(v, j1) {
                    Some((text, j2)) => match expect_lit(v, j2, "}") {
                        Some(j3) => Some((crate::ipc::TranscriptEvent::AgentThought { text }, j3)),
                        None => None,
                    },
                    None => None,
                }
            } else if let Some(j1) = expect_lit(v, j0, "system_message\",\"text\":") {
                match parse_json_str(v, j1) {
                    Some((text, j2)) => match expect_lit(v, j2, "}") {
                        Some(j3) => Some((crate::ipc::TranscriptEvent::SystemMessage { text }, j3)),
                        None => None,
                    },
                    None => None,
                }
            } else if let Some(j1) = expect_lit(v, j0, "tool_call\",\"id\":") {
                match parse_json_str(v, j1) {
                    None => None,
                    Some((id, j2)) => match expect_lit(v, j2, ",\"title\":") {
                        None => None,
                        Some(j3) => match parse_json_str(v, j3) {
                            None => None,
                            Some((title, j4)) => match expect_lit(v, j4, ",\"status\":") {
                                None => None,
                                Some(j5) => match parse_json_str(v, j5) {
                                    None => None,
                                    Some((status, j6)) => match expect_lit(v, j6, "}") {
                                        None => None,
                                        Some(j7) => Some(
                                            (crate::ipc::TranscriptEvent::ToolCall {
                                                id,
                                                title,
                                                status,
                                            }, j7),
                                        ),
                                    },
                                },
                            },
                        },
                    },
                }
            } else if let Some(j1) = expect_lit(v, j0, "tool_call_update\",\"id\":") {
                match parse_json_str(v, j1) {
                    None => None,
                    Some((id, j2)) => match expect_lit(v, j2, ",\"status\":") {
                        None => None,
                        Some(j3) => match parse_opt_str(v, j3) {
                            None => None,
                            Some((status, j4)) => match expect_lit(v, j4, ",\"message\":") {
                                None => None,
                                Some(j5) => match parse_opt_str(v, j5) {
                                    None => None,
                                    Some((message, j6)) => match expect_lit(v, j6, "}") {
                                        None => None,
                                        Some(j7) => Some(
                                            (crate::ipc::TranscriptEvent::ToolCallUpdate {
                                                id,
                                                status,
                                                message,
                                            }, j7),
                                        ),
                                    },
                                },
                            },
                        },
                    },
                }
            } else if let Some(j1) = expect_lit(v, j0, "plan\",\"entries\":") {
                match parse_plan_list(v, j1) {
                    None => None,
                    Some((entries, j2)) => match expect_lit(v, j2, "}") {
                        None => None,
                        Some(j3) => Some((crate::ipc::TranscriptEvent::Plan { entries }, j3)),
                    },
                }
            } else if let Some(j1) = expect_lit(v, j0, "available_commands\",\"commands\":") {
                match parse_cmd_list(v, j1) {
                    None => None,
                    Some((commands, j2)) => match expect_lit(v, j2, "}") {
                        None => None,
                        Some(j3) => Some(
                            (crate::ipc::TranscriptEvent::AvailableCommands { commands }, j3),
                        ),
                    },
                }
            } else {
                None
            }
        },
    }
}

/// The canonical wire form of a list of transcript events.
pub open spec fn enc_event_items(xs: Seq<crate::ipc::TranscriptEventView>) -> Seq<char>
    decreases xs.len(),
{
    if xs.len() <= 1 {
        enc_event(xs[0]) + "]"@
    } else {
        enc_event(xs[0]) + ","@ + enc_event_items(xs.skip(1))
    }
}

/// The canonical wire form of a transcript array.
pub open spec fn enc_event_list(xs: Seq<crate::ipc::TranscriptEventView>) -> Seq<char> {
    if xs.len() == 0 {
        "[]"@
    } else {
        "["@ + enc_event_items(xs)
    }
}

/// Canonical parse of the items of a non-empty transcript array.
pub open spec fn p_event_items(s: Seq<char>) -> Option<
    (Seq<crate::ipc::TranscriptEventView>, Seq<char>),
>
    decreases s.len(),
        via p_event_items_dec
{
    match p_event(s) {
        Some(p) => {
            if p_lit(p.1, ","@) is Some {
                match p_event_items(p_lit(p.1, ","@)->Some_0) {
                    Some(q) => Some((seq![p.0] + q.0, q.1)),
                    None => None,
                }
            } else if p_lit(p.1, "]"@) is Some {
                Some((seq![p.0], p_lit(p.1, "]"@)->Some_0))
            } else {
                None
            }
        },
        None => None,
    }
}

#[via_fn]
proof fn p_event_items_dec(s: Seq<char>) {
    lemma_event_consumes(s);
}

/// Canonical parse of a transcript array.
pub open spec fn p_event_list(s: Seq<char>) -> Option<
    (Seq<crate::ipc::TranscriptEventView>, Seq<char>),
> {
    match p_lit(s, "["@) {
        Some(r1) => {
            if p_lit(r1, "]"@) is Some {
                Some((Seq::<crate::ipc::TranscriptEventView>::empty(), p_lit(r1, "]"@)->Some_0))
            } else {
                p_event_items(r1)
            }
        },
        None => None,
    }
}

/// Law: a non-empty transcript array's items read back as themselves.
#[verifier::rlimit(100)]
proof fn lemma_event_items_round_trip(xs: Seq<crate::ipc::TranscriptEventView>, rest: Seq<char>)
    requires
        xs.len() >= 1,
    ensures
        p_event_items(enc_event_items(xs) + rest) == Some((xs, rest)),
    decreases xs.len(),
{
    reveal_strlit(",");
    reveal_strlit("]");
    if xs.len() == 1 {
        let t = enc_event_items(xs) + rest;
        assert(t =~= enc_event(xs[0]) + ("]"@ + rest));
        lemma_event_round_trip(xs[0], "]"@ + rest);
        assert(("]"@ + rest)[0] == ']');
        lemma_lit_mismatch("]"@ + rest, ","@, 0);
        lemma_lit_round_trip("]"@, rest);
        assert(("]"@ + rest).skip(1) =~= rest);
        assert(seq![xs[0]] =~= xs);
    } else {
        let t = enc_event_items(xs) + rest;
        let tail = ","@ + (enc_event_items(xs.skip(1)) + rest);
        assert(t =~= enc_event(xs[0]) + tail);
        lemma_event_round_trip(xs[0], tail);
        assert(tail[0] == ',');
        lemma_lit_round_trip(","@, enc_event_items(xs.skip(1)) + rest);
        assert(tail.skip(1) =~= enc_event_items(xs.skip(1)) + rest);
        lemma_event_items_round_trip(xs.skip(1), rest);
        assert(seq![xs[0]] + xs.skip(1) =~= xs);
    }
}

/// Law: a transcript array reads back as itself.
pub proof fn lemma_event_list_round_trip(xs: Seq<crate::ipc::TranscriptEventView>, rest: Seq<char>)
    ensures
        p_event_list(enc_event_list(xs) + rest) == Some((xs, rest)),
{
    reveal_strlit("[");
    reveal_strlit("]");
    reveal_strlit("[]");
    if xs.len() == 0 {
        let t = enc_event_list(xs) + rest;
        assert(t =~= "["@ + ("]"@ + rest));
        lemma_lit_round_trip("["@, "]"@ + rest);
        assert(t.skip(1) =~= "]"@ + rest);
        lemma_lit_round_trip("]"@, rest);
    } else {
        let t = enc_event_list(xs) + rest;
        let t1 = enc_event_items(xs) + rest;
        assert(t =~= "["@ + t1);
        lemma_lit_round_trip("["@, t1);
        assert(t.skip(1) =~= t1);
        match xs[0] {
            crate::ipc::TranscriptEventView::UserMessage { text } => {
                reveal_strlit("{\"kind\":\"user_message\",\"text\":");
                assert(t1[0] == '{');
            },
            crate::ipc::TranscriptEventView::AgentMessage { text } => {
                reveal_strlit("{\"kind\":\"agent_message\",\"text\":");
                assert(t1[0] == '{');
            },
            crate::ipc::TranscriptEventView::AgentThought { text } => {
                reveal_strlit("{\"kind\":\"agent_thought\",\"text\":");
                assert(t1[0] == '{');
            },
            crate::ipc::TranscriptEventView::ToolCall { id, title, status } => {
                reveal_strlit("{\"kind\":\"tool_call\",\"id\":");
                assert(t1[0] == '{');
            },
            crate::ipc::TranscriptEventView::ToolCallUpdate { id, status, message } => {
                reveal_strlit("{\"kind\":\"tool_call_update\",\"id\":");
                assert(t1[0] == '{');
            },
            crate::ipc::TranscriptEventView::Plan { entries } => {
                reveal_strlit("{\"kind\":\"plan\",\"entries\":");
                assert(t1[0] == '{');
            },
            crate::ipc::TranscriptEventView::AvailableCommands { commands } => {
                reveal_strlit("{\"kind\":\"available_commands\",\"commands\":");
                assert(t1[0] == '{');
            },
            crate::ipc::TranscriptEventView::SystemMessage { text } => {
                reveal_strlit("{\"kind\":\"system_message\",\"text\":");
                assert(t1[0] == '{');
            },
        }
        lemma_lit_mismatch(t1, "]"@, 0);
        lemma_event_items_round_trip(xs, rest);
    }
}

fn push_event_list(out: &mut Vec<char>, xs: &Vec<crate::ipc::TranscriptEvent>)
    ensures
        final(out)@ == old(out)@ + enc_event_list(xs.deep_view()),
{
    if xs.len() == 0 {
        push_lit(out, "[]");
        proof {
            assert(out@ =~= old(out)@ + enc_event_list(xs.deep_view()));
        }
    } else {
        push_lit(out, "[");
        push_event_items(out, xs, 0);
        proof {
            assert(xs.deep_view().skip(0) =~= xs.deep_view());
            assert(out@ =~= old(out)@ + enc_event_list(xs.deep_view()));
        }
    }
}

fn push_event_items(out: &mut Vec<char>, xs: &Vec<crate::ipc::TranscriptEvent>, i: usize)
    requires
        i < xs.len(),
    ensures
        final(out)@ == old(out)@ + enc_event_items(xs.deep_view().skip(i as int)),
    decreases xs.len() - i,
{
    let ghost tail = xs.deep_view().skip(i as int);
    proof {
        assert(tail[0] == xs.deep_view()[i as int]);
        assert(xs.deep_view()[i as int] == xs@[i as int].deep_view());
    }
    push_event(out, &xs[i]);
    if i + 1 == xs.len() {
        push_lit(out, "]");
        proof {
            assert(tail.len() == 1);
            assert(out@ =~= old(out)@ + enc_event_items(tail));
        }
    } else {
        push_lit(out, ",");
        push_event_items(out, xs, i + 1);
        proof {
            assert(tail.skip(1) =~= xs.deep_view().skip(i as int + 1));
            assert(out@ =~= old(out)@ + enc_event_items(tail));
        }
    }
}

fn parse_event_items(v: &Vec<char>, i: usize) -> (r: Option<
    (Vec<crate::ipc::TranscriptEvent>, usize),
>)
    requires
        i <= v.len(),
    ensures
        (r is Some) == (p_event_items(v@.skip(i as int)) is Some),
        r matches Some(p) ==> i < p.1 <= v.len() && p_event_items(v@.skip(i as int)) == Some(
            (p.0.deep_view(), v@.skip(p.1 as int)),
        ),
    decreases v.len() - i,
{
    match parse_event(v, i) {
        None => None,
        Some((x, j)) => {
            if let Some(j2) = expect_lit(v, j, ",") {
                proof {
                    reveal_strlit(",");
                }
                match parse_event_items(v, j2) {
                    Some((mut items, k)) => {
                        let ghost prevv = items@;
                        let ghost prev = items.deep_view();
                        items.insert(0, x);
                        proof {
                            assert forall|m: int|
                                0 <= m < items.deep_view().len() implies items.deep_view()[m] == (
                            seq![x.deep_view()] + prev)[m] by {
                                assert(items.deep_view()[m] == items@[m].deep_view());
                                if m > 0 {
                                    assert(items@[m] == prevv[m - 1]);
                                    assert(prev[m - 1] == prevv[m - 1].deep_view());
                                }
                            }
                            assert(items.deep_view() =~= seq![x.deep_view()] + prev);
                        }
                        Some((items, k))
                    },
                    None => None,
                }
            } else if let Some(j2) = expect_lit(v, j, "]") {
                let mut items: Vec<crate::ipc::TranscriptEvent> = Vec::new();
                items.push(x);
                proof {
                    assert(items.deep_view() =~= seq![x.deep_view()]);
                }
                Some((items, j2))
            } else {
                None
            }
        },
    }
}

fn parse_event_list(v: &Vec<char>, i: usize) -> (r: Option<
    (Vec<crate::ipc::TranscriptEvent>, usize),
>)
    requires
        i <= v.len(),
    ensures
        (r is Some) == (p_event_list(v@.skip(i as int)) is Some),
        r matches Some(p) ==> i < p.1 <= v.len() && p_event_list(v@.skip(i as int)) == Some(
            (p.0.deep_view(), v@.skip(p.1 as int)),
        ),
{
    match expect_lit(v, i, "[") {
        None => None,
        Some(j) => {
            proof {
                reveal_strlit("[");
                reveal_strlit("]");
            }
            if let Some(j2) = expect_lit(v, j, "]") {
                let items: Vec<crate::ipc::TranscriptEvent> = Vec::new();
                proof {
                    assert(items.deep_view() =~= Seq::<crate::ipc::TranscriptEventView>::empty());
                }
                Some((items, j2))
            } else {
                parse_event_items(v, j)
            }
        },
    }
}


/// The canonical wire form of a prompt result.
pub open spec fn enc_result(r: crate::ipc::PromptResultPayloadView) -> Seq<char> {
    "{\"stop_reason\":"@ + enc_stop(r.stop_reason) + ",\"user_prompt\":"@ + enc_str(r.user_prompt)
        + ",\"context\":"@ + enc_str_list(r.context) + ",\"transcript\":"@ + enc_event_list(
        r.transcript,
    ) + "}"@
}

/// Canonical parse of a prompt result.
pub open spec fn p_result(s: Seq<char>) -> Option<
    (crate::ipc::PromptResultPayloadView, Seq<char>),
> {
    match p_lit(s, "{\"stop_reason\":"@) {
        Some(r1) => match p_stop(r1) {
            Some(p1) => match p_lit(p1.1, ",\"user_prompt\":"@) {
                Some(r2) => match p_string(r2) {
                    Some(p2) => match p_lit(p2.1, ",\"context\":"@) {
                        Some(r3) => match p_str_list(r3) {
                            Some(p3) => match p_lit(p3.1, ",\"transcript\":"@) {
                                Some(r4) => match p_event_list(r4) {
                                    Some(p4) => match p_lit(p4.1, "}"@) {
                                        Some(r5) => Some(
                                            (crate::ipc::PromptResultPayloadView {
                                                stop_reason: p1.0,
                                                user_prompt: p2.0,
                                                context: p3.0,
                                                transcript: p4.0,
                                            }, r5),
                                        ),
                                        None => None,
                                    },
                                    None => None,
                                },
                                None => None,
                            },
                            None => None,
                        },
                        None => None,
                    },
                    None => None,
                },
                None => None,
            },
            None => None,
        },
        None => None,
    }
}

/// Law: a prompt result reads back as itself.
#[verifier::rlimit(80)]
pub proof fn lemma_result_round_trip(r: crate::ipc::PromptResultPayloadView, rest: Seq<char>)
    ensures
        p_result(enc_result(r) + rest) == Some((r, rest)),
{
    let t = enc_result(r) + rest;
    let u4 = "}"@ + rest;
    let u3 = enc_event_list(r.transcript) + u4;
    let u3l = ",\"transcript\":"@ + u3;
    let u2 = enc_str_list(r.context) + u3l;
    let u2l = ",\"context\":"@ + u2;
    let u1 = enc_str(r.user_prompt) + u2l;
    let u1l = ",\"user_prompt\":"@ + u1;
    let u0 = enc_stop(r.stop_reason) + u1l;
    assert(t =~= "{\"stop_reason\":"@ + u0);
    lemma_lit_round_trip("{\"stop_reason\":"@, u0);
    lemma_stop_round_trip(r.stop_reason, u1l);
    lemma_lit_round_trip(",\"user_prompt\":"@, u1);
    lemma_string_round_trip(r.user_prompt, u2l);
    lemma_lit_round_trip(",\"context\":"@, u2);
    lemma_str_list_round_trip(r.context, u3l);
    lemma_lit_round_trip(",\"transcript\":"@, u3);
    lemma_event_list_round_trip(r.transcript, u4);
    lemma_lit_round_trip("}"@, rest);
}

fn push_result(out: &mut Vec<char>, r: &crate::ipc::PromptResultPayload)
    ensures
        final(out)@ == old(out)@ + enc_result(r.deep_view()),
{
    push_lit(out, "{\"stop_reason\":");
    push_stop(out, &r.stop_reason);
    push_lit(out, ",\"user_prompt\":");
    push_json_str(out, r.user_prompt.as_str());
    push_lit(out, ",\"context\":");
    push_str_list(out, &r.context);
    push_lit(out, ",\"transcript\":");
    push_event_list(out, &r.transcript);
    push_lit(out, "}");
    proof {
        assert(out@ =~= old(out)@ + enc_result(r.deep_view()));
    }
}

fn parse_result(v: &Vec<char>, i: usize) -> (r: Option<(crate::ipc::PromptResultPayload, usize)>)
    requires
        i <= v.len(),
    ensures
        (r is Some) == (p_result(v@.skip(i as int)) is Some),
        r matches Some(p) ==> i <= p.1 <= v.len() && p_result(v@.skip(i as int)) == Some(
            (p.0.deep_view(), v@.skip(p.1 as int)),
        ),
{
    match expect_lit(v, i, "{\"stop_reason\":") {
        None => None,
        Some(j1) => match parse_stop(v, j1) {
            None => None,
            Some((stop_reason, j2)) => match expect_lit(v, j2, ",\"user_prompt\":") {
                None => None,
                Some(j3) => match parse_json_str(v, j3) {
                    None => None,
                    Some((user_prompt, j4)) => match expect_lit(v, j4, ",\"context\":") {
                        None => None,
                        Some(j5) => match parse_str_list(v, j5) {
                            None => None,
                            Some((context, j6)) => match expect_lit(v, j6, ",\"transcript\":") {
                                None => None,
                                Some(j7) => match parse_event_list(v, j7) {
                                    None => None,
                                    Some((transcript, j8)) => match expect_lit(v, j8, "}") {
                                        None => None,
                                        Some(j9) => {
                                            let result = crate::ipc::PromptResultPayload {
                                                stop_reason,
                                                user_prompt,
                                                context,
                                                transcript,
                                            };
                                            proof {
                                                assert(result.deep_view()
                                                    =~= crate::ipc::PromptResultPayloadView {
                                                    stop_reason,
                                                    user_prompt: user_prompt@,
                                                    context: context.deep_view(),
                                                    transcript: transcript.deep_view(),
                                                });
                                            }
                                            Some((result, j9))
                                        },
                                    },
                                },
                            },
                        },
                    },
                },
            },
        },
    }
}

/// The canonical wire form of a daemon status record.
pub open spec fn enc_status(t: crate::ipc::DaemonStatusView) -> Seq<char> {
    "{\"session_id\":"@ + enc_opt_str(t.session_id) + ",\"socket_path\":"@ + enc_str(t.socket_path)
        + ",\"agent_command\":"@ + enc_str_list(t.agent_command) + ",\"agent_pid\":"@
        + enc_opt_u32(t.agent_pid) + ",\"running\":"@ + enc_bool(t.running) + "}"@
}

/// Canonical parse of a daemon status record.
pub open spec fn p_status(s: Seq<char>) -> Option<(crate::ipc::DaemonStatusView, Seq<char>)> {
    match p_lit(s, "{\"session_id\":"@) {
        Some(r1) => match p_opt_str(r1) {
            Some(p1) => match p_lit(p1.1, ",\"socket_path\":"@) {
                Some(r2) => match p_string(r2) {
                    Some(p2) => match p_lit(p2.1, ",\"agent_command\":"@) {
                        Some(r3) => match p_str_list(r3) {
                            Some(p3) => match p_lit(p3.1, ",\"agent_pid\":"@) {
                                Some(r4) => match p_opt_u32(r4) {
                                    Some(p4) => match p_lit(p4.1, ",\"running\":"@) {
                                        Some(r5) => match p_bool(r5) {
                                            Some(p5) => match p_lit(p5.1, "}"@) {
                                                Some(r6) => Some(
                                                    (crate::ipc::DaemonStatusView {
                                                        session_id: p1.0,
                                                        socket_path: p2.0,
                                                        agent_command: p3.0,
                                                        agent_pid: p4.0,
                                                        running: p5.0,
                                                    }, r6),
                                                ),
                                                None => None,
                                            },
                                            None => None,
                                        },
                                        None => None,
                                    },
                                    None => None,
                                },
                                None => None,
                            },
                            None => None,
                        },
                        None => None,
                    },
                    None => None,
                },
                None => None,
            },
            None => None,
        },
        None => None,
    }
}

/// Law: a status record reads back as itself.
#[verifier::rlimit(80)]
pub proof fn lemma_status_round_trip(t0: crate::ipc::DaemonStatusView, rest: Seq<char>)
    ensures
        p_status(enc_status(t0) + rest) == Some((t0, rest)),
{
    reveal_strlit(",\"running\":");
    let t = enc_status(t0) + rest;
    let u5 = "}"@ + rest;
    let u4 = enc_bool(t0.running) + u5;
    let u4l = ",\"running\":"@ + u4;
    let u3 = enc_opt_u32(t0.agent_pid) + u4l;
    let u3l = ",\"agent_pid\":"@ + u3;
    let u2 = enc_str_list(t0.agent_command) + u3l;
    let u2l = ",\"agent_command\":"@ + u2;
    let u1 = enc_str(t0.socket_path) + u2l;
    let u1l = ",\"socket_path\":"@ + u1;
    let u0 = enc_opt_str(t0.session_id) + u1l;
    assert(t =~= "{\"session_id\":"@ + u0);
    lemma_lit_round_trip("{\"session_id\":"@, u0);
    lemma_opt_str_round_trip(t0.session_id, u1l);
    lemma_lit_round_trip(",\"socket_path\":"@, u1);
    lemma_string_round_trip(t0.socket_path, u2l);
    lemma_lit_round_trip(",\"agent_command\":"@, u2);
    lemma_str_list_round_trip(t0.agent_command, u3l);
    lemma_lit_round_trip(",\"agent_pid\":"@, u3);
    assert(u4l[0] == ',');
    assert(!is_digit(u4l[0]));
    lemma_opt_u32_round_trip(t0.agent_pid, u4l);
    lemma_lit_round_trip(",\"running\":"@, u4);
    lemma_bool_round_trip(t0.running, u5);
    lemma_lit_round_trip("}"@, rest);
}

fn push_status(out: &mut Vec<char>, t: &crate::ipc::DaemonStatus)
    ensures
        final(out)@ == old(out)@ + enc_status(t.deep_view()),
{
    push_lit(out, "{\"session_id\":");
    push_opt_json_str(out, &t.session_id);
    push_lit(out, ",\"socket_path\":");
    push_json_str(out, t.socket_path.as_str());
    push_lit(out, ",\"agent_command\":");
    push_str_list(out, &t.agent_command);
    push_lit(out, ",\"agent_pid\":");
    push_opt_u32(out, &t.agent_pid);
    push_lit(out, ",\"running\":");
    push_bool(out, t.running);
    push_lit(out, "}");
    proof {
        assert(out@ =~= old(out)@ + enc_status(t.deep_view()));
    }
}

fn parse_status(v: &Vec<char>, i: usize) -> (r: Option<(crate::ipc::DaemonStatus, usize)>)
    requires
        i <= v.len(),
    ensures
        (r is Some) == (p_status(v@.skip(i as int)) is Some),
        r matches Some(p) ==> i <= p.1 <= v.len() && p_status(v@.skip(i as int)) == Some(
            (p.0.deep_view(), v@.skip(p.1 as int)),
        ),
{
    match expect_lit(v, i, "{\"session_id\":") {
        None => None,
        Some(j1) => match parse_opt_str(v, j1) {
            None => None,
            Some((session_id, j2)) => match expect_lit(v, j2, ",\"socket_path\":") {
                None => None,
                Some(j3) => match parse_json_str(v, j3) {
                    None => None,
                    Some((socket_path, j4)) => match expect_lit(v, j4, ",\"agent_command\":") {
                        None => None,
                        Some(j5) => match parse_str_list(v, j5) {
                            None => None,
                            Some((agent_command, j6)) => match expect_lit(v, j6, ",\"agent_pid\":") {
                                None => None,
                                Some(j7) => match parse_opt_u32(v, j7) {
                                    None => None,
                                    Some((agent_pid, j8)) => match expect_lit(
                                        v,
                                        j8,
                                        ",\"running\":",
                                    ) {
                                        None => None,
                                        Some(j9) => match parse_bool(v, j9) {
                                            None => None,
                                            Some((running, j10)) => match expect_lit(v, j10, "}") {
                                                None => None,
                                                Some(j11) => {
                                                    let status = crate::ipc::DaemonStatus {
                                                        session_id,
                                                        socket_path,
                                                        agent_command,
                                                        agent_pid,
                                                        running,
                                                    };
                                                    proof {
                                                        assert(status.deep_view()
                                                            =~= crate::ipc::DaemonStatusView {
                                                            session_id: session_id.deep_view(),
                                                            socket_path: socket_path@,
                                                            agent_command: agent_command.deep_view(),
                                                            agent_pid,
                                                            running,
                                                        });
                                                    }
                                                    Some((status, j11))
                                                },
                                            },
                                        },
                                    },
                                },
                            },
                        },
                    },
                },
            },
        },
    }
}

/// Encodes a prompt result alone as one JSON value, as the client's JSON
/// output mode prints it.
pub fn encode_result_json(r: &crate::ipc::PromptResultPayload) -> (out: String)
    ensures
        out@ == enc_result(r.deep_view()),
{
    let mut buf: Vec<char> = Vec::new();
    push_result(&mut buf, r);
    proof {
        assert(buf@ =~= enc_result(r.deep_view()));
    }
    string_of_chars(&buf)
}

/// Encodes a status record alone as one JSON value, as the client's JSON
/// status output prints it.
pub fn encode_status_json(t: &crate::ipc::DaemonStatus) -> (out: String)
    ensures
        out@ == enc_status(t.deep_view()),
{
    let mut buf: Vec<char> = Vec::new();
    push_status(&mut buf, t);
    proof {
        assert(buf@ =~= enc_status(t.deep_view()));
    }
    string_of_chars(&buf)
}

/// The canonical wire line of a request.
pub open spec fn enc_req(r: crate::ipc::DaemonRequestView) -> Seq<char> {
    match r {
        crate::ipc::DaemonRequestView::Prompt { payload } => "{\"type\":\"prompt\",\"prompt\":"@
            + enc_str(payload.prompt) + ",\"context\":"@ + enc_str_list(payload.context) + "}"@,
        crate::ipc::DaemonRequestView::Status => "{\"type\":\"status\"}"@,
        crate::ipc::DaemonRequestView::Shutdown => "{\"type\":\"shutdown\"}"@,
    }
}

/// Canonical parse of a request.
pub open spec fn p_req(s: Seq<char>) -> Option<(crate::ipc::DaemonRequestView, Seq<char>)> {
    match p_lit(s, "{\"type\":\""@) {
        Some(r0) => {
            if p_lit(r0, "prompt\",\"prompt\":"@) is Some {
                match p_string(p_lit(r0, "prompt\",\"prompt\":"@)->Some_0) {
                    Some(p1) => match p_lit(p1.1, ",\"context\":"@) {
                        Some(r2) => match p_str_list(r2) {
                            Some(p2) => match p_lit(p2.1, "}"@) {
                                Some(r3) => Some(
                                    (crate::ipc::DaemonRequestView::Prompt {
                                        payload: crate::ipc::PromptPayloadView {
                                            prompt: p1.0,
                                            context: p2.0,
                                        },
                                    }, r3),
                                ),
                                None => None,
                            },
                            None => None,
                        },
                        None => None,
                    },
                    None => None,
                }
            } else if p_lit(r0, "status\"}"@) is Some {
                Some((crate::ipc::DaemonRequestView::Status, p_lit(r0, "status\"}"@)->Some_0))
            } else if p_lit(r0, "shutdown\"}"@) is Some {
                Some((crate::ipc::DaemonRequestView::Shutdown, p_lit(r0, "shutdown\"}"@)->Some_0))
            } else {
                None
            }
        },
        None => None,
    }
}

/// Law: a request line reads back as itself.
pub proof fn lemma_req_round_trip(r: crate::ipc::DaemonRequestView, rest: Seq<char>)
    ensures
        p_req(enc_req(r) + rest) == Some((r, rest)),
{
    reveal_strlit("{\"type\":\"");
    reveal_strlit("prompt\",\"prompt\":");
    reveal_strlit("status\"}");
    reveal_strlit("shutdown\"}");
    reveal_strlit("{\"type\":\"prompt\",\"prompt\":");
    reveal_strlit("{\"type\":\"status\"}");
    reveal_strlit("{\"type\":\"shutdown\"}");
    let t = enc_req(r) + rest;
    match r {
        crate::ipc::DaemonRequestView::Prompt { payload } => {
            let u2 = "}"@ + rest;
            let u1 = enc_str_list(payload.context) + u2;
            let u1l = ",\"context\":"@ + u1;
            let u0 = enc_str(payload.prompt) + u1l;
            let r0v = "prompt\",\"prompt\":"@ + u0;
            assert(t =~= "{\"type\":\""@ + r0v);
            lemma_lit_round_trip("{\"type\":\""@, r0v);
            lemma_lit_round_trip("prompt\",\"prompt\":"@, u0);
            lemma_string_round_trip(payload.prompt, u1l);
            lemma_lit_round_trip(",\"context\":"@, u1);
            lemma_str_list_round_trip(payload.context, u2);
            lemma_lit_round_trip("}"@, rest);
        },
        crate::ipc::DaemonRequestView::Status => {
            let r0v = "status\"}"@ + rest;
            assert(t =~= "{\"type\":\""@ + r0v);
            lemma_lit_round_trip("{\"type\":\""@, r0v);
            lemma_lit_mismatch(r0v, "prompt\",\"prompt\":"@, 0);
            lemma_lit_round_trip("status\"}"@, rest);
        },
        crate::ipc::DaemonRequestView::Shutdown => {
            let r0v = "shutdown\"}"@ + rest;
            assert(t =~= "{\"type\":\""@ + r0v);
            lemma_lit_round_trip("{\"type\":\""@, r0v);
            lemma_lit_mismatch(r0v, "prompt\",\"prompt\":"@, 0);
            lemma_lit_mismatch(r0v, "status\"}"@, 1);
            lemma_lit_round_trip("shutdown\"}"@, rest);
        },
    }
}

/// The canonical wire line of a response.
pub open spec fn enc_resp(r: crate::ipc::DaemonResponseView) -> Seq<char> {
    match r {
        crate::ipc::DaemonResponseView::Prompt { result } => "{\"type\":\"prompt\",\"result\":"@
            + enc_result(result) + "}"@,
        crate::ipc::DaemonResponseView::Status { status } => "{\"type\":\"status\",\"status\":"@
            + enc_status(status) + "}"@,
        crate::ipc::DaemonResponseView::Acknowledged => "{\"type\":\"ok\"}"@,
        crate::ipc::DaemonResponseView::Error { message } => "{\"type\":\"error\",\"message\":"@
            + enc_str(message) + "}"@,
    }
}

/// Canonical parse of a response.
pub open spec fn p_resp(s: Seq<char>) -> Option<(crate::ipc::DaemonResponseView, Seq<char>)> {
    match p_lit(s, "{\"type\":\""@) {
        Some(r0) => {
            if p_lit(r0, "prompt\",\"result\":"@) is Some {
                match p_result(p_lit(r0, "prompt\",\"result\":"@)->Some_0) {
                    Some(p1) => match p_lit(p1.1, "}"@) {
                        Some(r2) => Some(
                            (crate::ipc::DaemonResponseView::Prompt { result: p1.0 }, r2),
                        ),
                        None => None,
                    },
                    None => None,
                }
            } else if p_lit(r0, "status\",\"status\":"@) is Some {
                match p_status(p_lit(r0, "status\",\"status\":"@)->Some_0) {
                    Some(p1) => match p_lit(p1.1, "}"@) {
                        Some(r2) => Some(
                            (crate::ipc::DaemonResponseView::Status { status: p1.0 }, r2),
                        ),
                        None => None,
                    },
                    None => None,
                }
            } else if p_lit(r0, "ok\"}"@) is Some {
                Some((crate::ipc::DaemonResponseView::Acknowledged, p_lit(r0, "ok\"}"@)->Some_0))
            } else if p_lit(r0, "error\",\"message\":"@) is Some {
                match p_string(p_lit(r0, "error\",\"message\":"@)->Some_0) {
                    Some(p1) => match p_lit(p1.1, "}"@) {
                        Some(r2) => Some(
                            (crate::ipc::DaemonResponseView::Error { message: p1.0 }, r2),
                        ),
                        None => None,
                    },
                    None => None,
                }
            } else {
                None
            }
        },
        None => None,
    }
}

/// Law: a response line reads back as itself.
pub proof fn lemma_resp_round_trip(r: crate::ipc::DaemonResponseView, rest: Seq<char>)
    ensures
        p_resp(enc_resp(r) + rest) == Some((r, rest)),
{
    reveal_strlit("{\"type\":\"");
    reveal_strlit("prompt\",\"result\":");
    reveal_strlit("status\",\"status\":");
    reveal_strlit("ok\"}");
    reveal_strlit("error\",\"message\":");
    reveal_strlit("{\"type\":\"prompt\",\"result\":");
    reveal_strlit("{\"type\":\"status\",\"status\":");
    reveal_strlit("{\"type\":\"ok\"}");
    reveal_strlit("{\"type\":\"error\",\"message\":");
    let t = enc_resp(r) + rest;
    match r {
        crate::ipc::DaemonResponseView::Prompt { result } => {
            let u0 = enc_result(result) + ("}"@ + rest);
            let r0v = "prompt\",\"result\":"@ + u0;
            assert(t =~= "{\"type\":\""@ + r0v);
            lemma_lit_round_trip("{\"type\":\""@, r0v);
            lemma_lit_round_trip("prompt\",\"result\":"@, u0);
            lemma_result_round_trip(result, "}"@ + rest);
            lemma_lit_round_trip("}"@, rest);
        },
        crate::ipc::DaemonResponseView::Status { status } => {
            let u0 = enc_status(status) + ("}"@ + rest);
            let r0v = "status\",\"status\":"@ + u0;
            assert(t =~= "{\"type\":\""@ + r0v);
            lemma_lit_round_trip("{\"type\":\""@, r0v);
            lemma_lit_mismatch(r0v, "prompt\",\"result\":"@, 0);
            lemma_lit_round_trip("status\",\"status\":"@, u0);
            lemma_status_round_trip(status, "}"@ + rest);
            lemma_lit_round_trip("}"@, rest);
        },
        crate::ipc::DaemonResponseView::Acknowledged => {
            let r0v = "ok\"}"@ + rest;
            assert(t =~= "{\"type\":\""@ + r0v);
            lemma_lit_round_trip("{\"type\":\""@, r0v);
            lemma_lit_mismatch(r0v, "prompt\",\"result\":"@, 0);
            lemma_lit_mismatch(r0v, "status\",\"status\":"@, 0);
            lemma_lit_round_trip("ok\"}"@, rest);
        },
        crate::ipc::DaemonResponseView::Error { message } => {
            let u0 = enc_str(message) + ("}"@ + rest);
            let r0v = "error\",\"message\":"@ + u0;
            assert(t =~= "{\"type\":\""@ + r0v);
            lemma_lit_round_trip("{\"type\":\""@, r0v);
            lemma_lit_mismatch(r0v, "prompt\",\"result\":"@, 0);
            lemma_lit_mismatch(r0v, "status\",\"status\":"@, 0);
            lemma_lit_mismatch(r0v, "ok\"}"@, 0);
            lemma_lit_round_trip("error\",\"message\":"@, u0);
            lemma_string_round_trip(message, "}"@ + rest);
            lemma_lit_round_trip("}"@, rest);
        },
    }
}

/// Encodes a request as its canonical one-line wire form.
pub fn encode_request(r: &crate::ipc::DaemonRequest) -> (out: String)
    ensures
        out@ == enc_req(r.deep_view()),
{
    let mut buf: Vec<char> = Vec::new();
    match r {
        crate::ipc::DaemonRequest::Prompt(payload) => {
            push_lit(&mut buf, "{\"type\":\"prompt\",\"prompt\":");
            push_json_str(&mut buf, payload.prompt.as_str());
            push_lit(&mut buf, ",\"context\":");
            push_str_list(&mut buf, &payload.context);
            push_lit(&mut buf, "}");
            proof {
                assert(buf@ =~= enc_req(r.deep_view()));
            }
        },
        crate::ipc::DaemonRequest::Status => {
            push_lit(&mut buf, "{\"type\":\"status\"}");
            proof {
                assert(buf@ =~= enc_req(r.deep_view()));
            }
        },
        crate::ipc::DaemonRequest::Shutdown => {
            push_lit(&mut buf, "{\"type\":\"shutdown\"}");
            proof {
                assert(buf@ =~= enc_req(r.deep_view()));
            }
        },
    }
    string_of_chars(&buf)
}

/// Encodes a response as its canonical one-line wire form.
pub fn encode_response(r: &crate::ipc::DaemonResponse) -> (out: String)
    ensures
        out@ == enc_resp(r.deep_view()),
{
    let mut buf: Vec<char> = Vec::new();
    match r {
        crate::ipc::DaemonResponse::Prompt { result } => {
            push_lit(&mut buf, "{\"type\":\"prompt\",\"result\":");
            push_result(&mut buf, result);
            push_lit(&mut buf, "}");
            proof {
                assert(buf@ =~= enc_resp(r.deep_view()));
            }
        },
        crate::ipc::DaemonResponse::Status { status } => {
            push_lit(&mut buf, "{\"type\":\"status\",\"status\":");
            push_status(&mut buf, status);
            push_lit(&mut buf, "}");
            proof {
                assert(buf@ =~= enc_resp(r.deep_view()));
            }
        },
        crate::ipc::DaemonResponse::Acknowledged => {
            push_lit(&mut buf, "{\"type\":\"ok\"}");
            proof {
                assert(buf@ =~= enc_resp(r.deep_view()));
            }
        },
        crate::ipc::DaemonResponse::Error { message } => {
            push_lit(&mut buf, "{\"type\":\"error\",\"message\":");
            push_json_str(&mut buf, message.as_str());
            push_lit(&mut buf, "}");
            proof {
                assert(buf@ =~= enc_resp(r.deep_view()));
            }
        },
    }
    string_of_chars(&buf)
}

/// What a whole request line decodes to: the canonical parse, with nothing
/// left over.
pub open spec fn spec_decode_request(s: Seq<char>) -> Option<crate::ipc::DaemonRequestView> {
    match p_req(s) {
        Some(p) => if p.1.len() == 0 {
            Some(p.0)
        } else {
            None
        },
        None => None,
    }
}

/// What a whole response line decodes to.
pub open spec fn spec_decode_response(s: Seq<char>) -> Option<crate::ipc::DaemonResponseView> {
    match p_resp(s) {
        Some(p) => if p.1.len() == 0 {
            Some(p.0)
        } else {
            None
        },
        None => None,
    }
}

fn parse_req(v: &Vec<char>, i: usize) -> (r: Option<(crate::ipc::DaemonRequest, usize)>)
    requires
        i <= v.len(),
    ensures
        (r is Some) == (p_req(v@.skip(i as int)) is Some),
        r matches Some(p) ==> i <= p.1 <= v.len() && p_req(v@.skip(i as int)) == Some(
            (p.0.deep_view(), v@.skip(p.1 as int)),
        ),
{
    match expect_lit(v, i, "{\"type\":\"") {
        None => None,
        Some(j0) => {
            if let Some(j1) = expect_lit(v, j0, "prompt\",\"prompt\":") {
                match parse_json_str(v, j1) {
                    None => None,
                    Some((prompt, j2)) => match expect_lit(v, j2, ",\"context\":") {
                        None => None,
                        Some(j3) => match parse_str_list(v, j3) {
                            None => None,
                            Some((context, j4)) => match expect_lit(v, j4, "}") {
                                None => None,
                                Some(j5) => {
                                    let req = crate::ipc::DaemonRequest::Prompt(
                                        crate::ipc::PromptPayload { prompt, context },
                                    );
                                    proof {
                                        assert(req.deep_view()
                                            =~= crate::ipc::DaemonRequestView::Prompt {
                                            payload: crate::ipc::PromptPayloadView {
                                                prompt: prompt@,
                                                context: context.deep_view(),
                                            },
                                        });
                                    }
                                    Some((req, j5))
                                },
                            },
                        },
                    },
                }
            } else if let Some(j1) = expect_lit(v, j0, "status\"}") {
                Some((crate::ipc::DaemonRequest::Status, j1))
            } else if let Some(j1) = expect_lit(v, j0, "shutdown\"}") {
                Some((crate::ipc::DaemonRequest::Shutdown, j1))
            } else {
                None
            }
        },
    }
}

fn parse_resp(v: &Vec<char>, i: usize) -> (r: Option<(crate::ipc::DaemonResponse, usize)>)
    requires
        i <= v.len(),
    ensures
        (r is Some) == (p_resp(v@.skip(i as int)) is Some),
        r matches Some(p) ==> i <= p.1 <= v.len() && p_resp(v@.skip(i as int)) == Some(
            (p.0.deep_view(), v@.skip(p.1 as int)),
        ),
{
    match expect_lit(v, i, "{\"type\":\"") {
        None => None,
        Some(j0) => {
            if let Some(j1) = expect_lit(v, j0, "prompt\",\"result\":") {
                match parse_result(v, j1) {
                    None => None,
                    Some((result, j2)) => match expect_lit(v, j2, "}") {
                        None => None,
                        Some(j3) => Some((crate::ipc::DaemonResponse::Prompt { result }, j3)),
                    },
                }
            } else if let Some(j1) = expect_lit(v, j0, "status\",\"status\":") {
                match parse_status(v, j1) {
                    None => None,
                    Some((status, j2)) => match expect_lit(v, j2, "}") {
                        None => None,
                        Some(j3) => Some((crate::ipc::DaemonResponse::Status { status }, j3)),
                    },
                }
            } else if let Some(j1) = expect_lit(v, j0, "ok\"}") {
                Some((crate::ipc::DaemonResponse::Acknowledged, j1))
            } else if let Some(j1) = expect_lit(v, j0, "error\",\"message\":") {
                match parse_json_str(v, j1) {
                    None => None,
                    Some((message, j2)) => match expect_lit(v, j2, "}") {
                        None => None,
                        Some(j3) => Some((crate::ipc::DaemonResponse::Error { message }, j3)),
                    },
                }
            } else {
                None
            }
        },
    }
}

/// Decodes one request line; a malformed line yields nothing.
pub fn decode_request(line: &str) -> (r: Option<crate::ipc::DaemonRequest>)
    ensures
        match r {
            Some(req) => spec_decode_request(line@) == Some(req.deep_view()),
            None => spec_decode_request(line@) is None,
        },
{
    let v = chars_of(line);
    proof {
        assert(v@.skip(0) =~= line@);
    }
    match parse_req(&v, 0) {
        Some((req, j)) => {
            if j == v.len() {
                proof {
                    assert(v@.skip(j as int).len() == 0);
                }
                Some(req)
            } else {
                None
            }
        },
        None => None,
    }
}

/// Decodes one response line; a malformed line yields nothing.
pub fn decode_response(line: &str) -> (r: Option<crate::ipc::DaemonResponse>)
    ensures
        match r {
            Some(resp) => spec_decode_response(line@) == Some(resp.deep_view()),
            None => spec_decode_response(line@) is None,
        },
{
    let v = chars_of(line);
    proof {
        assert(v@.skip(0) =~= line@);
    }
    match parse_resp(&v, 0) {
        Some((resp, j)) => {
            if j == v.len() {
                proof {
                    assert(v@.skip(j as int).len() == 0);
                }
                Some(resp)
            } else {
                None
            }
        },
        None => None,
    }
}

/// Law: round trip.  Decoding the encoded line of any request yields an
/// equal request.
pub proof fn lemma_request_round_trip(r: crate::ipc::DaemonRequestView)
    ensures
        spec_decode_request(enc_req(r)) == Some(r),
{
    lemma_req_round_trip(r, Seq::<char>::empty());
    assert(enc_req(r) + Seq::<char>::empty() =~= enc_req(r));
}

/// Law: round trip.  Decoding the encoded line of any response yields an
/// equal response.
pub proof fn lemma_response_round_trip(r: crate::ipc::DaemonResponseView)
    ensures
        spec_decode_response(enc_resp(r)) == Some(r),
{
    lemma_resp_round_trip(r, Seq::<char>::empty());
    assert(enc_resp(r) + Seq::<char>::empty() =~= enc_resp(r));
}

/// Law: idempotent status.  Status requests served from an unchanged status
/// record produce byte-identical response lines: the encoding depends on
/// nothing but the record.
pub proof fn lemma_status_idempotent(a: crate::ipc::DaemonStatusView, b: crate::ipc::DaemonStatusView)
    requires
        a == b,
    ensures
        enc_resp(crate::ipc::DaemonResponseView::Status { status: a }) == enc_resp(
            crate::ipc::DaemonResponseView::Status { status: b },
        ),
{
}

} // verus!
