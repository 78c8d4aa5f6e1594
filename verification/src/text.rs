//! Character-sequence utilities: lexicographic order, whitespace
//! tokenization, and decimal rendering of indices.

use vstd::prelude::*;

verus! {

// ---------------------------------------------------------------------------
// Lexicographic order on character sequences
// ---------------------------------------------------------------------------

/// `a` is lexicographically at most `b`, comparing scalar values.
pub open spec fn lex_le(a: Seq<char>, b: Seq<char>) -> bool
    decreases a.len(),
{
    if a.len() == 0 {
        true
    } else if b.len() == 0 {
        false
    } else if (a[0] as int) < (b[0] as int) {
        true
    } else if (a[0] as int) > (b[0] as int) {
        false
    } else {
        lex_le(a.drop_first(), b.drop_first())
    }
}

/// Any two character sequences are ordered one way or the other.
pub proof fn lemma_lex_le_total(a: Seq<char>, b: Seq<char>)
    ensures
        lex_le(a, b) || lex_le(b, a),
    decreases a.len(),
{
    if a.len() != 0 && b.len() != 0 && (a[0] as int) == (b[0] as int) {
        lemma_lex_le_total(a.drop_first(), b.drop_first());
    }
}

/// Sequences ordered both ways are equal.
pub proof fn lemma_lex_le_antisymmetric(a: Seq<char>, b: Seq<char>)
    requires
        lex_le(a, b),
        lex_le(b, a),
    ensures
        a == b,
    decreases a.len(),
{
    if a.len() == 0 {
        assert(b.len() == 0);
        assert(a =~= b);
    } else {
        assert(b.len() != 0);
        assert((a[0] as int) == (b[0] as int));
        assert(a[0] == b[0]);
        lemma_lex_le_antisymmetric(a.drop_first(), b.drop_first());
        assert(a =~= seq![a[0]] + a.drop_first());
        assert(b =~= seq![b[0]] + b.drop_first());
    }
}

/// The order is transitive.
pub proof fn lemma_lex_le_transitive(a: Seq<char>, b: Seq<char>, c: Seq<char>)
    requires
        lex_le(a, b),
        lex_le(b, c),
    ensures
        lex_le(a, c),
    decreases a.len(),
{
    if a.len() != 0 {
        assert(b.len() != 0);
        assert(c.len() != 0);
        if (a[0] as int) == (b[0] as int) && (b[0] as int) == (c[0] as int) {
            lemma_lex_le_transitive(a.drop_first(), b.drop_first(), c.drop_first());
        }
    }
}

/// Dropping an equal prefix of one character does not change the order.
proof fn lemma_lex_le_step(a: Seq<char>, b: Seq<char>, i: int)
    requires
        0 <= i < a.len(),
        0 <= i < b.len(),
        a[i] == b[i],
    ensures
        lex_le(a.skip(i), b.skip(i)) == lex_le(a.skip(i + 1), b.skip(i + 1)),
{
    assert(a.skip(i).len() != 0);
    assert(b.skip(i).len() != 0);
    assert(a.skip(i)[0] == a[i]);
    assert(b.skip(i)[0] == b[i]);
    assert(a.skip(i).drop_first() =~= a.skip(i + 1));
    assert(b.skip(i).drop_first() =~= b.skip(i + 1));
}

/// Lexicographic comparison of two strings, by scalar value.
pub fn str_lex_le(a: &str, b: &str) -> (r: bool)
    ensures
        r == lex_le(a@, b@),
{
    let a_len = a.unicode_len();
    let b_len = b.unicode_len();
    let mut i: usize = 0;
    proof {
        assert(a@.skip(0) =~= a@);
        assert(b@.skip(0) =~= b@);
    }
    loop
        invariant
            i <= a_len,
            i <= b_len,
            a_len == a@.len(),
            b_len == b@.len(),
            lex_le(a@, b@) == lex_le(a@.skip(i as int), b@.skip(i as int)),
        decreases a_len - i,
    {
        if i == a_len {
            proof {
                assert(a@.skip(i as int).len() == 0);
            }
            return true;
        }
        if i == b_len {
            proof {
                assert(b@.skip(i as int).len() == 0);
                assert(a@.skip(i as int).len() != 0);
            }
            return false;
        }
        let ca = a.get_char(i);
        let cb = b.get_char(i);
        proof {
            assert(a@.skip(i as int)[0] == a@[i as int]);
            assert(b@.skip(i as int)[0] == b@[i as int]);
        }
        if (ca as u32) < (cb as u32) {
            return true;
        }
        if (ca as u32) > (cb as u32) {
            return false;
        }
        proof {
            lemma_lex_le_step(a@, b@, i as int);
        }
        i = i + 1;
    }
}

/// The scalar value of a character.
pub fn char_code(c: char) -> (r: u32)
    ensures
        r as int == c as int,
{
    c as u32
}

// ---------------------------------------------------------------------------
// Whitespace tokenization
// ---------------------------------------------------------------------------

/// The whitespace characters that separate tokens.
pub open spec fn is_ws(c: char) -> bool {
    c == ' ' || c == '\t' || c == '\n' || c == '\r'
}

/// The longest prefix of `s` that holds no whitespace.
pub open spec fn take_token(s: Seq<char>) -> Seq<char>
    decreases s.len(),
{
    if s.len() == 0 || is_ws(s[0]) {
        Seq::empty()
    } else {
        seq![s[0]] + take_token(s.drop_first())
    }
}

/// The maximal whitespace-free tokens of `s`, in order.
pub open spec fn tokens(s: Seq<char>) -> Seq<Seq<char>>
    decreases s.len(),
    via tokens_dec
{
    if s.len() == 0 {
        Seq::empty()
    } else if is_ws(s[0]) {
        tokens(s.drop_first())
    } else {
        let t = take_token(s);
        seq![t] + tokens(s.skip(t.len() as int))
    }
}

#[via_fn]
proof fn tokens_dec(s: Seq<char>) {
    if s.len() != 0 && !is_ws(s[0]) {
        lemma_take_token_len(s);
    }
}

proof fn lemma_take_token_len(s: Seq<char>)
    ensures
        take_token(s).len() <= s.len(),
        s.len() != 0 && !is_ws(s[0]) ==> take_token(s).len() >= 1,
    decreases s.len(),
{
    if s.len() != 0 && !is_ws(s[0]) {
        lemma_take_token_len(s.drop_first());
    }
}

/// Whether a character is whitespace.
fn ws_char(c: char) -> (r: bool)
    ensures
        r == is_ws(c),
{
    c == ' ' || c == '\t' || c == '\n' || c == '\r'
}

/// The characters of `s` from index `i` on, as a vector.
fn chars_from(s: &str, i: usize, len: usize) -> (r: Vec<char>)
    requires
        i <= len,
        len == s@.len(),
    ensures
        r@ == s@.skip(i as int),
    decreases len - i,
{
    let mut r: Vec<char> = Vec::new();
    let mut j = i;
    while j < len
        invariant
            i <= j <= len,
            len == s@.len(),
            r@ =~= s@.subrange(i as int, j as int),
        decreases len - j,
    {
        let c = s.get_char(j);
        r.push(c);
        j = j + 1;
    }
    proof {
        assert(r@ =~= s@.skip(i as int));
    }
    r
}

/// The characters of `s`, as a vector.
pub fn str_chars(s: &str) -> (r: Vec<char>)
    ensures
        r@ == s@,
{
    let len = s.unicode_len();
    let r = chars_from(s, 0, len);
    proof {
        assert(s@.skip(0) =~= s@);
    }
    r
}

/// Splits `s` from index `i` on into maximal whitespace-free tokens.
fn tokenize_from(s: &Vec<char>, i: usize) -> (r: Vec<Vec<char>>)
    requires
        i <= s@.len(),
    ensures
        r@.map_values(|t: Vec<char>| t@) == tokens(s@.skip(i as int)),
    decreases s@.len() - i,
{
    if i == s.len() {
        let r: Vec<Vec<char>> = Vec::new();
        proof {
            assert(s@.skip(i as int).len() == 0);
            assert(r@.map_values(|t: Vec<char>| t@) =~= tokens(s@.skip(i as int)));
        }
        return r;
    }
    proof {
        assert(s@.skip(i as int)[0] == s@[i as int]);
        assert(s@.skip(i as int).drop_first() =~= s@.skip(i as int + 1));
    }
    if ws_char(s[i]) {
        return tokenize_from(s, i + 1);
    }
    // collect the token that starts at i
    let mut tok: Vec<char> = Vec::new();
    let mut j = i;
    while j < s.len() && !ws_char(s[j])
        invariant
            i <= j <= s@.len(),
            tok@ =~= s@.subrange(i as int, j as int),
            take_token(s@.skip(i as int)) == tok@ + take_token(s@.skip(j as int)),
        decreases s@.len() - j,
    {
        proof {
            assert(s@.skip(j as int)[0] == s@[j as int]);
            assert(s@.skip(j as int).drop_first() =~= s@.skip(j as int + 1));
            assert(take_token(s@.skip(j as int)) == seq![s@[j as int]] + take_token(
                s@.skip(j as int + 1),
            ));
            assert(tok@.push(s@[j as int]) + take_token(s@.skip(j as int + 1)) =~= tok@ + (seq![
                s@[j as int],
            ] + take_token(s@.skip(j as int + 1))));
        }
        tok.push(s[j]);
        j = j + 1;
        proof {
            assert(tok@ =~= s@.subrange(i as int, j as int));
        }
    }
    proof {
        if j == s@.len() {
            assert(s@.skip(j as int).len() == 0);
        } else {
            assert(s@.skip(j as int)[0] == s@[j as int]);
        }
        assert(take_token(s@.skip(j as int)) =~= Seq::<char>::empty());
        assert(take_token(s@.skip(i as int)) =~= tok@);
        assert(tok@.len() == j - i);
    }
    let ghost t = take_token(s@.skip(i as int));
    let mut rest = tokenize_from(s, j);
    let ghost rest_view = rest@;
    let mut r: Vec<Vec<char>> = Vec::new();
    r.push(tok);
    r.append(&mut rest);
    proof {
        assert(tokens(s@.skip(i as int)) == seq![t] + tokens(s@.skip(i as int).skip(t.len() as int)));
        assert(s@.skip(i as int).skip(t.len() as int) =~= s@.skip(j as int));
        assert(r@.map_values(|v: Vec<char>| v@) =~= seq![t] + rest_view.map_values(
            |v: Vec<char>| v@,
        ));
    }
    r
}

/// Splits `s` into its maximal whitespace-free tokens, in order.
pub fn tokenize(s: &str) -> (r: Vec<Vec<char>>)
    ensures
        r@.map_values(|t: Vec<char>| t@) == tokens(s@),
{
    let cs = str_chars(s);
    let r = tokenize_from(&cs, 0);
    proof {
        assert(cs@.skip(0) =~= cs@);
    }
    r
}

// ---------------------------------------------------------------------------
// Decimal rendering
// ---------------------------------------------------------------------------

/// The character for a single decimal digit.
pub open spec fn digit_char(d: nat) -> char {
    if d == 0 {
        '0'
    } else if d == 1 {
        '1'
    } else if d == 2 {
        '2'
    } else if d == 3 {
        '3'
    } else if d == 4 {
        '4'
    } else if d == 5 {
        '5'
    } else if d == 6 {
        '6'
    } else if d == 7 {
        '7'
    } else if d == 8 {
        '8'
    } else {
        '9'
    }
}

/// The decimal digits of `n`, most significant first.
pub open spec fn dec_digits(n: nat) -> Seq<char>
    decreases n,
{
    if n < 10 {
        seq![digit_char(n)]
    } else {
        dec_digits(n / 10) + seq![digit_char(n % 10)]
    }
}

/// The numeric value of a single decimal digit character.
pub open spec fn digit_val(c: char) -> nat {
    if c == '0' {
        0
    } else if c == '1' {
        1
    } else if c == '2' {
        2
    } else if c == '3' {
        3
    } else if c == '4' {
        4
    } else if c == '5' {
        5
    } else if c == '6' {
        6
    } else if c == '7' {
        7
    } else if c == '8' {
        8
    } else {
        9
    }
}

/// The numeric value of a decimal digit string.
pub open spec fn dec_val(s: Seq<char>) -> nat
    decreases s.len(),
{
    if s.len() == 0 {
        0
    } else {
        dec_val(s.drop_last()) * 10 + digit_val(s.last())
    }
}

/// Reading back the digits of `n` yields `n`: the rendering is injective.
pub proof fn lemma_dec_val_of_digits(n: nat)
    ensures
        dec_val(dec_digits(n)) == n,
    decreases n,
{
    if n < 10 {
        assert(dec_digits(n) =~= seq![digit_char(n)]);
        assert(dec_digits(n).drop_last() =~= Seq::<char>::empty());
        assert(dec_digits(n).last() == digit_char(n));
        assert(dec_val(Seq::<char>::empty()) == 0);
        assert(digit_val(digit_char(n)) == n);
    } else {
        lemma_dec_val_of_digits(n / 10);
        assert(dec_digits(n).drop_last() =~= dec_digits(n / 10));
        assert(dec_digits(n).last() == digit_char(n % 10));
        assert(dec_val(dec_digits(n)) == (n / 10) * 10 + n % 10);
        assert((n / 10) * 10 + n % 10 == n) by (nonlinear_arith);
    }
}

/// A leading zero does not change the value.
pub proof fn lemma_dec_val_zero_prefix(s: Seq<char>)
    ensures
        dec_val(seq!['0'] + s) == dec_val(s),
    decreases s.len(),
{
    if s.len() == 0 {
        assert(seq!['0'] + s =~= seq!['0']);
        assert(seq!['0'].drop_last() =~= Seq::<char>::empty());
        assert(seq!['0'].last() == '0');
        assert(dec_val(Seq::<char>::empty()) == 0);
        assert(dec_val(seq!['0']) == 0);
    } else {
        assert((seq!['0'] + s).drop_last() =~= seq!['0'] + s.drop_last());
        assert((seq!['0'] + s).last() == s.last());
        lemma_dec_val_zero_prefix(s.drop_last());
    }
}

/// Appends the decimal digits of `n` to `v`.
pub fn push_dec(v: &mut Vec<char>, n: usize)
    ensures
        final(v)@ == old(v)@ + dec_digits(n as nat),
    decreases n,
{
    if n < 10 {
        let c: char = if n == 0 {
            '0'
        } else if n == 1 {
            '1'
        } else if n == 2 {
            '2'
        } else if n == 3 {
            '3'
        } else if n == 4 {
            '4'
        } else if n == 5 {
            '5'
        } else if n == 6 {
            '6'
        } else if n == 7 {
            '7'
        } else if n == 8 {
            '8'
        } else {
            '9'
        };
        v.push(c);
        proof {
            assert(final(v)@ =~= old(v)@ + dec_digits(n as nat));
        }
    } else {
        push_dec(v, n / 10);
        let d = n % 10;
        let c: char = if d == 0 {
            '0'
        } else if d == 1 {
            '1'
        } else if d == 2 {
            '2'
        } else if d == 3 {
            '3'
        } else if d == 4 {
            '4'
        } else if d == 5 {
            '5'
        } else if d == 6 {
            '6'
        } else if d == 7 {
            '7'
        } else if d == 8 {
            '8'
        } else {
            '9'
        };
        v.push(c);
        proof {
            assert(final(v)@ =~= old(v)@ + dec_digits(n as nat));
        }
    }
}

// ---------------------------------------------------------------------------
// Between character vectors and strings
// ---------------------------------------------------------------------------

/// Relies on `String`'s `FromIterator<char>`: collecting characters
/// yields the string of exactly those characters, in order.
#[verifier::external_body]
pub fn chars_to_string(v: &Vec<char>) -> (r: String)
    ensures
        r@ == v@,
{
    v.iter().collect()
}

} // verus!
