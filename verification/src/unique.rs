use crate::bytes::{lemma_cancel_prefix, lemma_concat_laws, lemma_split_at_same_length};
use crate::json::{
    close_object, decimal, escape, escape_byte, hex_digit, is_digit, is_number, is_number_byte,
    key, lemma_skip_digits, literal_field, needs_escape, next, number_field, quoted, skip_digits,
    string_field,
};
use vstd::prelude::*;
use vstd::string::*;
use vstd::utf8::{encode_utf8, encode_utf8_decode_utf8};

verus! {

/// Two texts with the same bytes are the same text.
pub proof fn lemma_utf8_injective(a: Seq<char>, b: Seq<char>)
    requires
        encode_utf8(a) == encode_utf8(b),
    ensures
        a == b,
{
    encode_utf8_decode_utf8(a);
    encode_utf8_decode_utf8(b);
}

/// Two byte strings made of bytes of one class, each followed by a byte that
/// is not of the class, are the same if what they make with what follows is
/// the same; and then what follows is the same.
pub proof fn lemma_delimited(
    p: Seq<u8>,
    q: Seq<u8>,
    x: Seq<u8>,
    y: Seq<u8>,
    class: spec_fn(u8) -> bool,
)
    requires
        p + x == q + y,
        forall|i: int| 0 <= i < p.len() ==> class(#[trigger] p[i]),
        forall|i: int| 0 <= i < q.len() ==> class(#[trigger] q[i]),
        x.len() > 0 && !class(x[0]),
        y.len() > 0 && !class(y[0]),
    ensures
        p == q,
        x == y,
{
    let l = p + x;
    let r = q + y;
    if p.len() < q.len() {
        assert(l[p.len() as int] == x[0]);
        assert(r[p.len() as int] == q[p.len() as int]);
        assert(false);
    }
    if q.len() < p.len() {
        assert(r[q.len() as int] == y[0]);
        assert(l[q.len() as int] == p[q.len() as int]);
        assert(false);
    }
    lemma_split_at_same_length(p, q, x, y);
}

/// The way one byte of a string is written tells which byte it was, and
/// where what follows it begins.
pub proof fn lemma_escape_byte_prefix(c: u8, d: u8, x: Seq<u8>, y: Seq<u8>)
    requires
        escape_byte(c) + x == escape_byte(d) + y,
    ensures
        c == d,
        x == y,
{
    let l = escape_byte(c) + x;
    let r = escape_byte(d) + y;
    assert(l[0] == escape_byte(c)[0]);
    assert(r[0] == escape_byte(d)[0]);
    if needs_escape(c) {
        assert(l[0] == 0x5c);
        assert(needs_escape(d));
        assert(l[1] == escape_byte(c)[1]);
        assert(r[1] == escape_byte(d)[1]);
        if escape_byte(c).len() == 6 {
            assert(escape_byte(c)[1] == 0x75);
            assert(escape_byte(d).len() == 6);
            assert(l[4] == escape_byte(c)[4]);
            assert(r[4] == escape_byte(d)[4]);
            assert(l[5] == escape_byte(c)[5]);
            assert(r[5] == escape_byte(d)[5]);
            assert(hex_digit(c as int / 16) == hex_digit(d as int / 16));
            assert(hex_digit(c as int % 16) == hex_digit(d as int % 16));
            assert(c as int / 16 == d as int / 16);
            assert(c as int % 16 == d as int % 16);
        }
    } else {
        assert(l[0] == c);
        assert(!needs_escape(d));
    }
    assert(c == d);
    lemma_cancel_prefix(escape_byte(c), x, y);
}

/// No byte of a string is written beginning with a quote.
pub proof fn lemma_escape_byte_first(c: u8)
    ensures
        escape_byte(c).len() > 0,
        escape_byte(c)[0] != 0x22,
{
}

/// The written bytes of a string, followed by the closing quote, tell which
/// string it was and where what follows the quote begins.
pub proof fn lemma_escape_prefix(s: Seq<u8>, t: Seq<u8>, x: Seq<u8>, y: Seq<u8>)
    requires
        escape(s) + (seq![0x22u8] + x) == escape(t) + (seq![0x22u8] + y),
    ensures
        s == t,
        x == y,
    decreases s.len(),
{
    lemma_concat_laws();
    let quote = seq![0x22u8];
    let l = escape(s) + (quote + x);
    let r = escape(t) + (quote + y);
    if s.len() == 0 && t.len() == 0 {
        assert(Seq::<u8>::empty() + (quote + x) =~= quote + x);
        assert(Seq::<u8>::empty() + (quote + y) =~= quote + y);
        lemma_cancel_prefix(quote, x, y);
        assert(s =~= t);
    } else if s.len() == 0 {
        assert(Seq::<u8>::empty() + (quote + x) =~= quote + x);
        assert(l[0] == 0x22);
        lemma_escape_byte_first(t.first());
        assert(r == escape_byte(t.first()) + (escape(t.drop_first()) + (quote + y)));
        assert(r[0] == escape_byte(t.first())[0]);
        assert(false);
    } else if t.len() == 0 {
        assert(Seq::<u8>::empty() + (quote + y) =~= quote + y);
        assert(r[0] == 0x22);
        lemma_escape_byte_first(s.first());
        assert(l == escape_byte(s.first()) + (escape(s.drop_first()) + (quote + x)));
        assert(l[0] == escape_byte(s.first())[0]);
        assert(false);
    } else {
        let ls = escape(s.drop_first()) + (quote + x);
        let rs = escape(t.drop_first()) + (quote + y);
        assert(l == escape_byte(s.first()) + ls);
        assert(r == escape_byte(t.first()) + rs);
        lemma_escape_byte_prefix(s.first(), t.first(), ls, rs);
        lemma_escape_prefix(s.drop_first(), t.drop_first(), x, y);
        assert(s =~= seq![s.first()] + s.drop_first());
        assert(t =~= seq![t.first()] + t.drop_first());
    }
}

/// A string between its quotes tells which string it was and where what
/// follows it begins.
pub proof fn lemma_quoted_prefix(s: Seq<u8>, t: Seq<u8>, x: Seq<u8>, y: Seq<u8>)
    requires
        quoted(s) + x == quoted(t) + y,
    ensures
        s == t,
        x == y,
{
    lemma_concat_laws();
    let quote = seq![0x22u8];
    lemma_cancel_prefix(quote, escape(s) + (quote + x), escape(t) + (quote + y));
    lemma_escape_prefix(s, t, x, y);
}

/// A number in decimal digits has at least one digit, and digits only.
pub proof fn lemma_decimal_digits(n: nat)
    ensures
        decimal(n).len() >= 1,
        forall|i: int| 0 <= i < decimal(n).len() ==> is_digit(#[trigger] decimal(n)[i]),
    decreases n,
{
    if n >= 10 {
        lemma_decimal_digits(n / 10);
    }
}

/// Two numbers with the same decimal digits are the same number.
pub proof fn lemma_decimal_injective(m: nat, n: nat)
    requires
        decimal(m) == decimal(n),
    ensures
        m == n,
    decreases m,
{
    lemma_decimal_digits(m / 10);
    lemma_decimal_digits(n / 10);
    if m < 10 && n < 10 {
        assert(decimal(m)[0] == (0x30 + m) as u8);
        assert(decimal(n)[0] == (0x30 + n) as u8);
    } else if m < 10 {
        assert(decimal(m).len() == 1);
        assert(decimal(n).len() >= 2);
    } else if n < 10 {
        assert(decimal(n).len() == 1);
        assert(decimal(m).len() >= 2);
    } else {
        assert(decimal(m).drop_last() =~= decimal(m / 10));
        assert(decimal(n).drop_last() =~= decimal(n / 10));
        assert(decimal(m).last() == (0x30 + m % 10) as u8);
        assert(decimal(n).last() == (0x30 + n % 10) as u8);
        assert(m % 10 == n % 10);
        lemma_decimal_injective(m / 10, n / 10);
        assert(m == 10 * (m / 10) + m % 10);
        assert(n == 10 * (n / 10) + n % 10);
    }
}

/// A number in decimal digits, followed by a byte that is no digit, tells
/// which number it was and where what follows it begins.
pub proof fn lemma_decimal_prefix(m: nat, n: nat, x: Seq<u8>, y: Seq<u8>)
    requires
        decimal(m) + x == decimal(n) + y,
        x.len() > 0 && !is_digit(x[0]),
        y.len() > 0 && !is_digit(y[0]),
    ensures
        m == n,
        x == y,
{
    lemma_decimal_digits(m);
    lemma_decimal_digits(n);
    lemma_delimited(decimal(m), decimal(n), x, y, |b: u8| is_digit(b));
    lemma_decimal_injective(m, n);
}

/// A number literal is not empty, and is made of number bytes only.
pub proof fn lemma_number_bytes(s: Seq<u8>)
    requires
        is_number(s),
    ensures
        s.len() > 0,
        forall|i: int| 0 <= i < s.len() ==> is_number_byte(#[trigger] s[i]),
{
    let a: int = if s.len() > 0 && s[0] == 0x2d { 1 } else { 0 };
    if a <= s.len() {
        lemma_skip_digits(s, a);
    }
    let b = skip_digits(s, a);
    if b < s.len() && s[b] == 0x2e {
        lemma_skip_digits(s, b + 1);
    }
    let c = if b < s.len() && s[b] == 0x2e { skip_digits(s, b + 1) } else { b };
    let d: int = if c < s.len() && (s[c] == 0x65 || s[c] == 0x45) {
        if c + 1 < s.len() && (s[c + 1] == 0x2b || s[c + 1] == 0x2d) { c + 2 } else { c + 1 }
    } else {
        c
    };
    if d > c && d <= s.len() {
        lemma_skip_digits(s, d);
    }
    assert forall|i: int| 0 <= i < s.len() implies is_number_byte(#[trigger] s[i]) by {
        if i < a {
        } else if i < b {
        } else if i < c {
        } else if i < d {
        } else {
        }
    }
}

/// A number literal, followed by a byte that no number literal holds, tells
/// which literal it was and where what follows it begins.
pub proof fn lemma_number_prefix(p: Seq<u8>, q: Seq<u8>, x: Seq<u8>, y: Seq<u8>)
    requires
        is_number(p),
        is_number(q),
        p + x == q + y,
        x.len() > 0 && !is_number_byte(x[0]),
        y.len() > 0 && !is_number_byte(y[0]),
    ensures
        p == q,
        x == y,
{
    lemma_number_bytes(p);
    lemma_number_bytes(q);
    lemma_delimited(p, q, x, y, |b: u8| is_number_byte(b));
}

/// What stands behind the same comma is the same.
pub proof fn lemma_next_cancel(x: Seq<u8>, y: Seq<u8>)
    requires
        next(x) == next(y),
    ensures
        x == y,
{
    lemma_cancel_prefix(seq![0x2cu8], x, y);
}

/// A string field followed by anything tells its value and what follows.
pub proof fn lemma_string_field(name: &str, s: Seq<u8>, t: Seq<u8>, x: Seq<u8>, y: Seq<u8>)
    requires
        string_field(name, s, x) == string_field(name, t, y),
    ensures
        s == t,
        x == y,
{
    lemma_cancel_prefix(key(name), quoted(s) + x, quoted(t) + y);
    lemma_quoted_prefix(s, t, x, y);
}

/// A number field followed by a comma tells its value and what follows the
/// comma.
pub proof fn lemma_number_field_next(name: &str, m: u8, n: u8, x: Seq<u8>, y: Seq<u8>)
    requires
        number_field(name, m, next(x)) == number_field(name, n, next(y)),
    ensures
        m == n,
        x == y,
{
    lemma_cancel_prefix(key(name), decimal(m as nat) + next(x), decimal(n as nat) + next(y));
    assert(next(x)[0] == 0x2c);
    assert(next(y)[0] == 0x2c);
    lemma_decimal_prefix(m as nat, n as nat, next(x), next(y));
    lemma_next_cancel(x, y);
}

/// A number field followed by the closing brace tells its value and what
/// follows the brace.
pub proof fn lemma_number_field_close(name: &str, m: u8, n: u8, x: Seq<u8>, y: Seq<u8>)
    requires
        number_field(name, m, close_object(x)) == number_field(name, n, close_object(y)),
    ensures
        m == n,
        x == y,
{
    lemma_cancel_prefix(
        key(name),
        decimal(m as nat) + close_object(x),
        decimal(n as nat) + close_object(y),
    );
    assert(close_object(x)[0] == 0x7d);
    assert(close_object(y)[0] == 0x7d);
    lemma_decimal_prefix(m as nat, n as nat, close_object(x), close_object(y));
    lemma_cancel_prefix(seq![0x7du8], x, y);
}

/// A field that holds a number literal, followed by a comma, tells the
/// literal and what follows the comma.
pub proof fn lemma_literal_field_next(name: &str, p: Seq<u8>, q: Seq<u8>, x: Seq<u8>, y: Seq<u8>)
    requires
        is_number(p),
        is_number(q),
        literal_field(name, p, next(x)) == literal_field(name, q, next(y)),
    ensures
        p == q,
        x == y,
{
    lemma_cancel_prefix(key(name), p + next(x), q + next(y));
    assert(next(x)[0] == 0x2c);
    assert(next(y)[0] == 0x2c);
    lemma_number_prefix(p, q, next(x), next(y));
    lemma_next_cancel(x, y);
}

/// A field that holds a number literal, followed by the closing brace, tells
/// the literal and what follows the brace.
pub proof fn lemma_literal_field_close(
    name: &str,
    p: Seq<u8>,
    q: Seq<u8>,
    x: Seq<u8>,
    y: Seq<u8>,
)
    requires
        is_number(p),
        is_number(q),
        literal_field(name, p, close_object(x)) == literal_field(name, q, close_object(y)),
    ensures
        p == q,
        x == y,
{
    lemma_cancel_prefix(key(name), p + close_object(x), q + close_object(y));
    assert(close_object(x)[0] == 0x7d);
    assert(close_object(y)[0] == 0x7d);
    lemma_number_prefix(p, q, close_object(x), close_object(y));
    lemma_cancel_prefix(seq![0x7du8], x, y);
}

} // verus!
