use vstd::prelude::*;
use vstd::string::*;

verus! {

/// The lower-case hexadecimal digit of a number below sixteen.
pub open spec fn hex_digit(n: int) -> u8 {
    if n < 10 {
        (0x30 + n) as u8
    } else {
        (0x57 + n) as u8
    }
}

/// Whether a byte cannot stand for itself inside a string: the quote, the
/// backslash and the control characters.
pub open spec fn needs_escape(b: u8) -> bool {
    b < 0x20 || b == 0x22 || b == 0x5c
}

/// How one byte of a string is written: a short escape for the quote, the
/// backslash and the five control characters that have one, `\u00` and two
/// hexadecimal digits for the other control characters, and the byte itself
/// otherwise.
pub open spec fn escape_byte(b: u8) -> Seq<u8> {
    if b == 0x22 {
        seq![0x5cu8, 0x22u8]
    } else if b == 0x5c {
        seq![0x5cu8, 0x5cu8]
    } else if b == 0x08 {
        seq![0x5cu8, 0x62u8]
    } else if b == 0x0c {
        seq![0x5cu8, 0x66u8]
    } else if b == 0x0a {
        seq![0x5cu8, 0x6eu8]
    } else if b == 0x0d {
        seq![0x5cu8, 0x72u8]
    } else if b == 0x09 {
        seq![0x5cu8, 0x74u8]
    } else if b < 0x20 {
        seq![0x5cu8, 0x75u8, 0x30u8, 0x30u8, hex_digit(b as int / 16), hex_digit(b as int % 16)]
    } else {
        seq![b]
    }
}

/// The bytes of a string with each byte written as [`escape_byte`] says.
pub open spec fn escape(s: Seq<u8>) -> Seq<u8>
    decreases s.len(),
{
    if s.len() == 0 {
        Seq::empty()
    } else {
        escape_byte(s.first()) + escape(s.drop_first())
    }
}

/// A string as it stands in the canonical form: between two quotes, escaped.
pub open spec fn quoted(s: Seq<u8>) -> Seq<u8> {
    seq![0x22u8] + (escape(s) + seq![0x22u8])
}

/// A whole number in decimal digits, without leading zeros.
pub open spec fn decimal(n: nat) -> Seq<u8>
    decreases n,
{
    if n < 10 {
        seq![(0x30 + n) as u8]
    } else {
        decimal(n / 10).push((0x30 + n % 10) as u8)
    }
}

/// The name of a field as it stands before its value: quoted, then a colon.
pub open spec fn key(name: &str) -> Seq<u8> {
    seq![0x22u8] + (name.spec_bytes() + seq![0x22u8, 0x3au8])
}

/// The brace that opens an object, and what follows it.
pub open spec fn open_object(rest: Seq<u8>) -> Seq<u8> {
    seq![0x7bu8] + rest
}

/// The brace that closes an object, and what follows it.
pub open spec fn close_object(rest: Seq<u8>) -> Seq<u8> {
    seq![0x7du8] + rest
}

/// The bracket that opens a list, and what follows it.
pub open spec fn open_array(rest: Seq<u8>) -> Seq<u8> {
    seq![0x5bu8] + rest
}

/// The bracket that closes a list, and what follows it.
pub open spec fn close_array(rest: Seq<u8>) -> Seq<u8> {
    seq![0x5du8] + rest
}

/// Items one after the other, with a comma between any two.
pub open spec fn joined(items: Seq<Seq<u8>>) -> Seq<u8>
    decreases items.len(),
{
    if items.len() == 0 {
        Seq::empty()
    } else if items.len() == 1 {
        items[0]
    } else {
        joined(items.drop_last()) + (seq![0x2cu8] + items.last())
    }
}

/// A list of items: between brackets, with a comma between any two.
pub open spec fn list_json(items: Seq<Seq<u8>>) -> Seq<u8> {
    seq![0x5bu8] + (joined(items) + seq![0x5du8])
}

/// The comma between two fields or two items, and what follows it.
pub open spec fn next(rest: Seq<u8>) -> Seq<u8> {
    seq![0x2cu8] + rest
}

/// A field whose value is a small whole number, and what follows it.
pub open spec fn number_field(name: &str, n: u8, rest: Seq<u8>) -> Seq<u8> {
    key(name) + (decimal(n as nat) + rest)
}

/// A field whose value is a string, and what follows it.
pub open spec fn string_field(name: &str, s: Seq<u8>, rest: Seq<u8>) -> Seq<u8> {
    key(name) + (quoted(s) + rest)
}

/// A field whose value is given as it stands, and what follows it.
pub open spec fn literal_field(name: &str, literal: Seq<u8>, rest: Seq<u8>) -> Seq<u8> {
    key(name) + (literal + rest)
}

/// Whether a byte is one of the ten digits.
pub open spec fn is_digit(b: u8) -> bool {
    0x30 <= b <= 0x39
}

/// The bytes of which number literals are made: digits, signs, the point and
/// the exponent mark.
pub open spec fn is_number_byte(b: u8) -> bool {
    is_digit(b) || b == 0x2b || b == 0x2d || b == 0x2e || b == 0x45 || b == 0x65
}

/// The index just behind the digits that stand at `i` and after it.
pub open spec fn skip_digits(s: Seq<u8>, i: int) -> int
    decreases s.len() - i,
{
    if 0 <= i < s.len() && is_digit(s[i]) {
        skip_digits(s, i + 1)
    } else {
        i
    }
}

/// Whether `s` is a number literal: an optional minus sign, an integer part
/// without a leading zero, an optional fraction of a point and digits, and an
/// optional exponent of `e` or `E`, an optional sign and digits.
pub open spec fn is_number(s: Seq<u8>) -> bool {
    let a: int = if s.len() > 0 && s[0] == 0x2d { 1 } else { 0 };
    let b = skip_digits(s, a);
    let c = if b < s.len() && s[b] == 0x2e { skip_digits(s, b + 1) } else { b };
    let d: int = if c < s.len() && (s[c] == 0x65 || s[c] == 0x45) {
        if c + 1 < s.len() && (s[c + 1] == 0x2b || s[c + 1] == 0x2d) { c + 2 } else { c + 1 }
    } else {
        c
    };
    let e = if d > c { skip_digits(s, d) } else { c };
    &&& b > a
    &&& (s[a] == 0x30 ==> b == a + 1)
    &&& (c > b ==> c > b + 1)
    &&& (d > c ==> e > d)
    &&& e == s.len()
}

/// Escaping goes through a concatenation.
pub proof fn lemma_escape_concat(a: Seq<u8>, b: Seq<u8>)
    ensures
        escape(a + b) == escape(a) + escape(b),
    decreases a.len(),
{
    if a.len() == 0 {
        assert(a + b =~= b);
        assert(escape(a) + escape(b) =~= escape(b));
    } else {
        lemma_escape_concat(a.drop_first(), b);
        assert((a + b).drop_first() =~= a.drop_first() + b);
        assert((a + b).first() == a.first());
        assert(escape_byte(a.first()) + (escape(a.drop_first()) + escape(b)) =~= (escape_byte(
            a.first(),
        ) + escape(a.drop_first())) + escape(b));
    }
}

/// The digits run from `i` to `skip_digits(s, i)`, and end there.
pub proof fn lemma_skip_digits(s: Seq<u8>, i: int)
    requires
        0 <= i <= s.len(),
    ensures
        i <= skip_digits(s, i) <= s.len(),
        forall|k: int| i <= k < skip_digits(s, i) ==> is_digit(#[trigger] s[k]),
        skip_digits(s, i) < s.len() ==> !is_digit(s[skip_digits(s, i)]),
    decreases s.len() - i,
{
    if i < s.len() && is_digit(s[i]) {
        lemma_skip_digits(s, i + 1);
    }
}

/// Appends one byte of a string, escaped.
fn write_escaped_byte(out: &mut Vec<u8>, b: u8)
    ensures
        final(out)@ == old(out)@ + escape_byte(b),
{
    if b == 0x22 {
        out.push(0x5c);
        out.push(0x22);
    } else if b == 0x5c {
        out.push(0x5c);
        out.push(0x5c);
    } else if b == 0x08 {
        out.push(0x5c);
        out.push(0x62);
    } else if b == 0x0c {
        out.push(0x5c);
        out.push(0x66);
    } else if b == 0x0a {
        out.push(0x5c);
        out.push(0x6e);
    } else if b == 0x0d {
        out.push(0x5c);
        out.push(0x72);
    } else if b == 0x09 {
        out.push(0x5c);
        out.push(0x74);
    } else if b < 0x20 {
        let high: u8 = b / 16;
        let low: u8 = b % 16;
        out.push(0x5c);
        out.push(0x75);
        out.push(0x30);
        out.push(0x30);
        out.push(0x30 + high);
        out.push(if low < 10 { 0x30 + low } else { 0x57 + low });
    } else {
        out.push(b);
    }
    assert(out@ =~= old(out)@ + escape_byte(b));
}

/// Appends a string between quotes, escaped.
pub fn write_string(out: &mut Vec<u8>, s: &[u8])
    ensures
        final(out)@ == old(out)@ + quoted(s@),
{
    out.push(0x22);
    let mut i: usize = 0;
    while i < s.len()
        invariant
            i <= s.len(),
            out@ == old(out)@ + (seq![0x22u8] + escape(s@.take(i as int))),
        decreases s.len() - i,
    {
        write_escaped_byte(out, s[i]);
        proof {
            let head = s@.take(i as int);
            let one = seq![s@[i as int]];
            assert(s@.take(i + 1) =~= head + one);
            lemma_escape_concat(head, one);
            assert(one.drop_first() =~= Seq::<u8>::empty());
            assert(escape(one.drop_first()) =~= Seq::<u8>::empty());
            assert(escape(one) =~= escape_byte(one.first()) + escape(one.drop_first()));
            assert(escape(one) =~= escape_byte(s@[i as int]));
            assert(out@ =~= old(out)@ + (seq![0x22u8] + escape(s@.take(i + 1))));
        }
        i += 1;
    }
    out.push(0x22);
    proof {
        assert(s@.take(i as int) =~= s@);
        assert(out@ =~= old(out)@ + quoted(s@));
    }
}

/// Appends a small whole number in decimal digits.
pub fn write_u8(out: &mut Vec<u8>, n: u8)
    ensures
        final(out)@ == old(out)@ + decimal(n as nat),
{
    if n >= 100 {
        out.push(0x30 + n / 100);
    }
    if n >= 10 {
        out.push(0x30 + (n / 10) % 10);
    }
    out.push(0x30 + n % 10);
    proof {
        reveal_with_fuel(decimal, 3);
        assert(out@ =~= old(out)@ + decimal(n as nat));
    }
}

/// Appends a field's name, quoted, and the colon behind it.
pub fn write_key(out: &mut Vec<u8>, name: &str)
    ensures
        final(out)@ == old(out)@ + key(name),
{
    out.push(0x22);
    out.extend_from_slice(name.as_bytes());
    out.push(0x22);
    out.push(0x3a);
    assert(out@ =~= old(out)@ + key(name));
}

/// The index just behind the digits that stand at `start` and after it.
fn digits_end(s: &[u8], start: usize) -> (end: usize)
    requires
        start <= s.len(),
    ensures
        end == skip_digits(s@, start as int),
        start <= end <= s.len(),
{
    let mut i: usize = start;
    while i < s.len() && 0x30 <= s[i] && s[i] <= 0x39
        invariant
            start <= i <= s.len(),
            skip_digits(s@, start as int) == skip_digits(s@, i as int),
        decreases s.len() - i,
    {
        i += 1;
    }
    i
}

/// Tells whether `s` is a number literal.
pub fn check_number(s: &[u8]) -> (ok: bool)
    ensures
        ok == is_number(s@),
{
    let len = s.len();
    let a: usize = if len > 0 && s[0] == 0x2d { 1 } else { 0 };
    let b = digits_end(s, a);
    if b == a {
        return false;
    }
    if s[a] == 0x30 && b != a + 1 {
        return false;
    }
    let c = if b < len && s[b] == 0x2e { digits_end(s, b + 1) } else { b };
    if c > b && c - b == 1 {
        return false;
    }
    let d: usize = if c < len && (s[c] == 0x65 || s[c] == 0x45) {
        if c + 1 < len && (s[c + 1] == 0x2b || s[c + 1] == 0x2d) { c + 2 } else { c + 1 }
    } else {
        c
    };
    if d > c {
        let e = digits_end(s, d);
        e > d && e == len
    } else {
        c == len
    }
}

} // verus!
