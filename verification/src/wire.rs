//! Reading the pieces of a request from bytes: fixed words, words up to a
//! delimiter, bracketed fields, unsigned numbers and UTF-8 text.
use vstd::prelude::*;
use vstd::utf8::{
    char_is_scalar, char_u32_cast, decode_utf8, encode_scalar, encode_utf8, has_width_1_encoding,
    encode_utf8_decode_utf8, encode_utf8_valid_utf8, is_ascii_chars,
    is_ascii_chars_encode_utf8, valid_utf8,
};

use crate::text::{decimal, digit_char, lemma_decimal_digits};

verus! {

/// Why a request could not be read.
#[derive(Clone, Copy, Debug, PartialEq, Eq, Structural)]
pub enum DecodeError {
    /// The bytes do not have the shape of the request.
    Mismatch,
    /// The bytes have the shape, but a number field does not hold a number
    /// or a text field does not hold UTF-8.
    Malformed,
    /// No kind of request that can be read starts with these bytes.
    Unsupported,
}

/// The bytes of the characters `cs` in UTF-8.
pub open spec fn lit(cs: Seq<char>) -> Seq<u8> {
    encode_utf8(cs)
}

/// Where `t` ends, when it stands in `s` at `pos`.
pub open spec fn spec_tag(s: Seq<u8>, pos: int, t: Seq<u8>) -> Option<int> {
    if 0 <= pos && pos + t.len() <= s.len() && s.subrange(pos, pos + t.len()) == t {
        Some(pos + t.len())
    } else {
        None
    }
}

/// The first position at or after `pos` that holds `a` or `b`, or the end
/// of `s`.
pub open spec fn scan_to(s: Seq<u8>, pos: int, a: u8, b: u8) -> int
    decreases s.len() - pos,
{
    if pos < 0 || pos >= s.len() || s[pos] == a || s[pos] == b {
        pos
    } else {
        scan_to(s, pos + 1, a, b)
    }
}

/// A bracketed field `NAME=[VALUE]` at `pos`: where the value starts and
/// ends, and where the field ends. The value runs to the first ']'.
pub open spec fn spec_field(s: Seq<u8>, pos: int, name: Seq<u8>) -> Option<(int, int, int)> {
    match spec_tag(s, pos, name) {
        None => None,
        Some(p) => if 0 <= p < s.len() && s[p] == 91 {
            let e = scan_to(s, p + 1, 93, 93);
            if e < s.len() {
                Some((p + 1, e, e + 1))
            } else {
                None
            }
        } else {
            None
        },
    }
}

/// The value of the decimal digits `d`.
pub open spec fn digits_value(d: Seq<u8>) -> nat
    decreases d.len(),
{
    if d.len() == 0 {
        0
    } else {
        digits_value(d.drop_last()) * 10 + (d.last() - 48) as nat
    }
}

/// Every byte of `d` is an ASCII digit.
pub open spec fn all_digits(d: Seq<u8>) -> bool {
    forall|i: int| 0 <= i < d.len() ==> 48 <= #[trigger] d[i] <= 57
}

/// The unsigned number that `str::parse` reads from `s`, if at most `max`:
/// an optional '+', then one or more ASCII digits.
pub open spec fn parse_unsigned(s: Seq<u8>, max: nat) -> Option<nat> {
    let d = if s.len() > 0 && s[0] == 43 {
        s.drop_first()
    } else {
        s
    };
    if d.len() > 0 && all_digits(d) && digits_value(d) <= max {
        Some(digits_value(d))
    } else {
        None
    }
}

/// The text that `s[a..b]` holds, if it is UTF-8.
pub open spec fn spec_text(s: Seq<u8>, a: int, b: int) -> Option<Seq<char>> {
    if valid_utf8(s.subrange(a, b)) {
        Some(decode_utf8(s.subrange(a, b)))
    } else {
        None
    }
}

/// Converts a position to the integer the specifications use.
pub open spec fn opt_pos(o: Option<usize>) -> Option<int> {
    match o {
        Some(p) => Some(p as int),
        None => None,
    }
}

/// Where the bytes of `t` end, when they stand in `s` at `pos`.
pub fn tag(s: &[u8], pos: usize, t: &str) -> (r: Option<usize>)
    requires
        pos <= s@.len(),
    ensures
        opt_pos(r) == spec_tag(s@, pos as int, lit(t@)),
{
    let tb = t.as_bytes();
    let n = tb.len();
    if n > s.len() - pos {
        return None;
    }
    let mut i: usize = 0;
    while i < n
        invariant
            i <= n,
            n == tb@.len(),
            pos + n <= s.len(),
            tb@ == lit(t@),
            forall|j: int| 0 <= j < i ==> s@[pos + j] == tb@[j],
        decreases n - i,
    {
        if s[pos + i] != tb[i] {
            assert(s@.subrange(pos as int, pos + n)[i as int] != tb@[i as int]);
            return None;
        }
        i = i + 1;
    }
    assert(s@.subrange(pos as int, pos + n) =~= tb@);
    Some(pos + n)
}

/// The first position at or after `pos` that holds `a` or `b`, or the end.
pub fn scan(s: &[u8], pos: usize, a: u8, b: u8) -> (r: usize)
    requires
        pos <= s@.len(),
    ensures
        r as int == scan_to(s@, pos as int, a, b),
        pos <= r <= s@.len(),
{
    let mut i = pos;
    while i < s.len() && s[i] != a && s[i] != b
        invariant
            pos <= i <= s@.len(),
            scan_to(s@, pos as int, a, b) == scan_to(s@, i as int, a, b),
        decreases s@.len() - i,
    {
        i = i + 1;
    }
    i
}

/// A bracketed field `NAME=[VALUE]` at `pos`; see `spec_field`.
pub fn field(s: &[u8], pos: usize, name: &str) -> (r: Option<(usize, usize, usize)>)
    requires
        pos <= s@.len(),
    ensures
        match r {
            Some((a, b, e)) => spec_field(s@, pos as int, lit(name@)) == Some(
                (a as int, b as int, e as int),
            ) && a <= b < e <= s@.len(),
            None => spec_field(s@, pos as int, lit(name@)) is None,
        },
{
    match tag(s, pos, name) {
        None => None,
        Some(p) => {
            if p < s.len() && s[p] == 91 {
                let e = scan(s, p + 1, 93, 93);
                if e < s.len() {
                    Some((p + 1, e, e + 1))
                } else {
                    None
                }
            } else {
                None
            }
        },
    }
}

proof fn lemma_digits_step(d: Seq<u8>, i: int)
    requires
        0 <= i < d.len(),
    ensures
        digits_value(d.take(i + 1)) == digits_value(d.take(i)) * 10 + (d[i] - 48) as nat,
{
    assert(d.take(i + 1).drop_last() =~= d.take(i));
}

proof fn lemma_digits_monotone(d: Seq<u8>, i: int)
    requires
        0 <= i <= d.len(),
        all_digits(d),
    ensures
        digits_value(d.take(i)) <= digits_value(d),
    decreases d.len() - i,
{
    if i < d.len() {
        lemma_digits_step(d, i);
        lemma_digits_monotone(d, i + 1);
    } else {
        assert(d.take(i) =~= d);
    }
}

/// The unsigned number that `s[a..b]` holds, if at most `max`; see
/// `parse_unsigned`.
pub fn number(s: &[u8], a: usize, b: usize, max: u64) -> (r: Option<u64>)
    requires
        a <= b <= s@.len(),
    ensures
        match r {
            Some(v) => parse_unsigned(s@.subrange(a as int, b as int), max as nat) == Some(v as nat),
            None => parse_unsigned(s@.subrange(a as int, b as int), max as nat) is None,
        },
{
    let ghost whole = s@.subrange(a as int, b as int);
    let start = if a < b && s[a] == 43 {
        a + 1
    } else {
        a
    };
    let ghost d = s@.subrange(start as int, b as int);
    assert(d == if whole.len() > 0 && whole[0] == 43 {
        whole.drop_first()
    } else {
        whole
    });
    if start >= b {
        return None;
    }
    let mut acc: u64 = 0;
    let mut i = start;
    while i < b
        invariant
            start <= i <= b <= s@.len(),
            start < b,
            d == s@.subrange(start as int, b as int),
            whole == s@.subrange(a as int, b as int),
            d == (if whole.len() > 0 && whole[0] == 43 {
                whole.drop_first()
            } else {
                whole
            }),
            acc as nat == digits_value(d.take(i - start)),
            acc <= max,
            all_digits(d.take(i - start)),
        decreases b - i,
    {
        let c = s[i];
        proof {
            lemma_digits_step(d, i - start);
            assert(d[i - start] == c);
        }
        if c < 48 || c > 57 {
            assert(!(48 <= d[i - start] <= 57));
            assert(!all_digits(d));
            return None;
        }
        let dig = (c - 48) as u64;
        if dig > max || acc > (max - dig) / 10 {
            proof {
                assert(acc * 10 + dig > max) by (nonlinear_arith)
                    requires
                        dig > max || acc > (max - dig) / 10,
                        acc >= 0,
                ;
                assert forall|j: int| 0 <= j < i + 1 - start implies 48 <= #[trigger] d.take(
                    i + 1 - start,
                )[j] <= 57 by {
                    if j < i - start {
                        assert(d.take(i + 1 - start)[j] == d.take(i - start)[j]);
                    }
                }
                if all_digits(d) {
                    lemma_digits_monotone(d, i + 1 - start);
                }
            }
            return None;
        }
        proof {
            assert(acc * 10 + dig <= max) by (nonlinear_arith)
                requires
                    acc <= (max - dig) / 10,
                    dig <= max,
            ;
            assert forall|j: int| 0 <= j < i + 1 - start implies 48 <= #[trigger] d.take(
                i + 1 - start,
            )[j] <= 57 by {
                if j < i - start {
                    assert(d.take(i + 1 - start)[j] == d.take(i - start)[j]);
                }
            }
        }
        acc = acc * 10 + dig;
        i = i + 1;
    }
    assert(d.take(b - start) =~= d);
    Some(acc)
}

/// Copies `s[a..b]` into a fresh vector.
pub fn copy_range(s: &[u8], a: usize, b: usize) -> (r: Vec<u8>)
    requires
        a <= b <= s@.len(),
    ensures
        r@ == s@.subrange(a as int, b as int),
{
    let mut r: Vec<u8> = Vec::new();
    let mut i = a;
    while i < b
        invariant
            a <= i <= b <= s@.len(),
            r@ == s@.subrange(a as int, i as int),
        decreases b - i,
    {
        r.push(s[i]);
        i = i + 1;
        assert(r@ =~= s@.subrange(a as int, i as int));
    }
    r
}

/// Calls `String::from_utf8`: `Ok` exactly when the bytes are UTF-8, and
/// then the string whose encoding they are.
#[verifier::external_body]
fn string_from_utf8(bytes: Vec<u8>) -> (r: Option<String>)
    ensures
        r is Some <==> valid_utf8(bytes@),
        r matches Some(t) ==> t@ == decode_utf8(bytes@),
{
    String::from_utf8(bytes).ok()
}

/// The text that `s[a..b]` holds, if it is UTF-8.
pub fn text(s: &[u8], a: usize, b: usize) -> (r: Option<String>)
    requires
        a <= b <= s@.len(),
    ensures
        match r {
            Some(t) => spec_text(s@, a as int, b as int) == Some(t@),
            None => spec_text(s@, a as int, b as int) is None,
        },
{
    string_from_utf8(copy_range(s, a, b))
}


// ======================================
// => Facts for reading back what was written
// ======================================
/// `x` stands in `s` at `pos`.
pub open spec fn occurs(s: Seq<u8>, pos: int, x: Seq<u8>) -> bool {
    0 <= pos && pos + x.len() <= s.len() && s.subrange(pos, pos + x.len()) == x
}

/// The encoding of two character sequences one after the other is the
/// encoding of the first followed by that of the second.
pub broadcast proof fn lemma_lit_concat(a: Seq<char>, b: Seq<char>)
    ensures
        #[trigger] lit(a + b) == lit(a) + lit(b),
    decreases a.len(),
{
    if a.len() == 0 {
        assert(a + b =~= b);
        assert(lit(a) =~= Seq::<u8>::empty());
        assert(lit(a) + lit(b) =~= lit(b));
    } else {
        lemma_lit_concat(a.drop_first(), b);
        assert((a + b).drop_first() =~= a.drop_first() + b);
        assert((a + b)[0] == a[0]);
        assert(encode_utf8(a + b) == encode_scalar((a + b)[0] as u32) + encode_utf8(
            (a + b).drop_first(),
        ));
        assert(encode_utf8(a) == encode_scalar(a[0] as u32) + encode_utf8(a.drop_first()));
        assert(lit(a + b) =~= lit(a) + lit(b));
    }
}

/// Two pieces one after the other stand in `s` one after the other.
pub proof fn lemma_occurs_split(s: Seq<u8>, pos: int, x: Seq<u8>, y: Seq<u8>)
    requires
        occurs(s, pos, x + y),
    ensures
        occurs(s, pos, x),
        occurs(s, pos + x.len(), y),
{
    assert(s.subrange(pos, pos + x.len()) =~= (x + y).subrange(0, x.len() as int));
    assert((x + y).subrange(0, x.len() as int) =~= x);
    assert(s.subrange(pos + x.len(), pos + x.len() + y.len()) =~= (x + y).subrange(
        x.len() as int,
        (x + y).len() as int,
    ));
    assert((x + y).subrange(x.len() as int, (x + y).len() as int) =~= y);
}

/// A tag that stands in `s` is read.
pub proof fn lemma_tag_occurs(s: Seq<u8>, pos: int, t: Seq<u8>)
    requires
        occurs(s, pos, t),
    ensures
        spec_tag(s, pos, t) == Some(pos + t.len()),
{
}

/// A tag is not read where one of its bytes differs from the input.
pub proof fn lemma_tag_differs(s: Seq<u8>, pos: int, t: Seq<u8>, i: int)
    requires
        0 <= i < t.len(),
        0 <= pos,
        pos + i < s.len(),
        s[pos + i] != t[i],
    ensures
        spec_tag(s, pos, t) is None,
{
    if pos + t.len() <= s.len() {
        assert(s.subrange(pos, pos + t.len())[i] == s[pos + i]);
    }
}

/// The encoding of an ASCII character is its code as a single byte.
pub proof fn lemma_lit_ascii_char(c: char)
    requires
        (c as u32) < 0x80,
    ensures
        lit(seq![c]) == seq![c as u8],
{
    let v = c as u32;
    assert(v & 0x7F == v) by (bit_vector)
        requires
            v < 0x80,
    ;
    assert(seq![c].drop_first() =~= Seq::<char>::empty());
    assert(encode_utf8(seq![c]) == encode_scalar(seq![c][0] as u32) + encode_utf8(
        seq![c].drop_first(),
    ));
    assert(lit(seq![c]) =~= seq![c as u8]);
}

/// The encoding of ASCII characters is their codes, one byte each.
pub proof fn lemma_lit_ascii(cs: Seq<char>)
    requires
        is_ascii_chars(cs),
    ensures
        lit(cs).len() == cs.len(),
        forall|i: int| 0 <= i < cs.len() ==> #[trigger] lit(cs)[i] == cs[i] as u8,
{
    is_ascii_chars_encode_utf8(cs);
}

/// No byte of the encoding of `cs` is ']' when no character of it is.
pub proof fn lemma_lit_no_close(cs: Seq<char>)
    requires
        !cs.contains(']'),
    ensures
        forall|i: int| 0 <= i < lit(cs).len() ==> #[trigger] lit(cs)[i] != 93,
    decreases cs.len(),
{
    if cs.len() > 0 {
        assert(!cs.drop_first().contains(']')) by {
            if cs.drop_first().contains(']') {
                let k = choose|k: int| 0 <= k < cs.drop_first().len() && cs.drop_first()[k] == ']';
                assert(cs[k + 1] == ']');
            }
        }
        lemma_lit_no_close(cs.drop_first());
        let v = cs[0] as u32;
        assert(cs[0] != ']');
        assert(v != 93) by {
            char_is_scalar(cs[0]);
            if v == 93 {
                char_u32_cast(cs[0], v);
                assert(93u32 as char == ']');
            }
        }
        let head = encode_scalar(v);
        assert(forall|i: int| 0 <= i < head.len() ==> #[trigger] head[i] != 93) by {
            if has_width_1_encoding(v) {
                assert((v & 0x7F) as u8 != 93) by (bit_vector)
                    requires
                        v <= 0x7F,
                        v != 93,
                ;
            } else {
                assert((0xC0 | ((v >> 6) & 0x1F) as u8) as u8 != 93) by (bit_vector);
                assert((0xE0 | ((v >> 12) & 0x0F) as u8) as u8 != 93) by (bit_vector);
                assert((0xF0 | ((v >> 18) & 0x7) as u8) as u8 != 93) by (bit_vector);
                assert((0x80 | (v & 0x3F) as u8) as u8 != 93) by (bit_vector);
                assert((0x80 | ((v >> 6) & 0x3F) as u8) as u8 != 93) by (bit_vector);
                assert((0x80 | ((v >> 12) & 0x3F) as u8) as u8 != 93) by (bit_vector);
            }
        }
        assert(lit(cs) == head + lit(cs.drop_first()));
        assert forall|i: int| 0 <= i < lit(cs).len() implies #[trigger] lit(cs)[i] != 93 by {
            if i < head.len() {
                assert(lit(cs)[i] == head[i]);
            } else {
                assert(lit(cs)[i] == lit(cs.drop_first())[i - head.len()]);
            }
        }
    }
}

/// Scanning for ']' over bytes that hold none stops right after them.
pub proof fn lemma_scan_over(s: Seq<u8>, pos: int, v: Seq<u8>)
    requires
        occurs(s, pos, v + seq![93u8]),
        forall|i: int| 0 <= i < v.len() ==> #[trigger] v[i] != 93,
    ensures
        scan_to(s, pos, 93, 93) == pos + v.len(),
    decreases v.len(),
{
    assert(s.subrange(pos, pos + v.len() + 1)[v.len() as int] == s[pos + v.len()]);
    assert(s[pos + v.len()] == (v + seq![93u8])[v.len() as int]);
    if v.len() > 0 {
        assert(s.subrange(pos, pos + v.len() + 1)[0] == s[pos]);
        assert(s[pos] == v[0]);
        assert(seq![v[0]] + (v.drop_first() + seq![93u8]) =~= v + seq![93u8]);
        lemma_occurs_split(s, pos, seq![v[0]], v.drop_first() + seq![93u8]);
        lemma_scan_over(s, pos + 1, v.drop_first());
    }
}

/// Scanning for `d` or `e` over bytes that hold neither, followed by `d`,
/// stops right after them.
pub proof fn lemma_scan_to_delim(s: Seq<u8>, pos: int, v: Seq<u8>, d: u8, e: u8)
    requires
        occurs(s, pos, v + seq![d]),
        forall|i: int| 0 <= i < v.len() ==> #[trigger] v[i] != d && v[i] != e,
    ensures
        scan_to(s, pos, d, e) == pos + v.len(),
    decreases v.len(),
{
    assert(s.subrange(pos, pos + v.len() + 1)[v.len() as int] == s[pos + v.len()]);
    assert(s[pos + v.len()] == (v + seq![d])[v.len() as int]);
    if v.len() > 0 {
        assert(s.subrange(pos, pos + v.len() + 1)[0] == s[pos]);
        assert(s[pos] == v[0]);
        assert(seq![v[0]] + (v.drop_first() + seq![d]) =~= v + seq![d]);
        lemma_occurs_split(s, pos, seq![v[0]], v.drop_first() + seq![d]);
        lemma_scan_to_delim(s, pos + 1, v.drop_first(), d, e);
    }
}

/// A scan never ends before where it starts.
pub proof fn lemma_scan_from(s: Seq<u8>, pos: int, a: u8, b: u8)
    requires
        0 <= pos,
    ensures
        scan_to(s, pos, a, b) >= pos,
        pos <= s.len() ==> scan_to(s, pos, a, b) <= s.len(),
    decreases s.len() - pos,
{
    if pos < s.len() && s[pos] != a && s[pos] != b {
        lemma_scan_from(s, pos + 1, a, b);
    }
}

/// No number is read from bytes that start with neither a digit nor '+'.
pub proof fn lemma_not_a_number(s: Seq<u8>, a: int, e: int, max: nat)
    requires
        0 <= a < e <= s.len(),
        !(48 <= s[a] <= 57),
        s[a] != 43,
    ensures
        parse_unsigned(s.subrange(a, e), max) is None,
{
    assert(s.subrange(a, e)[0] == s[a]);
}

/// A written field `NAME=[VALUE]` is read back when the value holds no ']'.
pub proof fn lemma_field_occurs(s: Seq<u8>, pos: int, name: Seq<u8>, v: Seq<u8>)
    requires
        occurs(s, pos, name + seq![91u8] + v + seq![93u8]),
        forall|i: int| 0 <= i < v.len() ==> #[trigger] v[i] != 93,
    ensures
        spec_field(s, pos, name) == Some(
            (pos + name.len() + 1, pos + name.len() + 1 + v.len(), pos + name.len() + 1 + v.len()
                + 1),
        ),
        occurs(s, pos + name.len() + 1, v),
{
    assert(name + seq![91u8] + v + seq![93u8] =~= name + (seq![91u8] + (v + seq![93u8])));
    lemma_occurs_split(s, pos, name, seq![91u8] + (v + seq![93u8]));
    lemma_occurs_split(s, pos + name.len(), seq![91u8], v + seq![93u8]);
    assert(s.subrange(pos + name.len(), pos + name.len() + 1)[0] == s[pos + name.len()]);
    assert(s[pos + name.len()] == 91);
    lemma_scan_over(s, pos + name.len() + 1, v);
    lemma_occurs_split(s, pos + name.len() + 1, v, seq![93u8]);
}

/// Text that was written in UTF-8 is read back.
pub proof fn lemma_text_occurs(s: Seq<u8>, a: int, cs: Seq<char>)
    requires
        occurs(s, a, lit(cs)),
    ensures
        spec_text(s, a, a + lit(cs).len()) == Some(cs),
{
    encode_utf8_valid_utf8(cs);
    encode_utf8_decode_utf8(cs);
}

/// A number that was written in decimal is read back.
pub proof fn lemma_number_occurs(s: Seq<u8>, a: int, n: nat, max: nat)
    requires
        occurs(s, a, lit(decimal(n))),
        n <= max,
    ensures
        parse_unsigned(s.subrange(a, a + lit(decimal(n)).len()), max) == Some(n),
{
    lemma_parse_decimal(n, max);
}

/// The decimal digits of a number, as bytes, read back as that number.
pub proof fn lemma_parse_decimal(n: nat, max: nat)
    requires
        n <= max,
    ensures
        parse_unsigned(lit(decimal(n)), max) == Some(n),
{
    lemma_decimal_ascii(n);
    let d = lit(decimal(n));
    assert(d[0] != 43);
    lemma_digits_of_decimal(n);
}

/// The digits of a decimal number are ASCII, one byte each.
pub proof fn lemma_decimal_ascii(n: nat)
    ensures
        forall|i: int| 0 <= i < decimal(n).len() ==> (#[trigger] decimal(n)[i] as u32) < 0x80,
        lit(decimal(n)).len() == decimal(n).len(),
        forall|i: int|
            0 <= i < decimal(n).len() ==> #[trigger] lit(decimal(n))[i] == decimal(n)[i] as u8,
        forall|i: int| 0 <= i < decimal(n).len() ==> 48 <= #[trigger] lit(decimal(n))[i] <= 57,
{
    lemma_decimal_digits(n);
    assert forall|i: int| 0 <= i < decimal(n).len() implies (#[trigger] decimal(n)[i] as u32)
        < 0x80 by {
        assert('0' <= decimal(n)[i] <= '9');
    }
    assert(is_ascii_chars(decimal(n)));
    lemma_lit_ascii(decimal(n));
    assert forall|i: int| 0 <= i < decimal(n).len() implies 48 <= #[trigger] lit(decimal(n))[i]
        <= 57 by {
        assert('0' <= decimal(n)[i] <= '9');
        assert(lit(decimal(n))[i] == decimal(n)[i] as u8);
    }
}

proof fn lemma_digits_of_decimal(n: nat)
    ensures
        digits_value(lit(decimal(n))) == n,
        all_digits(lit(decimal(n))),
        lit(decimal(n)).len() > 0,
    decreases n,
{
    lemma_decimal_ascii(n);
    lemma_decimal_digits(n);
    if n >= 10 {
        lemma_digits_of_decimal(n / 10);
        lemma_decimal_ascii(n / 10);
        let d = lit(decimal(n));
        assert(decimal(n) == decimal(n / 10).push(digit_char(n % 10)));
        assert(d.drop_last() =~= lit(decimal(n / 10))) by {
            assert forall|i: int| 0 <= i < d.len() - 1 implies #[trigger] d.drop_last()[i] == lit(
                decimal(n / 10),
            )[i] by {
                assert(decimal(n)[i] == decimal(n / 10)[i]);
            }
        }
        assert(d.last() == decimal(n)[decimal(n).len() - 1] as u8);
        assert(decimal(n)[decimal(n).len() - 1] == digit_char(n % 10));
        assert(digit_char(n % 10) as u8 == 48 + n % 10);
        assert(d.last() == 48 + n % 10);
        assert(digits_value(d) == digits_value(d.drop_last()) * 10 + (d.last() - 48) as nat);
        assert(n == (n / 10) * 10 + n % 10);
    } else {
        let d = lit(decimal(n));
        assert(d.drop_last() =~= Seq::<u8>::empty());
        assert(d[0] == digit_char(n) as u8);
        assert(digit_char(n) as u8 == 48 + n);
        assert(digits_value(d) == digits_value(d.drop_last()) * 10 + (d.last() - 48) as nat);
    }
}

} // verus!
