//! Text helpers: decimal numerals, whitespace, and splitting a command line
//! into words.
use vstd::prelude::*;
use vstd::utf8::encode_utf8;

verus! {

// ======================================
// => Decimal numerals
// ======================================
/// The character of decimal digit `d`.
pub open spec fn digit_char(d: nat) -> char
    recommends
        d < 10,
{
    (48 + d) as char
}

/// The decimal numeral of `n`, without sign or leading zeros.
pub open spec fn decimal(n: nat) -> Seq<char>
    decreases n,
{
    if n < 10 {
        seq![digit_char(n)]
    } else {
        decimal(n / 10).push(digit_char(n % 10))
    }
}

/// The text of digit `d` as a string slice.
fn digit_str(d: u64) -> (r: &'static str)
    requires
        d < 10,
    ensures
        r@ == seq![digit_char(d as nat)],
{
    proof {
        reveal_strlit("0");
        reveal_strlit("1");
        reveal_strlit("2");
        reveal_strlit("3");
        reveal_strlit("4");
        reveal_strlit("5");
        reveal_strlit("6");
        reveal_strlit("7");
        reveal_strlit("8");
        reveal_strlit("9");
    }
    if d == 0 {
        "0"
    } else if d == 1 {
        "1"
    } else if d == 2 {
        "2"
    } else if d == 3 {
        "3"
    } else if d == 4 {
        "4"
    } else if d == 5 {
        "5"
    } else if d == 6 {
        "6"
    } else if d == 7 {
        "7"
    } else if d == 8 {
        "8"
    } else {
        "9"
    }
}

/// Appends the decimal numeral of `n` to `out`.
pub fn push_decimal(out: &mut String, n: u64)
    ensures
        final(out)@ == old(out)@ + decimal(n as nat),
    decreases n,
{
    if n >= 10 {
        push_decimal(out, n / 10);
    }
    out.append(digit_str(n % 10));
    assert(old(out)@ + decimal(n as nat) =~= if n >= 10 {
        old(out)@ + decimal((n / 10) as nat) + seq![digit_char((n % 10) as nat)]
    } else {
        old(out)@ + seq![digit_char((n % 10) as nat)]
    });
}

/// The decimal numeral of `n`.
pub fn decimal_string(n: u64) -> (r: String)
    ensures
        r@ == decimal(n as nat),
{
    let mut s = String::new();
    push_decimal(&mut s, n);
    assert(s@ =~= decimal(n as nat));
    s
}

/// The decimal numeral of a signed `n`, with a leading '-' when negative.
pub open spec fn signed_decimal(n: int) -> Seq<char> {
    if n < 0 {
        seq!['-'] + decimal((-n) as nat)
    } else {
        decimal(n as nat)
    }
}

/// The decimal numeral of `n`, with a leading '-' when negative.
pub fn signed_decimal_string(n: i64) -> (r: String)
    ensures
        r@ == signed_decimal(n as int),
{
    let mut s = String::new();
    if n < 0 {
        s.append("-");
        proof {
            reveal_strlit("-");
        }
        let magnitude: u64 = if n == i64::MIN {
            9223372036854775808u64
        } else {
            (-n) as u64
        };
        push_decimal(&mut s, magnitude);
    } else {
        push_decimal(&mut s, n as u64);
    }
    assert(s@ =~= signed_decimal(n as int));
    s
}

/// Every character of the decimal numeral of `n` is an ASCII digit, and
/// the first one is not '+'.
pub proof fn lemma_decimal_digits(n: nat)
    ensures
        decimal(n).len() >= 1,
        forall|i: int| 0 <= i < decimal(n).len() ==> '0' <= #[trigger] decimal(n)[i] <= '9',
    decreases n,
{
    if n >= 10 {
        lemma_decimal_digits(n / 10);
    }
}

// ======================================
// => Whitespace
// ======================================
/// The characters with the Unicode `White_Space` property, which
/// `char::is_whitespace` and `str::trim` go by.
pub open spec fn is_whitespace(c: char) -> bool {
    ||| '\u{9}' <= c <= '\u{d}'
    ||| c == ' '
    ||| c == '\u{85}'
    ||| c == '\u{a0}'
    ||| c == '\u{1680}'
    ||| '\u{2000}' <= c <= '\u{200a}'
    ||| c == '\u{2028}'
    ||| c == '\u{2029}'
    ||| c == '\u{202f}'
    ||| c == '\u{205f}'
    ||| c == '\u{3000}'
}

/// Whether `c` is whitespace in the sense of `char::is_whitespace`.
pub fn char_is_whitespace(c: char) -> (r: bool)
    ensures
        r == is_whitespace(c),
{
    ('\u{9}' <= c && c <= '\u{d}') || c == ' ' || c == '\u{85}' || c == '\u{a0}' || c
        == '\u{1680}' || ('\u{2000}' <= c && c <= '\u{200a}') || c == '\u{2028}' || c
        == '\u{2029}' || c == '\u{202f}' || c == '\u{205f}' || c == '\u{3000}'
}

/// The number of leading whitespace characters of `s`.
pub open spec fn leading_ws(s: Seq<char>) -> nat
    decreases s.len(),
{
    if s.len() > 0 && is_whitespace(s[0]) {
        1 + leading_ws(s.drop_first())
    } else {
        0
    }
}

/// The number of trailing whitespace characters of `s`.
pub open spec fn trailing_ws(s: Seq<char>) -> nat
    decreases s.len(),
{
    if s.len() > 0 && is_whitespace(s.last()) {
        1 + trailing_ws(s.drop_last())
    } else {
        0
    }
}

/// `s` without its leading whitespace, as `str::trim_start` gives it.
pub open spec fn trim_start(s: Seq<char>) -> Seq<char> {
    s.skip(leading_ws(s) as int)
}

/// `s` without its trailing whitespace, as `str::trim_end` gives it.
pub open spec fn trim_end(s: Seq<char>) -> Seq<char> {
    s.take(s.len() - trailing_ws(s))
}

/// `s` without leading and trailing whitespace, as `str::trim` gives it.
pub open spec fn trim(s: Seq<char>) -> Seq<char> {
    trim_end(trim_start(s))
}

proof fn lemma_leading_ws(s: Seq<char>)
    ensures
        leading_ws(s) <= s.len(),
        forall|i: int| 0 <= i < leading_ws(s) ==> is_whitespace(#[trigger] s[i]),
        leading_ws(s) < s.len() ==> !is_whitespace(s[leading_ws(s) as int]),
    decreases s.len(),
{
    if s.len() > 0 && is_whitespace(s[0]) {
        lemma_leading_ws(s.drop_first());
        assert forall|i: int| 0 <= i < leading_ws(s) implies is_whitespace(#[trigger] s[i]) by {
            if i > 0 {
                assert(s[i] == s.drop_first()[i - 1]);
            }
        }
    }
}

proof fn lemma_trailing_ws(s: Seq<char>)
    ensures
        trailing_ws(s) <= s.len(),
        forall|i: int| s.len() - trailing_ws(s) <= i < s.len() ==> is_whitespace(#[trigger] s[i]),
        trailing_ws(s) < s.len() ==> !is_whitespace(s[s.len() - trailing_ws(s) - 1]),
    decreases s.len(),
{
    if s.len() > 0 && is_whitespace(s.last()) {
        lemma_trailing_ws(s.drop_last());
        assert forall|i: int| s.len() - trailing_ws(s) <= i < s.len() implies is_whitespace(
            #[trigger] s[i],
        ) by {
            if i < s.len() - 1 {
                assert(s[i] == s.drop_last()[i]);
            }
        }
    }
}

/// Characterizes the count of leading whitespace by its two defining facts.
proof fn lemma_leading_ws_unique(s: Seq<char>, k: int)
    requires
        0 <= k <= s.len(),
        forall|i: int| 0 <= i < k ==> is_whitespace(#[trigger] s[i]),
        k < s.len() ==> !is_whitespace(s[k]),
    ensures
        leading_ws(s) == k,
    decreases s.len(),
{
    if k > 0 {
        assert(is_whitespace(s[0]));
        assert forall|i: int| 0 <= i < k - 1 implies is_whitespace(#[trigger] s.drop_first()[i]) by {
            assert(s.drop_first()[i] == s[i + 1]);
        }
        if k - 1 < s.len() - 1 {
            assert(s.drop_first()[k - 1] == s[k]);
        }
        lemma_leading_ws_unique(s.drop_first(), k - 1);
    } else if s.len() > 0 {
        assert(!is_whitespace(s[0]));
    }
}

/// Characterizes the count of trailing whitespace by its two defining facts.
proof fn lemma_trailing_ws_unique(s: Seq<char>, k: int)
    requires
        0 <= k <= s.len(),
        forall|i: int| s.len() - k <= i < s.len() ==> is_whitespace(#[trigger] s[i]),
        k < s.len() ==> !is_whitespace(s[s.len() - k - 1]),
    ensures
        trailing_ws(s) == k,
    decreases s.len(),
{
    if k > 0 {
        assert(is_whitespace(s.last()));
        let t = s.drop_last();
        assert forall|i: int| t.len() - (k - 1) <= i < t.len() implies is_whitespace(
            #[trigger] t[i],
        ) by {
            assert(t[i] == s[i]);
        }
        if k - 1 < t.len() {
            assert(t[t.len() - (k - 1) - 1] == s[s.len() - k - 1]);
        }
        lemma_trailing_ws_unique(t, k - 1);
    } else if s.len() > 0 {
        assert(!is_whitespace(s.last()));
    }
}

/// The position of the first non-whitespace character of `s`, at or after `from`.
fn skip_ws_from(s: &str, from: usize) -> (r: usize)
    requires
        from <= s@.len(),
        forall|i: int| 0 <= i < from ==> is_whitespace(#[trigger] s@[i]),
    ensures
        r == leading_ws(s@),
{
    let n = s.unicode_len();
    let mut i = from;
    while i < n && char_is_whitespace(s.get_char(i))
        invariant
            from <= i <= n,
            n == s@.len(),
            forall|j: int| 0 <= j < i ==> is_whitespace(#[trigger] s@[j]),
        decreases n - i,
    {
        i = i + 1;
    }
    proof {
        lemma_leading_ws_unique(s@, i as int);
    }
    i
}

/// `s` with leading and trailing whitespace removed, as `str::trim` gives it.
pub fn trim_str(s: &str) -> (r: &str)
    ensures
        r@ == trim(s@),
{
    let n = s.unicode_len();
    let start = skip_ws_from(s, 0);
    proof {
        lemma_leading_ws(s@);
    }
    let mut end = n;
    while end > start && char_is_whitespace(s.get_char(end - 1))
        invariant
            start <= end <= n,
            n == s@.len(),
            start == leading_ws(s@),
            forall|j: int| end <= j < n ==> is_whitespace(#[trigger] s@[j]),
        decreases end,
    {
        end = end - 1;
    }
    proof {
        let t = trim_start(s@);
        lemma_leading_ws(s@);
        assert forall|i: int| t.len() - (n - end) <= i < t.len() implies is_whitespace(
            #[trigger] t[i],
        ) by {
            assert(t[i] == s@[i + start]);
        }
        if end > start {
            assert(t[t.len() - (n - end) - 1] == s@[end - 1]);
        }
        lemma_trailing_ws_unique(t, (n - end) as int);
        assert(s@.subrange(start as int, end as int) =~= trim(s@));
    }
    s.substring_char(start, end)
}

/// `s` with leading whitespace removed, as `str::trim_start` gives it.
pub fn trim_start_str(s: &str) -> (r: &str)
    ensures
        r@ == trim_start(s@),
{
    let n = s.unicode_len();
    let start = skip_ws_from(s, 0);
    proof {
        lemma_leading_ws(s@);
    }
    s.substring_char(start, n)
}

/// Whether `s` holds no character at all.
pub open spec fn is_blank(s: Seq<char>) -> bool {
    trim(s).len() == 0
}

/// Whether `s` is empty once leading and trailing whitespace is removed.
pub fn is_blank_str(s: &str) -> (r: bool)
    ensures
        r == is_blank(s@),
{
    trim_str(s).unicode_len() == 0
}

// ======================================
// => Words
// ======================================
/// The index of the first whitespace character of `s`, if there is one.
pub open spec fn first_ws(s: Seq<char>) -> Option<int> {
    if exists|i: int|
        0 <= i < s.len() && is_whitespace(#[trigger] s[i]) && forall|j: int|
            0 <= j < i ==> !is_whitespace(#[trigger] s[j]) {
        Some(
            choose|i: int|
                0 <= i < s.len() && is_whitespace(#[trigger] s[i]) && forall|j: int|
                    0 <= j < i ==> !is_whitespace(#[trigger] s[j]),
        )
    } else {
        None
    }
}

/// The first word of `s` and the rest after it, as `split_first_word`
/// gives them: `s` is trimmed; the word runs to the first whitespace, and
/// the rest starts at its first non-whitespace character after the word.
pub open spec fn first_word(s: Seq<char>) -> (Seq<char>, Seq<char>) {
    let t = trim(s);
    match first_ws(t) {
        Some(p) => (t.take(p), trim_start(t.skip(p))),
        None => (t, Seq::empty()),
    }
}

proof fn lemma_first_ws(s: Seq<char>, p: int)
    requires
        0 <= p <= s.len(),
        forall|j: int| 0 <= j < p ==> !is_whitespace(#[trigger] s[j]),
    ensures
        p < s.len() && is_whitespace(s[p]) ==> first_ws(s) == Some(p),
        p == s.len() ==> first_ws(s) is None,
{
    if p < s.len() && is_whitespace(s[p]) {
        let q = choose|i: int|
            0 <= i < s.len() && is_whitespace(#[trigger] s[i]) && forall|j: int|
                0 <= j < i ==> !is_whitespace(#[trigger] s[j]);
        assert(0 <= q < s.len() && is_whitespace(s[q]) && forall|j: int|
            0 <= j < q ==> !is_whitespace(#[trigger] s[j]));
        if q < p {
            assert(!is_whitespace(s[q]));
        }
        if p < q {
            assert(!is_whitespace(s[p]));
        }
    }
}

/// Splits `s` into its first word and the rest, both without surrounding
/// whitespace at the split.
pub fn split_first_word(s: &str) -> (r: (&str, &str))
    ensures
        (r.0@, r.1@) == first_word(s@),
{
    let t = trim_str(s);
    let n = t.unicode_len();
    let mut p: usize = 0;
    while p < n && !char_is_whitespace(t.get_char(p))
        invariant
            p <= n,
            n == t@.len(),
            forall|j: int| 0 <= j < p ==> !is_whitespace(#[trigger] t@[j]),
        decreases n - p,
    {
        p = p + 1;
    }
    proof {
        lemma_first_ws(t@, p as int);
    }
    if p < n {
        let word = t.substring_char(0, p);
        let rest = t.substring_char(p, n);
        let rest = trim_start_str(rest);
        proof {
            assert(t@.subrange(0, p as int) =~= t@.take(p as int));
            assert(t@.subrange(p as int, n as int) =~= t@.skip(p as int));
        }
        (word, rest)
    } else {
        proof {
            reveal_strlit("");
        }
        (t, "")
    }
}

/// At most `count` words of `text`, with the rest after the last of them, as
/// `split_opt_words` gives them.
pub open spec fn opt_words(count: nat, text: Seq<char>) -> (Seq<Seq<char>>, Seq<char>)
    decreases count,
{
    if count == 0 {
        (Seq::empty(), text)
    } else {
        let r = trim(text);
        if r.len() == 0 {
            (Seq::empty(), r)
        } else {
            let (w, rest) = first_word(r);
            let (ws, rest2) = opt_words((count - 1) as nat, rest);
            (seq![w] + ws, rest2)
        }
    }
}

/// The texts of a sequence of string slices.
pub open spec fn str_views(ws: Seq<&str>) -> Seq<Seq<char>> {
    ws.map_values(|w: &str| w@)
}

proof fn lemma_str_views_push(ws: Seq<&str>, w: &str)
    ensures
        str_views(ws.push(w)) == str_views(ws).push(w@),
{
    assert(str_views(ws.push(w)) =~= str_views(ws).push(w@));
}

/// One step of `opt_words` on a text whose trimmed form is not empty.
proof fn lemma_opt_words_step(k: nat, text: Seq<char>)
    requires
        k > 0,
        trim(text).len() > 0,
    ensures
        opt_words(k, text) == (
            seq![first_word(trim(text)).0] + opt_words((k - 1) as nat, first_word(trim(text)).1).0,
            opt_words((k - 1) as nat, first_word(trim(text)).1).1,
        ),
{
}

/// Parses at most `count` words from `text`, returning the words and the
/// rest. Ends early at the end of `text`; whitespace between words is
/// skipped.
pub fn split_opt_words(count: usize, text: &str) -> (r: (Vec<&str>, &str))
    ensures
        str_views(r.0@) == opt_words(count as nat, text@).0,
        r.1@ == opt_words(count as nat, text@).1,
{
    let mut words: Vec<&str> = Vec::new();
    if count == 0 {
        assert(str_views(words@) =~= Seq::<Seq<char>>::empty());
        return (words, text);
    }
    let mut rest = text;
    assert(str_views(words@) =~= Seq::<Seq<char>>::empty());
    loop
        invariant
            0 < count,
            words@.len() < count,
            opt_words(count as nat, text@).0 == str_views(words@) + opt_words(
                (count - words@.len()) as nat,
                rest@,
            ).0,
            opt_words(count as nat, text@).1 == opt_words((count - words@.len()) as nat, rest@).1,
        decreases count - words@.len(),
    {
        let ghost before = words@;
        let ghost rest_before = rest@;
        let ghost k = (count - words@.len()) as nat;
        rest = trim_str(rest);
        if rest.unicode_len() == 0 {
            assert(str_views(words@) + Seq::<Seq<char>>::empty() =~= str_views(words@));
            return (words, rest);
        }
        let (word, r) = split_first_word(rest);
        proof {
            lemma_opt_words_step(k, rest_before);
            lemma_str_views_push(before, word);
        }
        words.push(word);
        rest = r;
        proof {
            let tail = opt_words((k - 1) as nat, rest@);
            assert(str_views(before) + (seq![word@] + tail.0) =~= str_views(words@) + tail.0);
        }
        if words.len() >= count {
            assert(str_views(words@) + Seq::<Seq<char>>::empty() =~= str_views(words@));
            return (words, rest);
        }
    }
}

/// Trimming twice gives what trimming once gives.
pub proof fn lemma_trim_idempotent(s: Seq<char>)
    ensures
        trim(trim(s)) == trim(s),
{
    let t = trim(s);
    lemma_leading_ws(s);
    let a = trim_start(s);
    lemma_trailing_ws(a);
    lemma_leading_ws_unique(t, 0);
    assert(trim_start(t) =~= t);
    lemma_trailing_ws_unique(t, 0);
    assert(trim_end(t) =~= t);
}

// ======================================
// => Names
// ======================================
/// Whether some character of `s` is whitespace.
pub open spec fn has_whitespace(s: Seq<char>) -> bool {
    exists|i: int| 0 <= i < s.len() && is_whitespace(#[trigger] s[i])
}

/// Whether some character of `s` is whitespace.
pub fn str_has_whitespace(s: &str) -> (r: bool)
    ensures
        r == has_whitespace(s@),
{
    let n = s.unicode_len();
    let mut i: usize = 0;
    while i < n
        invariant
            i <= n,
            n == s@.len(),
            forall|j: int| 0 <= j < i ==> !is_whitespace(#[trigger] s@[j]),
        decreases n - i,
    {
        if char_is_whitespace(s.get_char(i)) {
            return true;
        }
        i = i + 1;
    }
    false
}

/// Whether `s` contains the character `c`.
pub fn str_contains_char(s: &str, c: char) -> (r: bool)
    ensures
        r == s@.contains(c),
{
    let n = s.unicode_len();
    let mut i: usize = 0;
    while i < n
        invariant
            i <= n,
            n == s@.len(),
            forall|j: int| 0 <= j < i ==> s@[j] != c,
        decreases n - i,
    {
        if s.get_char(i) == c {
            return true;
        }
        i = i + 1;
    }
    false
}


/// Whether `a` and `b` hold the same characters.
pub fn str_equal(a: &str, b: &str) -> (r: bool)
    ensures
        r == (a@ == b@),
{
    let n = a.unicode_len();
    if n != b.unicode_len() {
        return false;
    }
    let mut i: usize = 0;
    while i < n
        invariant
            i <= n,
            n == a@.len(),
            n == b@.len(),
            forall|j: int| 0 <= j < i ==> a@[j] == b@[j],
        decreases n - i,
    {
        if a.get_char(i) != b.get_char(i) {
            return false;
        }
        i = i + 1;
    }
    assert(a@ =~= b@);
    true
}

/// Whether `prefix` is a prefix of `s`.
pub open spec fn starts_with(s: Seq<char>, prefix: Seq<char>) -> bool {
    prefix.len() <= s.len() && s.take(prefix.len() as int) == prefix
}

/// Whether `s` starts with `prefix`.
pub fn str_starts_with(s: &str, prefix: &str) -> (r: bool)
    ensures
        r == starts_with(s@, prefix@),
{
    let n = prefix.unicode_len();
    if n > s.unicode_len() {
        return false;
    }
    let mut i: usize = 0;
    while i < n
        invariant
            i <= n,
            n == prefix@.len(),
            n <= s@.len(),
            forall|j: int| 0 <= j < i ==> s@[j] == prefix@[j],
        decreases n - i,
    {
        if s.get_char(i) != prefix.get_char(i) {
            return false;
        }
        i = i + 1;
    }
    assert(s@.take(n as int) =~= prefix@);
    true
}

/// The rest after the first word is shorter than any text that holds a
/// non-whitespace character.
pub proof fn lemma_first_word_shrinks(s: Seq<char>)
    requires
        !is_blank(s),
    ensures
        first_word(s).1.len() < s.len(),
        first_word(s).0.len() > 0,
{
    let t = trim(s);
    lemma_leading_ws(s);
    lemma_trailing_ws(trim_start(s));
    assert(t.len() <= s.len());
    match first_ws(t) {
        Some(p) => {
            assert(0 <= p < t.len() && is_whitespace(t[p]));
            if p == 0 {
                let a = trim_start(s);
                lemma_leading_ws(s);
                assert(t[0] == a[0]);
            }
            lemma_leading_ws(t.skip(p));
        },
        None => {},
    }
}


/// A word: at least one character, none of them whitespace.
pub open spec fn is_word(w: Seq<char>) -> bool {
    w.len() > 0 && forall|i: int| 0 <= i < w.len() ==> !is_whitespace(#[trigger] w[i])
}

/// Where no first whitespace character is found, there is none.
proof fn lemma_no_first_ws(s: Seq<char>, k: int)
    requires
        first_ws(s) is None,
        0 <= k <= s.len(),
    ensures
        forall|i: int| 0 <= i < k ==> !is_whitespace(#[trigger] s[i]),
    decreases k,
{
    if k > 0 {
        lemma_no_first_ws(s, k - 1);
        if is_whitespace(s[k - 1]) {
            assert(0 <= k - 1 < s.len() && is_whitespace(s[k - 1]) && forall|j: int|
                0 <= j < k - 1 ==> !is_whitespace(#[trigger] s[j]));
        }
    }
}

/// The first word of a text that is not blank is a word.
proof fn lemma_first_word_is_word(s: Seq<char>)
    requires
        !is_blank(s),
    ensures
        is_word(first_word(s).0),
{
    lemma_first_word_shrinks(s);
    let t = trim(s);
    match first_ws(t) {
        Some(p) => {
            assert(forall|j: int| 0 <= j < p ==> !is_whitespace(#[trigger] t[j]));
            assert(forall|i: int|
                0 <= i < t.take(p).len() ==> #[trigger] t.take(p)[i] == t[i]);
        },
        None => {
            lemma_no_first_ws(t, t.len() as int);
        },
    }
}

/// The whitespace-separated words of `s`, in order, as `str::split_whitespace`
/// gives them.
pub open spec fn words(s: Seq<char>) -> Seq<Seq<char>>
    decreases s.len(),
{
    if is_blank(s) {
        Seq::empty()
    } else {
        proof {
            lemma_first_word_shrinks(s);
        }
        seq![first_word(s).0] + words(first_word(s).1)
    }
}

/// A text whose first and last characters are not whitespace is its own
/// trimmed form.
proof fn lemma_trimmed(x: Seq<char>)
    requires
        x.len() > 0 ==> !is_whitespace(x[0]) && !is_whitespace(x.last()),
    ensures
        trim(x) == x,
{
    lemma_leading_ws_unique(x, 0);
    assert(trim_start(x) =~= x);
    lemma_trailing_ws_unique(x, 0);
    assert(trim_end(x) =~= x);
}

/// A trimmed text neither starts nor ends with whitespace.
proof fn lemma_trim_ends(s: Seq<char>)
    ensures
        trim(s).len() > 0 ==> !is_whitespace(trim(s)[0]) && !is_whitespace(trim(s).last()),
{
    lemma_leading_ws(s);
    let a = trim_start(s);
    lemma_trailing_ws(a);
    let t = trim(s);
    if t.len() > 0 {
        assert(t[0] == a[0]);
        assert(a[0] == s[leading_ws(s) as int]);
        assert(t.last() == a[a.len() - trailing_ws(a) - 1]);
    }
}

/// The first word of a text holds no whitespace and is empty exactly when
/// the text is blank. The trimmed text starts with it and, after it, either
/// ends or goes on with whitespace; the rest is what follows that
/// whitespace, and it is trimmed itself.
pub proof fn law_first_word(s: Seq<char>)
    ensures
        !has_whitespace(first_word(s).0),
        first_word(s).0.len() == 0 <==> is_blank(s),
        first_word(s).0.len() <= trim(s).len(),
        trim(s).take(first_word(s).0.len() as int) == first_word(s).0,
        first_word(s).0.len() < trim(s).len() ==> is_whitespace(
            trim(s)[first_word(s).0.len() as int],
        ),
        first_word(s).1 == trim_start(trim(s).skip(first_word(s).0.len() as int)),
        trim(first_word(s).1) == first_word(s).1,
{
    let t = trim(s);
    let (w, rest) = first_word(s);
    lemma_trim_ends(s);
    if !is_blank(s) {
        lemma_first_word_is_word(s);
    }
    match first_ws(t) {
        Some(p) => {
            assert(0 <= p < t.len() && is_whitespace(t[p]));
            assert(forall|j: int| 0 <= j < p ==> !is_whitespace(#[trigger] t[j]));
            assert(w =~= t.take(p));
            assert(forall|i: int| 0 <= i < w.len() ==> #[trigger] w[i] == t[i]);
            let u = t.skip(p);
            lemma_leading_ws(u);
            let k = leading_ws(u) as int;
            assert(rest =~= u.skip(k));
            if rest.len() > 0 {
                assert(rest[0] == u[k]);
                assert(rest.last() == t.last());
            }
            lemma_trimmed(rest);
        },
        None => {
            lemma_no_first_ws(t, t.len() as int);
            assert(w == t);
            assert(t.take(t.len() as int) =~= t);
            assert(t.skip(t.len() as int) =~= Seq::<char>::empty());
            assert(trim_start(Seq::<char>::empty()) =~= Seq::<char>::empty());
            lemma_trimmed(rest);
        },
    }
}

/// `split_opt_words` gives at most `count` words, each a word: it holds at
/// least one character and no whitespace. Those words followed by the words
/// of the rest are the words of the text. Where `count` is not zero, the
/// rest is trimmed, and it is empty where fewer than `count` words came.
pub proof fn law_opt_words(count: nat, text: Seq<char>)
    ensures
        opt_words(count, text).0.len() <= count,
        forall|i: int|
            0 <= i < opt_words(count, text).0.len() ==> is_word(
                #[trigger] opt_words(count, text).0[i],
            ),
        opt_words(count, text).0 + words(opt_words(count, text).1) == words(text),
        count > 0 ==> trim(opt_words(count, text).1) == opt_words(count, text).1,
        count > 0 && opt_words(count, text).0.len() < count ==> opt_words(count, text).1.len()
            == 0,
    decreases count,
{
    if count == 0 {
        assert(Seq::<Seq<char>>::empty() + words(text) =~= words(text));
    } else {
        let r = trim(text);
        lemma_trim_idempotent(text);
        if r.len() == 0 {
            assert(is_blank(r));
            assert(is_blank(text));
            assert(Seq::<Seq<char>>::empty() + words(r) =~= words(text));
        } else {
            let (w, rest) = first_word(r);
            assert(first_word(r) == first_word(text));
            lemma_first_word_is_word(r);
            law_first_word(r);
            law_opt_words((count - 1) as nat, rest);
            let (ws, rest2) = opt_words((count - 1) as nat, rest);
            assert forall|i: int| 0 <= i < (seq![w] + ws).len() implies is_word(
                #[trigger] (seq![w] + ws)[i],
            ) by {
                if i > 0 {
                    assert((seq![w] + ws)[i] == ws[i - 1]);
                }
            }
            assert(!is_blank(text));
            assert(words(text) == seq![w] + words(rest));
            assert(seq![w] + ws + words(rest2) =~= seq![w] + (ws + words(rest2)));
        }
    }
}

/// The number of bytes of the UTF-8 encoding of `s`, what `str::len` gives.
pub fn str_byte_len(s: &str) -> (r: usize)
    ensures
        r as int == encode_utf8(s@).len(),
{
    s.as_bytes().len()
}

} // verus!
