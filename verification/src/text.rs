//! Text: characters, trimming, splitting, and decimal numbers.
//!
//! Strings are read as sequences of characters. Each function here has a spec
//! function beside it that says what the text it returns is.
use vstd::prelude::*;
use vstd::utf8::{decode_utf8, valid_utf8};

verus! {

/// `String::push` appends one character.
pub assume_specification[ String::push ](s: &mut String, c: char)
    ensures
        final(s)@ == old(s)@.push(c),
;

/// The characters of a string, in order.
pub fn to_chars(s: &str) -> (r: Vec<char>)
    ensures
        r@ == s@,
{
    let mut v: Vec<char> = Vec::new();
    for c in it: s.chars()
        invariant
            it.seq() == s@,
            v@ == s@.take(it.index() as int),
    {
        v.push(c);
    }
    v
}

/// Whether two strings hold the same characters.
pub fn same(a: &str, b: &str) -> (r: bool)
    ensures
        r == (a@ == b@),
{
    a.to_owned() == b.to_owned()
}

/// The characters of an optional string.
pub open spec fn opt_text(s: Option<String>) -> Option<Seq<char>> {
    match s {
        Some(v) => Some(v@),
        None => None,
    }
}

/// The characters of an optional string slice.
pub open spec fn opt_str(s: Option<&str>) -> Option<Seq<char>> {
    match s {
        Some(v) => Some(v@),
        None => None,
    }
}

/// The texts of a list of strings.
pub open spec fn texts(v: Seq<String>) -> Seq<Seq<char>> {
    v.map_values(|s: String| s@)
}

/// The texts of a list of pairs.
pub open spec fn pairs(v: Seq<(String, String)>) -> Seq<(Seq<char>, Seq<char>)> {
    v.map_values(|p: (String, String)| (p.0@, p.1@))
}

/// A pair of strings.
pub fn pair(a: &str, b: &str) -> (r: (String, String))
    ensures
        r.0@ == a@,
        r.1@ == b@,
{
    (a.to_owned(), b.to_owned())
}

/// The string made of `chars[from..to]`.
pub fn collect(chars: &Vec<char>, from: usize, to: usize) -> (r: String)
    requires
        from <= to <= chars@.len(),
    ensures
        r@ == chars@.subrange(from as int, to as int),
{
    let mut s = String::new();
    let mut i: usize = from;
    while i < to
        invariant
            from <= i <= to <= chars@.len(),
            s@ == chars@.subrange(from as int, i as int),
        decreases to - i,
    {
        s.push(chars[i]);
        proof {
            assert(chars@.subrange(from as int, i as int).push(chars@[i as int])
                =~= chars@.subrange(from as int, i + 1));
        }
        i = i + 1;
    }
    s
}

/// `a` followed by `b`.
pub fn concat(a: &str, b: &str) -> (r: String)
    ensures
        r@ == a@ + b@,
{
    let mut s = a.to_owned();
    s.append(b);
    s
}

// ---------------------------------------------------------------------------
// UTF-8
// ---------------------------------------------------------------------------

/// What `String::from_utf8_lossy` makes of some bytes.
pub uninterp spec fn lossy_text(bytes: Seq<u8>) -> Seq<char>;

/// `String::from_utf8`: the text that the bytes encode, if they are UTF-8.
#[verifier::external_body]
pub(crate) fn utf8_string(bytes: Vec<u8>) -> (r: Option<String>)
    ensures
        match r {
            Some(s) => valid_utf8(bytes@) && s@ == decode_utf8(bytes@),
            None => !valid_utf8(bytes@),
        },
{
    String::from_utf8(bytes).ok()
}

/// `String::from_utf8_lossy`: the text that the bytes encode, which depends on
/// the bytes alone. Bytes that are UTF-8 give the text that they encode; how the
/// others are replaced is not said.
#[verifier::external_body]
pub(crate) fn utf8_lossy(bytes: &[u8]) -> (r: String)
    ensures
        r@ == lossy_text(bytes@),
        valid_utf8(bytes@) ==> r@ == decode_utf8(bytes@),
{
    String::from_utf8_lossy(bytes).to_string()
}

// ---------------------------------------------------------------------------
// White space and trimming
// ---------------------------------------------------------------------------

/// The characters with the Unicode property `White_Space`.
pub open spec fn is_white_space(c: char) -> bool {
    ||| '\u{9}' <= c <= '\u{d}'
    ||| c == ' '
    ||| c == '\u{85}'
    ||| c == '\u{a0}'
    ||| c == '\u{1680}'
    ||| '\u{2000}' <= c <= '\u{200a}'
    ||| c == '\u{2028}'
    ||| c == '\u{2029}'
    ||| c == '\u{202f}'
    ||| c == '\u{205f}'
    ||| c == '\u{3000}'
}

/// Whether a character is white space.
pub fn is_whitespace(c: char) -> (r: bool)
    ensures
        r == is_white_space(c),
{
    ('\u{9}' <= c && c <= '\u{d}') || c == ' ' || c == '\u{85}' || c == '\u{a0}' || c == '\u{1680}'
        || ('\u{2000}' <= c && c <= '\u{200a}') || c == '\u{2028}' || c == '\u{2029}' || c
        == '\u{202f}' || c == '\u{205f}' || c == '\u{3000}'
}

/// The length of the longest prefix of `s` whose characters all satisfy `p`.
pub open spec fn run_len(s: Seq<char>, p: spec_fn(char) -> bool) -> nat
    decreases s.len(),
{
    if s.len() > 0 && p(s[0]) {
        1 + run_len(s.drop_first(), p)
    } else {
        0
    }
}

/// `s` without the longest suffix whose characters all satisfy `p`.
pub open spec fn without_suffix(s: Seq<char>, p: spec_fn(char) -> bool) -> Seq<char>
    decreases s.len(),
{
    if s.len() > 0 && p(s.last()) {
        without_suffix(s.drop_last(), p)
    } else {
        s
    }
}

/// White space, as a predicate.
pub open spec fn white() -> spec_fn(char) -> bool {
    |c: char| is_white_space(c)
}

/// Anything but white space, as a predicate.
pub open spec fn not_white() -> spec_fn(char) -> bool {
    |c: char| !is_white_space(c)
}

/// Equality with one character, as a predicate.
pub open spec fn is_char(x: char) -> spec_fn(char) -> bool {
    |c: char| c == x
}

/// `s` without the white space in front of it.
pub open spec fn trimmed_start(s: Seq<char>) -> Seq<char> {
    s.skip(run_len(s, white()) as int)
}

/// `s` without the white space behind it.
pub open spec fn trimmed_end(s: Seq<char>) -> Seq<char> {
    without_suffix(s, white())
}

/// `s` without the white space on both sides.
pub open spec fn trimmed(s: Seq<char>) -> Seq<char> {
    trimmed_end(trimmed_start(s))
}

/// What `run_len` counts: every character of the prefix satisfies `p`, the next
/// one, if there is one, does not.
pub proof fn lemma_run_len(s: Seq<char>, p: spec_fn(char) -> bool)
    ensures
        run_len(s, p) <= s.len(),
        forall|i: int| 0 <= i < run_len(s, p) ==> p(#[trigger] s[i]),
        run_len(s, p) < s.len() ==> !p(s[run_len(s, p) as int]),
    decreases s.len(),
{
    if s.len() > 0 && p(s[0]) {
        lemma_run_len(s.drop_first(), p);
        assert forall|i: int| 0 <= i < run_len(s, p) implies p(#[trigger] s[i]) by {
            if i > 0 {
                assert(s.drop_first()[i - 1] == s[i]);
            }
        }
    }
}

/// A run is known by its end.
pub proof fn lemma_run_len_unique(s: Seq<char>, p: spec_fn(char) -> bool, n: int)
    requires
        0 <= n <= s.len(),
        forall|i: int| 0 <= i < n ==> p(#[trigger] s[i]),
        n < s.len() ==> !p(s[n]),
    ensures
        run_len(s, p) == n,
{
    lemma_run_len(s, p);
    if run_len(s, p) < n {
        assert(p(s[run_len(s, p) as int]));
    }
    if n < run_len(s, p) {
        assert(p(s[n]));
    }
}

/// A trimmed text is a prefix that does not end in a trimmed character.
pub proof fn lemma_without_suffix(s: Seq<char>, p: spec_fn(char) -> bool)
    ensures
        without_suffix(s, p).len() <= s.len(),
        without_suffix(s, p) == s.take(without_suffix(s, p).len() as int),
        without_suffix(s, p).len() > 0 ==> !p(without_suffix(s, p).last()),
        forall|i: int| without_suffix(s, p).len() <= i < s.len() ==> p(#[trigger] s[i]),
    decreases s.len(),
{
    if s.len() > 0 && p(s.last()) {
        lemma_without_suffix(s.drop_last(), p);
        let r = without_suffix(s, p);
        assert(s.drop_last().take(r.len() as int) =~= s.take(r.len() as int));
        assert forall|i: int| r.len() <= i < s.len() implies p(#[trigger] s[i]) by {
            if i < s.len() - 1 {
                assert(s.drop_last()[i] == s[i]);
            }
        }
    } else {
        assert(s.take(s.len() as int) =~= s);
    }
}

/// A suffix whose characters all satisfy `p` is trimmed with what is in front of it.
pub proof fn lemma_without_suffix_step(s: Seq<char>, p: spec_fn(char) -> bool, n: int)
    requires
        0 <= n <= s.len(),
        forall|i: int| n <= i < s.len() ==> p(#[trigger] s[i]),
    ensures
        without_suffix(s, p) == without_suffix(s.take(n), p),
    decreases s.len(),
{
    if n < s.len() {
        assert(p(s[s.len() - 1]));
        assert forall|i: int| n <= i < s.drop_last().len() implies p(
            #[trigger] s.drop_last()[i],
        ) by {
            assert(s.drop_last()[i] == s[i]);
        }
        lemma_without_suffix_step(s.drop_last(), p, n);
        assert(s.drop_last().take(n) =~= s.take(n));
    } else {
        assert(s.take(n) =~= s);
    }
}

/// The end of the run of characters from `from` on that are (`want`) or are not
/// (`!want`) white space.
fn white_run_end(chars: &Vec<char>, from: usize, want: bool) -> (r: usize)
    requires
        from <= chars@.len(),
    ensures
        from <= r <= chars@.len(),
        r - from == run_len(
            chars@.skip(from as int),
            if want {
                white()
            } else {
                not_white()
            },
        ),
{
    let ghost p = if want {
        white()
    } else {
        not_white()
    };
    let ghost s = chars@.skip(from as int);
    let mut i: usize = from;
    while i < chars.len() && is_whitespace(chars[i]) == want
        invariant
            from <= i <= chars@.len(),
            s == chars@.skip(from as int),
            p == if want {
                white()
            } else {
                not_white()
            },
            forall|j: int| 0 <= j < i - from ==> p(#[trigger] s[j]),
        decreases chars.len() - i,
    {
        assert(s[i - from] == chars@[i as int]);
        i = i + 1;
    }
    proof {
        if i < chars@.len() {
            assert(s[i - from] == chars@[i as int]);
        }
        lemma_run_len_unique(s, p, i - from);
    }
    i
}

/// The end of `chars[from..to]` without its trailing white space.
fn white_trim_end(chars: &Vec<char>, from: usize, to: usize) -> (r: usize)
    requires
        from <= to <= chars@.len(),
    ensures
        from <= r <= to,
        trimmed_end(chars@.subrange(from as int, to as int)) == chars@.subrange(
            from as int,
            r as int,
        ),
{
    let mut i: usize = to;
    let ghost s = chars@.subrange(from as int, to as int);
    while i > from && is_whitespace(chars[i - 1])
        invariant
            from <= i <= to <= chars@.len(),
            s == chars@.subrange(from as int, to as int),
            forall|j: int| i - from <= j < s.len() ==> white()(#[trigger] s[j]),
        decreases i - from,
    {
        i = i - 1;
        assert(s[i - from] == chars@[i as int]);
    }
    proof {
        lemma_without_suffix_step(s, white(), i - from);
        let t = s.take(i - from);
        assert(t =~= chars@.subrange(from as int, i as int));
        if t.len() > 0 {
            assert(t.last() == chars@[i - 1]);
        }
        assert(without_suffix(t, white()) == t);
    }
    i
}

/// `str::trim`: the text without the white space on both sides.
pub fn trim<'a>(s: &'a str) -> (r: &'a str)
    ensures
        r@ == trimmed(s@),
{
    let chars = to_chars(s);
    let from = white_run_end(&chars, 0, true);
    let to = white_trim_end(&chars, from, chars.len());
    proof {
        assert(chars@.skip(0) =~= chars@);
        assert(chars@.subrange(from as int, chars@.len() as int) =~= trimmed_start(s@));
    }
    s.substring_char(from, to)
}

/// `str::trim_end`: the text without the white space behind it.
pub fn trim_end<'a>(s: &'a str) -> (r: &'a str)
    ensures
        r@ == trimmed_end(s@),
{
    let chars = to_chars(s);
    let to = white_trim_end(&chars, 0, chars.len());
    proof {
        assert(chars@.subrange(0, chars@.len() as int) =~= s@);
    }
    s.substring_char(0, to)
}

/// `str::trim_end_matches` with one character.
pub fn trim_end_char<'a>(s: &'a str, x: char) -> (r: &'a str)
    ensures
        r@ == without_suffix(s@, is_char(x)),
{
    let chars = to_chars(s);
    let mut i: usize = chars.len();
    while i > 0 && chars[i - 1] == x
        invariant
            i <= chars@.len(),
            chars@ == s@,
            forall|j: int| i <= j < s@.len() ==> is_char(x)(#[trigger] s@[j]),
        decreases i,
    {
        i = i - 1;
    }
    proof {
        lemma_without_suffix_step(s@, is_char(x), i as int);
        let t = s@.take(i as int);
        assert(without_suffix(t, is_char(x)) == t);
        assert(s@.subrange(0, i as int) =~= t);
    }
    s.substring_char(0, i)
}

/// Whether the text is white space throughout.
pub fn is_blank(s: &str) -> (r: bool)
    ensures
        r == (trimmed(s@).len() == 0),
{
    trim(s).is_empty()
}

// ---------------------------------------------------------------------------
// Prefixes, suffixes and parts
// ---------------------------------------------------------------------------

/// Whether `s` ends with `suffix`.
pub open spec fn has_suffix(s: Seq<char>, suffix: Seq<char>) -> bool {
    suffix.len() <= s.len() && s.skip(s.len() - suffix.len()) == suffix
}

/// Whether `part` occurs in `s`, starting at `i`.
pub open spec fn occurs_at(s: Seq<char>, part: Seq<char>, i: int) -> bool {
    0 <= i <= s.len() - part.len() && s.subrange(i, i + part.len()) == part
}

/// Whether `part` occurs in `s`.
pub open spec fn occurs_in(s: Seq<char>, part: Seq<char>) -> bool {
    exists|i: int| occurs_at(s, part, i)
}

/// Whether `chars` holds `part` at `at`.
fn matches_at(chars: &Vec<char>, part: &Vec<char>, at: usize) -> (r: bool)
    requires
        at + part@.len() <= chars@.len(),
    ensures
        r == (chars@.subrange(at as int, at + part@.len()) == part@),
{
    let n: usize = chars.len();
    let mut i: usize = 0;
    while i < part.len()
        invariant
            i <= part@.len(),
            n == chars@.len(),
            at + part@.len() <= n,
            forall|j: int| 0 <= j < i ==> chars@[at + j] == part@[j],
        decreases part.len() - i,
    {
        if chars[at + i] != part[i] {
            proof {
                assert(chars@.subrange(at as int, at + part@.len())[i as int] == chars@[at + i]);
            }
            return false;
        }
        i = i + 1;
    }
    proof {
        assert(chars@.subrange(at as int, at + part@.len()) =~= part@);
    }
    true
}

/// `str::ends_with`.
pub fn ends_with(s: &str, suffix: &str) -> (r: bool)
    ensures
        r == has_suffix(s@, suffix@),
{
    let chars = to_chars(s);
    let part = to_chars(suffix);
    if part.len() > chars.len() {
        return false;
    }
    let at: usize = chars.len() - part.len();
    proof {
        assert(s@.skip(at as int) =~= s@.subrange(at as int, at + part@.len()));
    }
    matches_at(&chars, &part, at)
}

/// `str::contains` with a string.
pub fn contains(s: &str, part: &str) -> (r: bool)
    ensures
        r == occurs_in(s@, part@),
{
    let chars = to_chars(s);
    let p = to_chars(part);
    if p.len() > chars.len() {
        return false;
    }
    let last: usize = chars.len() - p.len();
    let mut i: usize = 0;
    loop
        invariant
            chars@ == s@,
            p@ == part@,
            i <= last,
            last == chars@.len() - p@.len(),
            forall|j: int| 0 <= j < i ==> !occurs_at(s@, part@, j),
        decreases last - i,
    {
        if matches_at(&chars, &p, i) {
            proof {
                assert(occurs_at(s@, part@, i as int));
            }
            return true;
        }
        if i == last {
            proof {
                assert forall|j: int| !occurs_at(s@, part@, j) by {
                    if j == i {
                    } else if j < i {
                    }
                }
            }
            return false;
        }
        i = i + 1;
    }
}

// ---------------------------------------------------------------------------
// Case
// ---------------------------------------------------------------------------

/// The lower-case form of an ASCII letter; any other character is kept.
pub open spec fn lower_char(c: char) -> char {
    if 'A' <= c <= 'Z' {
        ((c as u8) + 32) as char
    } else {
        c
    }
}

/// The text with its ASCII letters in lower case.
pub open spec fn lowered(s: Seq<char>) -> Seq<char> {
    s.map_values(|c: char| lower_char(c))
}

/// `str::to_ascii_lowercase`.
pub fn to_ascii_lowercase(s: &str) -> (r: String)
    ensures
        r@ == lowered(s@),
{
    let chars = to_chars(s);
    let mut out = String::new();
    let mut i: usize = 0;
    while i < chars.len()
        invariant
            chars@ == s@,
            i <= chars@.len(),
            out@ == lowered(s@.take(i as int)),
        decreases chars.len() - i,
    {
        let c = chars[i];
        let d = if 'A' <= c && c <= 'Z' {
            ((c as u8) + 32) as char
        } else {
            c
        };
        out.push(d);
        proof {
            assert(lowered(s@.take(i + 1)) =~= lowered(s@.take(i as int)).push(lower_char(c)));
        }
        i = i + 1;
    }
    proof {
        assert(s@.take(i as int) =~= s@);
    }
    out
}

// ---------------------------------------------------------------------------
// Splitting and joining
// ---------------------------------------------------------------------------

/// The words of a text: its longest runs without white space, in order.
pub open spec fn words(s: Seq<char>) -> Seq<Seq<char>>
    decreases s.len(),
{
    let t = trimmed_start(s);
    let n = run_len(t, not_white()) as int;
    if t.len() == 0 {
        Seq::empty()
    } else {
        proof {
            lemma_run_len(s, white());
            lemma_run_len(t, not_white());
            assert(t[0] == s[run_len(s, white()) as int]);
        }
        seq![t.take(n)] + words(t.skip(n))
    }
}

/// `str::split_whitespace`: the words of a text.
pub fn split_whitespace(s: &str) -> (r: Vec<String>)
    ensures
        texts(r@) == words(s@),
{
    let chars = to_chars(s);
    let n: usize = chars.len();
    let mut out: Vec<String> = Vec::new();
    let mut at: usize = 0;
    proof {
        assert(chars@.skip(0) =~= s@);
        assert(texts(out@) + words(s@) =~= words(s@));
    }
    loop
        invariant
            chars@ == s@,
            n == chars@.len(),
            at <= n,
            texts(out@) + words(chars@.skip(at as int)) == words(s@),
        decreases n - at,
    {
        let ghost rest = chars@.skip(at as int);
        let from = white_run_end(&chars, at, true);
        proof {
            assert(trimmed_start(rest) =~= chars@.skip(from as int));
        }
        if from == n {
            proof {
                assert(words(rest) =~= Seq::empty());
                assert(texts(out@) =~= texts(out@) + words(rest));
            }
            return out;
        }
        let to = white_run_end(&chars, from, false);
        let ghost t = chars@.skip(from as int);
        proof {
            lemma_run_len(rest, white());
            assert(t[0] == rest[from - at]);
            assert(not_white()(t[0]));
            assert(run_len(t, not_white()) >= 1);
            assert(t.take(to - from) =~= chars@.subrange(from as int, to as int));
            assert(t.skip(to - from) =~= chars@.skip(to as int));
        }
        let ghost before = out@;
        out.push(collect(&chars, from, to));
        proof {
            assert(texts(out@) =~= texts(before).push(t.take(to - from)));
            assert(texts(before) + (seq![t.take(to - from)] + words(t.skip(to - from)))
                =~= texts(out@) + words(chars@.skip(to as int)));
        }
        at = to;
    }
}

/// The list `parts` with `sep` between neighbours.
pub open spec fn joined(parts: Seq<Seq<char>>, sep: Seq<char>) -> Seq<char>
    decreases parts.len(),
{
    if parts.len() == 0 {
        Seq::empty()
    } else if parts.len() == 1 {
        parts[0]
    } else {
        joined(parts.drop_last(), sep) + sep + parts.last()
    }
}

/// `[String]::join`.
pub fn join(parts: &Vec<String>, sep: &str) -> (r: String)
    ensures
        r@ == joined(texts(parts@), sep@),
{
    let mut out = String::new();
    let mut i: usize = 0;
    while i < parts.len()
        invariant
            i <= parts@.len(),
            out@ == joined(texts(parts@).take(i as int), sep@),
        decreases parts.len() - i,
    {
        proof {
            assert(texts(parts@).take(i + 1).drop_last() =~= texts(parts@).take(i as int));
        }
        if i > 0 {
            out.append(sep);
        } else {
            proof {
                assert(out@ =~= Seq::<char>::empty());
            }
        }
        out.append(parts[i].as_str());
        proof {
            assert(out@ =~= joined(texts(parts@).take(i + 1), sep@));
        }
        i = i + 1;
    }
    proof {
        assert(texts(parts@).take(i as int) =~= texts(parts@));
    }
    out
}

// ---------------------------------------------------------------------------
// Decimal numbers
// ---------------------------------------------------------------------------

/// Whether a character is a decimal digit.
pub open spec fn is_digit(c: char) -> bool {
    '0' <= c <= '9'
}

/// The number that a sequence of digits writes.
pub open spec fn digits_value(s: Seq<char>) -> nat
    decreases s.len(),
{
    if s.len() == 0 {
        0
    } else {
        digits_value(s.drop_last()) * 10 + (s.last() as nat - '0' as nat) as nat
    }
}

/// The number that a text of one or more digits writes, if it is no more than
/// `max`.
pub open spec fn parsed_digits(d: Seq<char>, max: nat) -> Option<nat> {
    if d.len() > 0 && (forall|i: int| 0 <= i < d.len() ==> is_digit(#[trigger] d[i]))
        && digits_value(d) <= max {
        Some(digits_value(d))
    } else {
        None
    }
}

/// The number that a text writes: an optional `+`, then one or more digits, and
/// no more than `max`.
pub open spec fn parsed_uint(s: Seq<char>, max: nat) -> Option<nat> {
    if s.len() > 0 && s[0] == '+' {
        parsed_digits(s.drop_first(), max)
    } else {
        parsed_digits(s, max)
    }
}

/// More digits never write a smaller number.
proof fn lemma_digits_value_prefix(s: Seq<char>, n: int)
    requires
        0 <= n <= s.len(),
        forall|i: int| 0 <= i < s.len() ==> is_digit(#[trigger] s[i]),
    ensures
        digits_value(s.take(n)) <= digits_value(s),
    decreases s.len(),
{
    if n < s.len() {
        let t = s.drop_last();
        assert forall|i: int| 0 <= i < t.len() implies is_digit(#[trigger] t[i]) by {
            assert(t[i] == s[i]);
        }
        lemma_digits_value_prefix(t, n);
        assert(t.take(n) =~= s.take(n));
    } else {
        assert(s.take(n) =~= s);
    }
}

/// `str::parse` into an unsigned integer type whose largest value is `max`.
pub fn parse_uint(s: &str, max: u64) -> (r: Option<u64>)
    ensures
        match r {
            Some(v) => parsed_uint(s@, max as nat) == Some(v as nat),
            None => parsed_uint(s@, max as nat) is None,
        },
{
    let chars = to_chars(s);
    let n: usize = chars.len();
    let from: usize = if n > 0 && chars[0] == '+' {
        1
    } else {
        0
    };
    let ghost d = chars@.skip(from as int);
    proof {
        if from == 1 {
            assert(d =~= s@.drop_first());
        } else {
            assert(d =~= s@);
        }
    }
    if from == n {
        return None;
    }
    let mut i: usize = from;
    let mut value: u64 = 0;
    let mut over: bool = false;
    while i < n
        invariant
            n == chars@.len(),
            from <= i <= n,
            d == chars@.skip(from as int),
            s@.len() > 0 && s@[0] == '+' ==> d == s@.drop_first(),
            !(s@.len() > 0 && s@[0] == '+') ==> d == s@,
            forall|j: int| 0 <= j < i - from ==> is_digit(#[trigger] d[j]),
            !over ==> value == digits_value(d.take(i - from)) && value <= max,
            over ==> exists|k: int|
                0 <= k <= i - from && #[trigger] digits_value(d.take(k)) > max,
        decreases n - i,
    {
        let c = chars[i];
        assert(d[i - from] == c);
        if !('0' <= c && c <= '9') {
            return None;
        }
        let digit: u64 = (c as u32 - '0' as u32) as u64;
        proof {
            assert(d.take(i - from + 1).drop_last() =~= d.take(i - from));
            assert(d.take(i - from + 1).last() == c);
        }
        if !over {
            if digit > max || value > (max - digit) / 10 {
                over = true;
                proof {
                    assert(digits_value(d.take(i - from + 1)) > max);
                }
            } else {
                value = value * 10 + digit;
            }
        }
        i = i + 1;
    }
    proof {
        assert(d.take(n - from) =~= d);
        if over {
            let k = choose|k: int| 0 <= k <= n - from && #[trigger] digits_value(d.take(k)) > max;
            lemma_digits_value_prefix(d, k);
        }
    }
    if over {
        None
    } else {
        Some(value)
    }
}

/// The character of a digit below ten.
pub open spec fn digit_char(n: nat) -> char {
    (('0' as nat + n) as u8) as char
}

/// The decimal digits of a number, without leading zeros.
pub open spec fn decimal_text(n: nat) -> Seq<char>
    decreases n,
{
    if n < 10 {
        seq![digit_char(n)]
    } else {
        decimal_text(n / 10).push(digit_char(n % 10))
    }
}

/// `u64::to_string`.
pub fn decimal(n: u64) -> (r: String)
    ensures
        r@ == decimal_text(n as nat),
    decreases n,
{
    let mut s = if n < 10 {
        String::new()
    } else {
        decimal(n / 10)
    };
    let d = (48 + (n % 10) as u8) as char;
    s.push(d);
    s
}

/// Writing a number and reading the text back gives the number again.
pub proof fn law_decimal_roundtrip(n: nat, max: nat)
    requires
        n <= max,
    ensures
        parsed_uint(decimal_text(n), max) == Some(n),
{
    lemma_decimal_text(n);
}

/// A number is read exactly if it is no larger than the largest.
pub proof fn law_decimal_limit(n: nat, max: nat)
    ensures
        parsed_uint(decimal_text(n), max) == (if n <= max {
            Some(n)
        } else {
            None
        }),
{
    lemma_decimal_text(n);
}

proof fn lemma_decimal_text(n: nat)
    ensures
        decimal_text(n).len() > 0,
        forall|i: int| 0 <= i < decimal_text(n).len() ==> is_digit(#[trigger] decimal_text(n)[i]),
        digits_value(decimal_text(n)) == n,
    decreases n,
{
    let t = decimal_text(n);
    if n < 10 {
        assert(t.drop_last() =~= Seq::empty());
        reveal_with_fuel(digits_value, 2);
    } else {
        lemma_decimal_text(n / 10);
        assert(t.drop_last() =~= decimal_text(n / 10));
    }
}

/// The characters that count as white space, by their numbers.
pub proof fn law_white_space(c: char)
    ensures
        is_white_space(c) == ({
            let n = c as int;
            ||| 9 <= n <= 13
            ||| n == 32 || n == 133 || n == 160 || n == 5760
            ||| 8192 <= n <= 8202
            ||| n == 8232 || n == 8233 || n == 8239 || n == 8287 || n == 12288
        }),
{
}

/// A text is blank if it is white space throughout.
pub proof fn law_blank(s: Seq<char>)
    ensures
        (trimmed(s).len() == 0) == (forall|i: int|
            0 <= i < s.len() ==> is_white_space(#[trigger] s[i])),
{
    lemma_run_len(s, white());
    let t = trimmed_start(s);
    lemma_without_suffix(t, white());
    let n = run_len(s, white()) as int;
    if n < s.len() {
        assert(t[0] == s[n]);
        assert(!is_white_space(s[n]));
        if trimmed(s).len() == 0 {
            assert(white()(t[0]));
        }
    } else {
        assert forall|i: int| 0 <= i < s.len() implies is_white_space(#[trigger] s[i]) by {
            assert(white()(s[i]));
        }
    }
}

/// Trimming takes the white space on both sides away and nothing else.
pub proof fn law_trimming(before: Seq<char>, core: Seq<char>, after: Seq<char>)
    requires
        forall|i: int| 0 <= i < before.len() ==> is_white_space(#[trigger] before[i]),
        forall|i: int| 0 <= i < after.len() ==> is_white_space(#[trigger] after[i]),
        core.len() > 0,
        !is_white_space(core[0]),
        !is_white_space(core.last()),
    ensures
        trimmed(before + core + after) == core,
{
    let s = before + core + after;
    let n = before.len() as int;
    lemma_run_len(s, white());
    let r = run_len(s, white()) as int;
    assert(r == n) by {
        if r < n {
            assert(s[r] == before[r]);
        } else if r > n {
            assert(s[n] == core[0]);
            assert(white()(s[n]));
        }
    }
    let t = trimmed_start(s);
    assert(t =~= core + after);
    let m = core.len() as int;
    assert forall|i: int| m <= i < t.len() implies white()(#[trigger] t[i]) by {
        assert(t[i] == after[i - m]);
    }
    lemma_without_suffix_step(t, white(), m);
    assert(t.take(m) =~= core);
    assert(without_suffix(core, white()) == core);
}

/// The upper-case ASCII letters become lower-case ones; nothing else changes.
pub proof fn law_lower_case(s: Seq<char>, i: int)
    requires
        0 <= i < s.len(),
    ensures
        lowered(s).len() == s.len(),
        lowered(s)[i] as int == (if 65 <= s[i] as int <= 90 {
            s[i] as int + 32
        } else {
            s[i] as int
        }),
{
}

/// Joined parts stand one after another with the separator between neighbours.
pub proof fn law_joining(parts: Seq<Seq<char>>, last: Seq<char>, sep: Seq<char>)
    ensures
        joined(Seq::<Seq<char>>::empty(), sep) == Seq::<char>::empty(),
        joined(seq![last], sep) == last,
        parts.len() > 0 ==> joined(parts.push(last), sep) == joined(parts, sep) + sep + last,
{
    assert(parts.push(last).drop_last() =~= parts);
}

/// The first word of a text is what stands before the next white space, and the other
/// words are those of the rest.
pub proof fn law_words(space: Seq<char>, word: Seq<char>, rest: Seq<char>)
    requires
        forall|i: int| 0 <= i < space.len() ==> is_white_space(#[trigger] space[i]),
        forall|i: int| 0 <= i < word.len() ==> !is_white_space(#[trigger] word[i]),
        rest.len() > 0 ==> is_white_space(rest[0]),
    ensures
        word.len() > 0 ==> words(space + word + rest) == seq![word] + words(rest),
        words(space) == Seq::<Seq<char>>::empty(),
{
    lemma_run_len(space, white());
    let k = run_len(space, white()) as int;
    if k < space.len() {
        assert(is_white_space(space[k]));
    }
    if word.len() > 0 {
        let s = space + word + rest;
        let n = space.len() as int;
        assert forall|i: int| 0 <= i < n implies white()(#[trigger] s[i]) by {
            assert(s[i] == space[i]);
        }
        assert(s[n] == word[0]);
        lemma_run_len_unique(s, white(), n);
        let t = trimmed_start(s);
        assert(t =~= word + rest);
        let m = word.len() as int;
        assert forall|i: int| 0 <= i < m implies not_white()(#[trigger] t[i]) by {
            assert(t[i] == word[i]);
        }
        if rest.len() > 0 {
            assert(t[m] == rest[0]);
        }
        lemma_run_len_unique(t, not_white(), m);
        assert(t.take(m) =~= word);
        assert(t.skip(m) =~= rest);
    }
}

/// A number is read digit by digit: one more digit makes it ten times as large and adds
/// the digit, as long as the largest is not passed.
pub proof fn law_numbers(s: Seq<char>, digit: nat, max: nat)
    requires
        digit <= 9,
        s.len() > 0,
        forall|i: int| 0 <= i < s.len() ==> '0' <= #[trigger] s[i] <= '9',
    ensures
        ({
            let c = (48 + digit) as u8 as char;
            &&& parsed_uint(seq![c], max) == (if digit <= max {
                Some(digit)
            } else {
                None
            })
            &&& forall|n: nat|
                #![trigger parsed_uint(s, n)]
                parsed_uint(s, n) is Some ==> parsed_uint(s.push(c), max) == (if parsed_uint(
                    s,
                    n,
                )->0 * 10 + digit <= max {
                    Some((parsed_uint(s, n)->0 * 10 + digit) as nat)
                } else {
                    None
                })
            &&& parsed_uint(seq!['+'] + s, max) == parsed_uint(s, max)
        }),
{
    let c = (48 + digit) as u8 as char;
    assert(is_digit(c));
    assert(c as nat - '0' as nat == digit);
    let one = seq![c];
    assert(one.drop_last() =~= Seq::<char>::empty());
    assert(digits_value(one.drop_last()) == 0);
    assert(digits_value(one) == digit);
    assert forall|i: int| 0 <= i < one.len() implies is_digit(#[trigger] one[i]) by {}
    let t = s.push(c);
    assert(t.drop_last() =~= s);
    assert(t[0] == s[0]);
    assert forall|i: int| 0 <= i < t.len() implies is_digit(#[trigger] t[i]) by {
        if i < s.len() {
            assert(t[i] == s[i]);
        }
    }
    assert forall|i: int| 0 <= i < s.len() implies is_digit(#[trigger] s[i]) by {}
    assert((seq!['+'] + s).drop_first() =~= s);
}

/// Anything but digits, after a plus sign at most, is no number, and neither is nothing.
pub proof fn law_no_numbers(s: Seq<char>, i: int, max: nat)
    ensures
        parsed_uint(Seq::<char>::empty(), max) is None,
        parsed_uint(seq!['+'], max) is None,
        0 <= i < s.len() && !('0' <= s[i] <= '9') && !(i == 0 && s[0] == '+') ==> parsed_uint(
            s,
            max,
        ) is None,
{
    assert(seq!['+'].drop_first() =~= Seq::<char>::empty());
    if 0 <= i < s.len() && !('0' <= s[i] <= '9') && !(i == 0 && s[0] == '+') {
        assert(!is_digit(s[i]));
        if s[0] == '+' {
            assert(s.drop_first()[i - 1] == s[i]);
        }
    }
}

/// Dropping a character from the end drops every one of it there and nothing else.
pub proof fn law_trailing_characters(core: Seq<char>, tail: Seq<char>, x: char)
    requires
        core.len() == 0 || core.last() != x,
        forall|i: int| 0 <= i < tail.len() ==> #[trigger] tail[i] == x,
    ensures
        without_suffix(core + tail, is_char(x)) == core,
{
    let s = core + tail;
    let n = core.len() as int;
    assert forall|i: int| n <= i < s.len() implies is_char(x)(#[trigger] s[i]) by {
        assert(s[i] == tail[i - n]);
    }
    lemma_without_suffix_step(s, is_char(x), n);
    assert(s.take(n) =~= core);
}

/// A text has an ending exactly if it is something followed by that ending.
pub proof fn law_endings(before: Seq<char>, s: Seq<char>, ending: Seq<char>)
    ensures
        has_suffix(before + ending, ending),
        has_suffix(s, ending) ==> s == s.take(s.len() - ending.len()) + ending,
{
    let all = before + ending;
    assert(all.skip(all.len() - ending.len()) =~= ending);
    if has_suffix(s, ending) {
        let n = s.len() - ending.len();
        assert(s =~= s.take(n) + s.skip(n));
    }
}

/// A part occurs in a text exactly if something stands before it and something after it.
pub proof fn law_parts_occur(before: Seq<char>, part: Seq<char>, after: Seq<char>, s: Seq<char>)
    ensures
        occurs_in(before + part + after, part),
        occurs_in(s, part) ==> exists|a: Seq<char>, b: Seq<char>| s == #[trigger] (a + part + b),
{
    let all = before + part + after;
    let n = before.len() as int;
    assert(all.subrange(n, n + part.len()) =~= part);
    assert(occurs_at(all, part, n));
    if occurs_in(s, part) {
        let i = choose|i: int| occurs_at(s, part, i);
        let a = s.take(i);
        let b = s.skip(i + part.len());
        assert(s =~= a + s.subrange(i, i + part.len()) + b);
        assert(s == a + part + b);
    }
}

} // verus!
