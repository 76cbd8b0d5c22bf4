//! Text: the operations on characters and strings that the rest of the crate is built from.
//!
//! In contracts a string is the sequence of its characters.

use vstd::prelude::*;
use vstd::string::*;
use vstd::utf8::*;

verus! {

/// The characters of a string, in order.
pub type Text = Seq<char>;

/// The contents of a list of strings.
pub open spec fn views(strings: Seq<String>) -> Seq<Text> {
    strings.map_values(|s: String| s@)
}

/// `String::push` of the standard library: appends one character to the end of the string and
/// leaves the rest of it as it was.
pub assume_specification[ String::push ](s: &mut String, ch: char)
    ensures
        final(s)@ == old(s)@.push(ch),
;

/// What `{:?}` prints for a string slice.
pub uninterp spec fn debug_text(s: Seq<char>) -> Seq<char>;

/// What `{:?}` prints for a character.
pub uninterp spec fn debug_char(c: char) -> Seq<char>;

/// A printable ASCII character that `{:?}` never escapes.
pub open spec fn is_plain(c: char) -> bool {
    ' ' <= c <= '~' && c != '"' && c != '\'' && c != '\\'
}

/// `s` in double quotes.
pub open spec fn in_double_quotes(s: Text) -> Text {
    seq!['"'] + s + seq!['"']
}

/// `c` in single quotes.
pub open spec fn in_single_quotes(c: char) -> Text {
    seq!['\'', c, '\'']
}

/// The `Debug` formatting of `str`: a text that depends on `s` alone. Where `s` holds nothing but
/// printable ASCII without quotes and backslashes, it is `s` in double quotes.
#[verifier::external_body]
pub(crate) fn debug_string(s: &str) -> (r: String)
    ensures
        r@ == debug_text(s@),
        (forall|i: int| 0 <= i < s@.len() ==> is_plain(#[trigger] s@[i])) ==> r@
            == in_double_quotes(s@),
{
    format!("{s:?}")
}

/// The `Debug` formatting of `char`: a text that depends on `c` alone. For a printable ASCII
/// character other than a quote or a backslash it is `c` in single quotes.
#[verifier::external_body]
pub(crate) fn debug_char_string(c: char) -> (r: String)
    ensures
        r@ == debug_char(c),
        is_plain(c) ==> r@ == in_single_quotes(c),
{
    format!("{c:?}")
}

/// What a `Utf8Error` of `std::str::from_utf8` says of `bytes`.
pub uninterp spec fn utf8_error(bytes: Seq<u8>) -> Seq<char>;

/// `std::str::from_utf8`: succeeds exactly on valid UTF-8, with the text that the bytes encode;
/// otherwise the error's message depends on the bytes alone.
#[verifier::external_body]
pub(crate) fn utf8_string(bytes: &[u8]) -> (r: Result<String, String>)
    ensures
        r is Ok <==> valid_utf8(bytes@),
        r matches Ok(s) ==> s@ == decode_utf8(bytes@),
        r matches Err(e) ==> e@ == utf8_error(bytes@),
{
    match std::str::from_utf8(bytes) {
        Ok(s) => Ok(s.to_owned()),
        Err(e) => Err(e.to_string()),
    }
}

/// `bytes` as text, with each ill-formed part replaced by U+FFFD.
pub uninterp spec fn utf8_lossy(bytes: Seq<u8>) -> Seq<char>;

/// `String::from_utf8_lossy`: a text that depends on the bytes alone. Valid UTF-8 comes out as the
/// text that it encodes.
#[verifier::external_body]
pub(crate) fn utf8_lossy_string(bytes: &[u8]) -> (r: String)
    ensures
        r@ == utf8_lossy(bytes@),
        valid_utf8(bytes@) ==> r@ == decode_utf8(bytes@),
{
    String::from_utf8_lossy(bytes).into_owned()
}

// ─── Characters ──────────────────────────────────────────────────────────────

/// The characters of the Unicode category `Cc`: U+0000 to U+001F and U+007F to U+009F.
pub open spec fn is_control(c: char) -> bool {
    c as u32 <= 0x1f || 0x7f <= c as u32 <= 0x9f
}

/// Whether `c` is a control character.
pub fn control_char(c: char) -> (r: bool)
    ensures
        r == is_control(c),
{
    let n: u32 = c as u32;
    n <= 0x1f || (0x7f <= n && n <= 0x9f)
}

/// The characters with the Unicode property `White_Space`.
pub open spec fn is_white_space(c: char) -> bool {
    let n = c as u32;
    ||| 0x9 <= n <= 0xd
    ||| n == 0x20
    ||| n == 0x85
    ||| n == 0xa0
    ||| n == 0x1680
    ||| 0x2000 <= n <= 0x200a
    ||| n == 0x2028
    ||| n == 0x2029
    ||| n == 0x202f
    ||| n == 0x205f
    ||| n == 0x3000
}

/// Whether `c` is white space.
pub fn white_space_char(c: char) -> (r: bool)
    ensures
        r == is_white_space(c),
{
    let n: u32 = c as u32;
    (0x9 <= n && n <= 0xd) || n == 0x20 || n == 0x85 || n == 0xa0 || n == 0x1680 || (0x2000 <= n
        && n <= 0x200a) || n == 0x2028 || n == 0x2029 || n == 0x202f || n == 0x205f || n == 0x3000
}

/// An ASCII letter.
pub open spec fn is_letter(c: char) -> bool {
    'a' <= c <= 'z' || 'A' <= c <= 'Z'
}

/// An ASCII digit.
pub open spec fn is_digit(c: char) -> bool {
    '0' <= c <= '9'
}

/// Whether `c` is an ASCII letter.
pub fn letter_char(c: char) -> (r: bool)
    ensures
        r == is_letter(c),
{
    ('a' <= c && c <= 'z') || ('A' <= c && c <= 'Z')
}

/// Whether `c` is an ASCII digit.
pub fn digit_char(c: char) -> (r: bool)
    ensures
        r == is_digit(c),
{
    '0' <= c && c <= '9'
}

// ─── Whole strings ───────────────────────────────────────────────────────────

/// The characters of `s`.
pub fn chars(s: &str) -> (r: Vec<char>)
    ensures
        r@ == s@,
{
    let mut out: Vec<char> = Vec::new();
    for c in it: s.chars()
        invariant
            it.seq() == s@,
            out@ == s@.take(it.index()),
    {
        out.push(c);
    }
    out
}

/// Whether two strings hold the same text.
pub fn same_text(a: &str, b: &str) -> (r: bool)
    ensures
        r == (a@ == b@),
{
    a.to_owned() == b.to_owned()
}

/// The string made of `chars[from..to]`.
pub fn substring(chars: &Vec<char>, from: usize, to: usize) -> (r: String)
    requires
        from <= to <= chars@.len(),
    ensures
        r@ == chars@.subrange(from as int, to as int),
{
    let mut out = String::new();
    for i in from..to
        invariant
            to <= chars@.len(),
            out@ == chars@.subrange(from as int, i as int),
    {
        out.push(chars[i]);
    }
    out
}

/// Whether the character `c` occurs in `s`.
pub fn has_char(s: &str, c: char) -> (r: bool)
    ensures
        r == s@.contains(c),
{
    let chars = chars(s);
    for i in 0..chars.len()
        invariant
            chars@ == s@,
            forall|j: int| 0 <= j < i ==> s@[j] != c,
    {
        if chars[i] == c {
            assert(s@[i as int] == c);
            return true;
        }
    }
    false
}

/// `s` starts with `prefix`.
pub open spec fn starts_with(s: Text, prefix: Text) -> bool {
    prefix.len() <= s.len() && s.take(prefix.len() as int) == prefix
}

// ─── Numbers ─────────────────────────────────────────────────────────────────

/// The decimal digit with the value `d`.
pub open spec fn digit(d: nat) -> char {
    (48 + d) as char
}

/// `n` in decimal, without leading zeros.
pub open spec fn decimal(n: nat) -> Text
    decreases n,
{
    if n < 10 {
        seq![digit(n)]
    } else {
        decimal(n / 10).push(digit(n % 10))
    }
}

/// `n` in decimal.
pub fn decimal_string(n: u64) -> (r: String)
    ensures
        r@ == decimal(n as nat),
    decreases n,
{
    let mut out = if n < 10 {
        String::new()
    } else {
        decimal_string(n / 10)
    };
    let last: u8 = (n % 10) as u8;
    out.push((48 + last) as char);
    out
}

/// A decimal number is one or more digits.
pub proof fn lemma_decimal_digits(n: nat)
    ensures
        decimal(n).len() > 0,
        forall|i: int| 0 <= i < decimal(n).len() ==> is_digit(#[trigger] decimal(n)[i]),
    decreases n,
{
    if n >= 10 {
        lemma_decimal_digits(n / 10);
    }
}

// ─── Searching, trimming, splitting, joining ─────────────────────────────────

/// `needle` occurs in `s` at position `i`.
pub open spec fn occurs_at(s: Text, needle: Text, i: int) -> bool {
    0 <= i && i + needle.len() <= s.len() && s.subrange(i, i + needle.len()) == needle
}

/// `needle` occurs somewhere in `s`.
pub open spec fn occurs(s: Text, needle: Text) -> bool {
    exists|i: int| occurs_at(s, needle, i)
}

/// Whether `needle` occurs at position `at` of `chars`.
fn matches_at(chars: &Vec<char>, needle: &Vec<char>, at: usize) -> (r: bool)
    requires
        at + needle@.len() <= chars@.len(),
    ensures
        r == occurs_at(chars@, needle@, at as int),
{
    for j in 0..needle.len()
        invariant
            at + needle@.len() <= chars@.len(),
            forall|k: int| 0 <= k < j ==> chars@[at + k] == needle@[k],
    {
        assert(chars.len() == chars@.len());
        if chars[at + j] != needle[j] {
            assert(chars@.subrange(at as int, at + needle@.len())[j as int] != needle@[j as int]);
            return false;
        }
    }
    assert(chars@.subrange(at as int, at + needle@.len()) == needle@);
    true
}

/// Whether `needle` occurs in `s`.
pub fn contains_text(s: &str, needle: &str) -> (r: bool)
    ensures
        r == occurs(s@, needle@),
{
    let hay = chars(s);
    let pat = chars(needle);
    if pat.len() > hay.len() {
        return false;
    }
    let last: usize = hay.len() - pat.len();
    let mut i: usize = 0;
    while i <= last
        invariant
            hay@ == s@,
            pat@ == needle@,
            last == hay@.len() - pat@.len(),
            i <= last + 1,
            forall|k: int| 0 <= k < i ==> !occurs_at(s@, needle@, k),
        decreases last + 1 - i,
    {
        if matches_at(&hay, &pat, i) {
            return true;
        }
        if i == last {
            return false;
        }
        i += 1;
    }
    false
}

/// `s` without its leading white space.
pub open spec fn trim_start(s: Text) -> Text
    decreases s.len(),
{
    if s.len() > 0 && is_white_space(s[0]) {
        trim_start(s.skip(1))
    } else {
        s
    }
}

/// `s` without its trailing white space.
pub open spec fn trim_end(s: Text) -> Text
    decreases s.len(),
{
    if s.len() > 0 && is_white_space(s.last()) {
        trim_end(s.drop_last())
    } else {
        s
    }
}

/// `s` without leading and trailing white space.
pub open spec fn trim(s: Text) -> Text {
    trim_end(trim_start(s))
}

/// `s` without leading and trailing white space.
pub fn trimmed(s: &str) -> (r: String)
    ensures
        r@ == trim(s@),
{
    let all = chars(s);
    let mut from: usize = 0;
    assert(s@.skip(0) == s@);
    while from < all.len() && white_space_char(all[from])
        invariant
            all@ == s@,
            from <= all@.len(),
            trim_start(s@) == trim_start(s@.skip(from as int)),
        decreases all@.len() - from,
    {
        assert(s@.skip(from as int).skip(1) == s@.skip(from + 1));
        from += 1;
    }
    assert(trim_start(s@) == s@.skip(from as int));
    let mut to: usize = all.len();
    assert(s@.skip(from as int) == s@.subrange(from as int, to as int));
    while from < to && white_space_char(all[to - 1])
        invariant
            all@ == s@,
            from <= to <= all@.len(),
            trim(s@) == trim_end(s@.subrange(from as int, to as int)),
        decreases to,
    {
        assert(s@.subrange(from as int, to as int).drop_last() == s@.subrange(
            from as int,
            to - 1,
        ));
        to -= 1;
    }
    substring(&all, from, to)
}

/// `s` without the carriage return at its end, if there is one.
pub open spec fn without_cr(s: Text) -> Text {
    if s.len() > 0 && s.last() == '\r' {
        s.drop_last()
    } else {
        s
    }
}

/// The lines of `s` when its first `i` characters are known to hold no line feed. A line ends at
/// `\n` or `\r\n`; the ending of the last line is optional.
pub open spec fn lines_from(s: Text, i: int) -> Seq<Text>
    decreases s.len(), s.len() - i,
{
    if i < 0 || i >= s.len() {
        if s.len() == 0 {
            Seq::empty()
        } else {
            seq![s]
        }
    } else if s[i] == '\n' {
        seq![without_cr(s.take(i))] + lines_from(s.skip(i + 1), 0)
    } else {
        lines_from(s, i + 1)
    }
}

/// The lines of `s`, without their endings.
pub open spec fn lines(s: Text) -> Seq<Text> {
    lines_from(s, 0)
}

/// The lines of `s`, without their endings.
pub fn split_lines(s: &str) -> (r: Vec<String>)
    ensures
        views(r@) == lines(s@),
{
    let all = chars(s);
    let mut out: Vec<String> = Vec::new();
    let mut start: usize = 0;
    let mut i: usize = 0;
    assert(s@.skip(0) == s@);
    assert(views(out@) + lines(s@) == lines(s@));
    while i < all.len()
        invariant
            all@ == s@,
            start <= i <= all@.len(),
            lines(s@) == views(out@) + lines_from(s@.skip(start as int), i - start),
        decreases all@.len() - i,
    {
        let ghost rest = s@.skip(start as int);
        assert(rest[i - start] == s@[i as int]);
        if all[i] == '\n' {
            let end: usize = if i > start && all[i - 1] == '\r' {
                i - 1
            } else {
                i
            };
            let line = substring(&all, start, end);
            assert(rest.take(i - start) == s@.subrange(start as int, i as int));
            assert(line@ == without_cr(rest.take(i - start)));
            assert(rest.skip(i - start + 1) == s@.skip(i + 1));
            let ghost before = out@;
            out.push(line);
            assert(views(out@) == views(before).push(line@));
            assert(views(before) + (seq![line@] + lines_from(s@.skip(i + 1), 0)) == views(out@)
                + lines_from(s@.skip(i + 1), 0));
            start = i + 1;
        }
        i += 1;
    }
    let ghost rest = s@.skip(start as int);
    if start < all.len() {
        let line = substring(&all, start, all.len());
        assert(line@ == rest);
        let ghost before = out@;
        out.push(line);
        assert(views(out@) == views(before).push(line@));
        assert(views(before) + seq![line@] == views(before).push(line@));
    } else {
        assert(views(out@) + Seq::<Text>::empty() == views(out@));
    }
    out
}

/// The texts `parts`, one after the other.
pub open spec fn concat(parts: Seq<Text>) -> Text
    decreases parts.len(),
{
    if parts.len() == 0 {
        Seq::empty()
    } else {
        concat(parts.drop_last()) + parts.last()
    }
}

/// The concatenation of two lists is that of the first, then that of the second.
pub proof fn lemma_concat_add(a: Seq<Text>, b: Seq<Text>)
    ensures
        concat(a + b) == concat(a) + concat(b),
    decreases b.len(),
{
    if b.len() == 0 {
        assert(a + b == a);
        assert(concat(a) + Seq::<char>::empty() == concat(a));
    } else {
        assert((a + b).drop_last() == a + b.drop_last());
        lemma_concat_add(a, b.drop_last());
        assert(concat(a) + concat(b.drop_last()) + b.last() == concat(a) + (concat(b.drop_last())
            + b.last()));
    }
}

/// The texts `parts`, with `sep` between every two.
pub open spec fn join(parts: Seq<Text>, sep: Text) -> Text
    decreases parts.len(),
{
    if parts.len() == 0 {
        Seq::empty()
    } else if parts.len() == 1 {
        parts[0]
    } else {
        join(parts.drop_last(), sep) + sep + parts.last()
    }
}

/// The strings `parts`, with `sep` between every two.
pub fn join_strings(parts: &Vec<String>, sep: &str) -> (r: String)
    ensures
        r@ == join(views(parts@), sep@),
{
    let mut out = String::new();
    for i in 0..parts.len()
        invariant
            out@ == join(views(parts@).take(i as int), sep@),
    {
        if i > 0 {
            out.append(sep);
        }
        out.append(parts[i].as_str());
        assert(views(parts@).take(i + 1).drop_last() == views(parts@).take(i as int));
        assert(Seq::<char>::empty() + parts@[0]@ == parts@[0]@);
    }
    assert(views(parts@).take(parts@.len() as int) == views(parts@));
    out
}

// ─── Order ───────────────────────────────────────────────────────────────────

/// `a` stands before `b` in the order of strings: by the first character in which they differ,
/// a proper prefix before the longer string.
pub open spec fn before(a: Text, b: Text) -> bool
    decreases a.len(),
{
    if b.len() == 0 {
        false
    } else if a.len() == 0 {
        true
    } else if a[0] == b[0] {
        before(a.skip(1), b.skip(1))
    } else {
        a[0] < b[0]
    }
}

/// No text stands before itself.
pub proof fn lemma_before_irreflexive(a: Text)
    ensures
        !before(a, a),
    decreases a.len(),
{
    if a.len() > 0 {
        lemma_before_irreflexive(a.skip(1));
    }
}

/// The order of strings is transitive.
pub proof fn lemma_before_transitive(a: Text, b: Text, c: Text)
    requires
        before(a, b),
        before(b, c),
    ensures
        before(a, c),
    decreases a.len(),
{
    if a.len() > 0 && a[0] == b[0] && b[0] == c[0] {
        lemma_before_transitive(a.skip(1), b.skip(1), c.skip(1));
    }
}

/// Of two different texts one stands before the other.
pub proof fn lemma_before_total(a: Text, b: Text)
    ensures
        a == b || before(a, b) || before(b, a),
    decreases a.len(),
{
    if a.len() > 0 && b.len() > 0 && a[0] == b[0] {
        lemma_before_total(a.skip(1), b.skip(1));
        if a.skip(1) == b.skip(1) {
            assert(a == seq![a[0]] + a.skip(1));
            assert(b == seq![b[0]] + b.skip(1));
        }
    } else if a.len() == 0 && b.len() == 0 {
        assert(a == b);
    }
}

/// Whether `a` stands before `b`.
pub fn text_before(a: &str, b: &str) -> (r: bool)
    ensures
        r == before(a@, b@),
{
    let x = chars(a);
    let y = chars(b);
    let mut i: usize = 0;
    assert(a@.skip(0) == a@ && b@.skip(0) == b@);
    while i < x.len() && i < y.len()
        invariant
            x@ == a@,
            y@ == b@,
            i <= x@.len(),
            i <= y@.len(),
            before(a@, b@) == before(a@.skip(i as int), b@.skip(i as int)),
        decreases x@.len() - i,
    {
        let ghost p = a@.skip(i as int);
        let ghost q = b@.skip(i as int);
        assert(p[0] == x@[i as int] && q[0] == y@[i as int]);
        if x[i] != y[i] {
            return x[i] < y[i];
        }
        assert(p.skip(1) == a@.skip(i + 1) && q.skip(1) == b@.skip(i + 1));
        i += 1;
    }
    i < y.len()
}

} // verus!
