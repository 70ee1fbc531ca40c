//! Text primitives used by the parsers and message builders of the station.
//!
//! Strings are modelled by their sequence of characters. Every operation below states its
//! result over that sequence.
use vstd::prelude::*;
use vstd::string::*;
use vstd::utf8::{encode_utf8, valid_utf8};

verus! {

/// `String::push` of the standard library: appends the given character to the string.
pub assume_specification[ String::push ](s: &mut String, ch: char)
    ensures
        final(s)@ == old(s)@.push(ch),
;

/// The words of the error by which `String::from_utf8` of the standard library refuses bytes.
pub uninterp spec fn utf8_error(bytes: Seq<u8>) -> Seq<char>;

/// `String::from_utf8` of the standard library: the text whose encoding the bytes are, which there
/// is just where they are valid UTF-8. Where they are not, the error is given in words, which
/// depend on the bytes alone.
#[verifier::external_body]
pub(crate) fn text_of(bytes: Vec<u8>) -> (out: Result<String, String>)
    ensures
        out is Ok <==> valid_utf8(bytes@),
        out matches Ok(text) ==> encode_utf8(text@) == bytes@,
        out matches Err(e) ==> e@ == utf8_error(bytes@),
{
    match String::from_utf8(bytes) {
        Ok(text) => Ok(text),
        Err(e) => Err(e.to_string()),
    }
}

/// The text that `String::from_utf8_lossy` of the standard library reads from bytes.
pub uninterp spec fn lossy(bytes: Seq<u8>) -> Seq<char>;

/// `String::from_utf8_lossy` of the standard library: the text whose encoding the bytes are, where
/// they are valid UTF-8; where they are not, replacement characters stand for what is not. The
/// text depends on the bytes alone.
#[verifier::external_body]
pub(crate) fn lossy_text(bytes: &[u8]) -> (out: String)
    ensures
        out@ == lossy(bytes@),
        valid_utf8(bytes@) ==> encode_utf8(out@) == bytes@,
{
    String::from_utf8_lossy(bytes).into_owned()
}

// ---------------------------------------------------------------------------------------------
// Model
// ---------------------------------------------------------------------------------------------
/// Unicode `White_Space`: what trimming removes.
pub open spec fn is_white(c: char) -> bool {
    ||| '\u{9}' <= c <= '\u{d}'
    ||| c == ' '
    ||| c == '\u{85}'
    ||| c == '\u{a0}'
    ||| c == '\u{1680}'
    ||| '\u{2000}' <= c <= '\u{200a}'
    ||| c == '\u{2028}'
    ||| c == '\u{2029}'
    ||| c == '\u{202f}'
    ||| c == '\u{205f}'
    ||| c == '\u{3000}'
}

/// `s` without its leading white space.
pub open spec fn trimmed_start(s: Seq<char>) -> Seq<char>
    decreases s.len(),
{
    if s.len() > 0 && is_white(s[0]) {
        trimmed_start(s.drop_first())
    } else {
        s
    }
}

/// `s` without its trailing white space.
pub open spec fn trimmed_end(s: Seq<char>) -> Seq<char>
    decreases s.len(),
{
    if s.len() > 0 && is_white(s.last()) {
        trimmed_end(s.drop_last())
    } else {
        s
    }
}

/// `s` without leading and trailing white space.
pub open spec fn trimmed(s: Seq<char>) -> Seq<char> {
    trimmed_end(trimmed_start(s))
}

/// The lower-case form of an ASCII letter; any other character is kept.
pub open spec fn lower_char(c: char) -> char {
    if 'A' <= c <= 'Z' {
        ((c as u8) + 32) as u8 as char
    } else {
        c
    }
}

/// `s` with every ASCII letter in lower case.
pub open spec fn lowered(s: Seq<char>) -> Seq<char> {
    s.map_values(|c: char| lower_char(c))
}

/// The place of the first `c` in `s`, or the length of `s` where it holds none.
pub open spec fn first_index(s: Seq<char>, c: char) -> int
    decreases s.len(),
{
    if s.len() == 0 || s[0] == c {
        0
    } else {
        1 + first_index(s.drop_first(), c)
    }
}

/// The parts of `s` before and after its first `c`, where it holds one.
pub open spec fn parted(s: Seq<char>, c: char) -> Option<(Seq<char>, Seq<char>)> {
    let i = first_index(s, c);
    if i < s.len() {
        Some((s.take(i), s.skip(i + 1)))
    } else {
        None
    }
}

/// The pieces of `s` between the separators `c`.
pub open spec fn pieces(s: Seq<char>, c: char) -> Seq<Seq<char>>
    decreases s.len(),
{
    let i = first_index(s, c);
    if 0 <= i < s.len() {
        seq![s.take(i)] + pieces(s.skip(i + 1), c)
    } else {
        seq![s]
    }
}

/// `s` without one trailing carriage return.
pub open spec fn without_cr(s: Seq<char>) -> Seq<char> {
    if s.len() > 0 && s.last() == '\r' {
        s.drop_last()
    } else {
        s
    }
}

/// The lines of `s`. A line ends in `\n` or `\r\n`, which it does not hold; the last line
/// may go without.
pub open spec fn line_seq(s: Seq<char>) -> Seq<Seq<char>>
    decreases s.len(),
{
    let i = first_index(s, '\n');
    if s.len() == 0 {
        seq![]
    } else if 0 <= i < s.len() {
        seq![without_cr(s.take(i))] + line_seq(s.skip(i + 1))
    } else {
        seq![s]
    }
}

/// Whether `t` occurs in `s`.
pub open spec fn holds_text(s: Seq<char>, t: Seq<char>) -> bool {
    exists|i: int| 0 <= i <= s.len() - t.len() && #[trigger] s.subrange(i, i + t.len()) == t
}

/// `s` with every `t` replaced by `by`, from left to right.
pub open spec fn replaced(s: Seq<char>, t: Seq<char>, by: Seq<char>) -> Seq<char>
    recommends
        t.len() > 0,
    decreases s.len(),
{
    if s.len() == 0 || t.len() == 0 {
        s
    } else if t.is_prefix_of(s) {
        by + replaced(s.skip(t.len() as int), t, by)
    } else {
        seq![s[0]] + replaced(s.drop_first(), t, by)
    }
}

/// The characters of each string.
pub open spec fn views(v: Seq<String>) -> Seq<Seq<char>> {
    v.map_values(|s: String| s@)
}

/// The characters of an optional string.
pub open spec fn opt_view(o: Option<String>) -> Option<Seq<char>> {
    match o {
        Some(s) => Some(s@),
        None => None,
    }
}

/// The characters of an optional string slice.
pub open spec fn opt_str(o: Option<&str>) -> Option<Seq<char>> {
    match o {
        Some(s) => Some(s@),
        None => None,
    }
}

// ---------------------------------------------------------------------------------------------
// Facts
// ---------------------------------------------------------------------------------------------
pub proof fn lemma_first_index(s: Seq<char>, c: char)
    ensures
        0 <= first_index(s, c) <= s.len(),
        forall|k: int| 0 <= k < first_index(s, c) ==> s[k] != c,
        first_index(s, c) < s.len() ==> s[first_index(s, c)] == c,
    decreases s.len(),
{
    if s.len() > 0 && s[0] != c {
        let rest = s.drop_first();
        lemma_first_index(rest, c);
        assert forall|k: int| 0 <= k < first_index(s, c) implies s[k] != c by {
            if k > 0 {
                assert(rest[k - 1] == s[k]);
            }
        }
        if first_index(s, c) < s.len() {
            assert(rest[first_index(rest, c)] == s[first_index(s, c)]);
        }
    }
}

/// The first occurrence is the only place with no `c` before it.
pub proof fn lemma_first_index_is(s: Seq<char>, c: char, i: int)
    requires
        0 <= i <= s.len(),
        forall|k: int| 0 <= k < i ==> s[k] != c,
        i < s.len() ==> s[i] == c,
    ensures
        first_index(s, c) == i,
{
    lemma_first_index(s, c);
    let j = first_index(s, c);
    if j < i {
        assert(s[j] == c);
    } else if i < j {
        assert(s[i] == c);
    }
}

proof fn lemma_trimmed_start(s: Seq<char>, i: int)
    requires
        0 <= i <= s.len(),
        forall|k: int| 0 <= k < i ==> is_white(s[k]),
        i < s.len() ==> !is_white(s[i]),
    ensures
        trimmed_start(s) == s.skip(i),
    decreases i,
{
    if i > 0 {
        let rest = s.drop_first();
        assert(is_white(s[0]));
        assert forall|k: int| 0 <= k < i - 1 implies is_white(rest[k]) by {
            assert(rest[k] == s[k + 1]);
        }
        if i < s.len() {
            assert(rest[i - 1] == s[i]);
        }
        lemma_trimmed_start(rest, i - 1);
        assert(rest.skip(i - 1) =~= s.skip(i));
    } else {
        assert(s.skip(0) =~= s);
    }
}

proof fn lemma_trimmed_end(s: Seq<char>, j: int)
    requires
        0 <= j <= s.len(),
        forall|k: int| j <= k < s.len() ==> is_white(s[k]),
        j > 0 ==> !is_white(s[j - 1]),
    ensures
        trimmed_end(s) == s.take(j),
    decreases s.len() - j,
{
    if j < s.len() {
        let rest = s.drop_last();
        assert(is_white(s.last()));
        lemma_trimmed_end(rest, j);
        assert(rest.take(j) =~= s.take(j));
    } else {
        assert(s.take(j) =~= s);
    }
}

/// Trimming takes the white space before and after the first and the last other character.
pub proof fn lemma_trimmed_is(s: Seq<char>, i: int, j: int)
    requires
        0 <= i < j <= s.len(),
        forall|k: int| 0 <= k < i ==> is_white(s[k]),
        forall|k: int| j <= k < s.len() ==> is_white(s[k]),
        !is_white(s[i]),
        !is_white(s[j - 1]),
    ensures
        trimmed(s) == s.subrange(i, j),
{
    lemma_trimmed_start(s, i);
    let rest = s.skip(i);
    assert forall|k: int| j - i <= k < rest.len() implies is_white(rest[k]) by {
        assert(rest[k] == s[k + i]);
    }
    lemma_trimmed_end(rest, j - i);
    assert(rest.take(j - i) =~= s.subrange(i, j));
}

// ---------------------------------------------------------------------------------------------
// Operations
// ---------------------------------------------------------------------------------------------
/// The characters of `s`, in order.
pub fn chars_of(s: &str) -> (out: Vec<char>)
    ensures
        out@ == s@,
{
    let mut out: Vec<char> = Vec::new();
    for c in it: s.chars()
        invariant
            it.seq() == s@,
            out@ == s@.take(it.index() as int),
    {
        out.push(c);
    }
    out
}

/// The string of the characters from `from` up to, and without, `to`.
pub fn string_of(chars: &Vec<char>, from: usize, to: usize) -> (out: String)
    requires
        from <= to <= chars@.len(),
    ensures
        out@ == chars@.subrange(from as int, to as int),
{
    let mut out = String::new();
    let mut i: usize = from;
    while i < to
        invariant
            from <= i <= to <= chars@.len(),
            out@ == chars@.subrange(from as int, i as int),
        decreases to - i,
    {
        out.push(chars[i]);
        i = i + 1;
    }
    out
}

/// Whether `c` is white space.
pub fn white(c: char) -> (r: bool)
    ensures
        r == is_white(c),
{
    ('\u{9}' <= c && c <= '\u{d}') || c == ' ' || c == '\u{85}' || c == '\u{a0}' || c == '\u{1680}'
        || ('\u{2000}' <= c && c <= '\u{200a}') || c == '\u{2028}' || c == '\u{2029}' || c
        == '\u{202f}' || c == '\u{205f}' || c == '\u{3000}'
}

/// `s` without leading and trailing white space.
pub fn trim(s: &str) -> (out: String)
    ensures
        out@ == trimmed(s@),
{
    let chars = chars_of(s);
    let n: usize = chars.len();
    let mut i: usize = 0;
    while i < n && white(chars[i])
        invariant
            n == chars@.len(),
            0 <= i <= n,
            forall|k: int| 0 <= k < i ==> is_white(chars@[k]),
        decreases n - i,
    {
        i = i + 1;
    }
    let mut j: usize = n;
    while j > i && white(chars[j - 1])
        invariant
            n == chars@.len(),
            i <= j <= n,
            forall|k: int| j <= k < n ==> is_white(chars@[k]),
        decreases j,
    {
        j = j - 1;
    }
    proof {
        lemma_trimmed_start(s@, i as int);
        let rest = s@.skip(i as int);
        assert forall|k: int| j - i <= k < rest.len() implies is_white(rest[k]) by {
            assert(rest[k] == s@[k + i]);
        }
        if j > i {
            assert(rest[j - i - 1] == s@[j - 1]);
        }
        lemma_trimmed_end(rest, j - i);
        assert(rest.take(j - i) =~= s@.subrange(i as int, j as int));
    }
    string_of(&chars, i, j)
}

/// The lower-case form of an ASCII letter.
pub fn to_lower_char(c: char) -> (r: char)
    ensures
        r == lower_char(c),
{
    if 'A' <= c && c <= 'Z' {
        ((c as u8) + 32) as char
    } else {
        c
    }
}

/// `s` with every ASCII letter in lower case.
pub fn to_lower(s: &str) -> (out: String)
    ensures
        out@ == lowered(s@),
{
    let mut out = String::new();
    for c in it: s.chars()
        invariant
            it.seq() == s@,
            out@ =~= lowered(s@).take(it.index() as int),
    {
        out.push(to_lower_char(c));
    }
    out
}

/// Whether two strings hold the same characters.
pub fn same(a: &str, b: &str) -> (r: bool)
    ensures
        r == (a@ == b@),
{
    let x = chars_of(a);
    let y = chars_of(b);
    if x.len() != y.len() {
        return false;
    }
    let mut i: usize = 0;
    while i < x.len()
        invariant
            x@ == a@,
            y@ == b@,
            x@.len() == y@.len(),
            i <= x@.len(),
            forall|k: int| 0 <= k < i ==> x@[k] == y@[k],
        decreases x@.len() - i,
    {
        if x[i] != y[i] {
            return false;
        }
        i = i + 1;
    }
    assert(a@ =~= b@);
    true
}

/// The place of the first `c` at or after `from`.
pub fn find_from(chars: &Vec<char>, from: usize, c: char) -> (r: usize)
    requires
        from <= chars@.len(),
    ensures
        from <= r <= chars@.len(),
        r - from == first_index(chars@.skip(from as int), c),
{
    let mut i: usize = from;
    while i < chars.len() && chars[i] != c
        invariant
            from <= i <= chars@.len(),
            forall|k: int| from <= k < i ==> chars@[k] != c,
        decreases chars@.len() - i,
    {
        i = i + 1;
    }
    proof {
        let rest = chars@.skip(from as int);
        assert forall|k: int| 0 <= k < i - from implies rest[k] != c by {
            assert(rest[k] == chars@[k + from]);
        }
        if i < chars@.len() {
            assert(rest[i - from] == chars@[i as int]);
        }
        lemma_first_index_is(rest, c, i - from);
    }
    i
}

/// The parts of `s` before and after its first `c`.
pub fn split_once(s: &str, c: char) -> (out: Option<(String, String)>)
    ensures
        match out {
            Some((a, b)) => parted(s@, c) == Some((a@, b@)),
            None => parted(s@, c) is None,
        },
{
    let chars = chars_of(s);
    let n: usize = chars.len();
    let i = find_from(&chars, 0, c);
    assert(s@.skip(0) =~= s@);
    if i < n {
        let before = string_of(&chars, 0, i);
        let after = string_of(&chars, i + 1, n);
        assert(before@ =~= s@.take(i as int));
        assert(after@ =~= s@.skip(i + 1));
        Some((before, after))
    } else {
        None
    }
}

/// The pieces of `s` between the separators `c`.
pub fn split(s: &str, c: char) -> (out: Vec<String>)
    ensures
        views(out@) == pieces(s@, c),
{
    let chars = chars_of(s);
    let n: usize = chars.len();
    let mut out: Vec<String> = Vec::new();
    let mut from: usize = 0;
    proof {
        assert(s@.skip(0) =~= s@);
        assert(views(out@) + pieces(s@, c) =~= pieces(s@, c));
    }
    loop
        invariant
            chars@ == s@,
            n == chars@.len(),
            from <= n,
            pieces(s@, c) == views(out@) + pieces(s@.skip(from as int), c),
        decreases n - from,
    {
        let i = find_from(&chars, from, c);
        let piece = string_of(&chars, from, i);
        let ghost rest = s@.skip(from as int);
        let ghost before = out@;
        assert(piece@ =~= rest.take(i - from));
        out.push(piece);
        assert(views(out@) =~= views(before).push(piece@));
        if i < n {
            assert(rest.skip(i - from + 1) =~= s@.skip(i + 1));
            assert(views(before) + (seq![piece@] + pieces(s@.skip(i + 1), c)) =~= views(out@)
                + pieces(s@.skip(i + 1), c));
            from = i + 1;
        } else {
            assert(rest.take(i - from) =~= rest);
            assert(views(before) + seq![rest] =~= views(out@));
            return out;
        }
    }
}

/// The lines of `s`.
pub fn lines(s: &str) -> (out: Vec<String>)
    ensures
        views(out@) == line_seq(s@),
{
    let chars = chars_of(s);
    let n: usize = chars.len();
    let mut out: Vec<String> = Vec::new();
    let mut from: usize = 0;
    proof {
        assert(s@.skip(0) =~= s@);
        assert(views(out@) + line_seq(s@) =~= line_seq(s@));
    }
    while from < n
        invariant
            chars@ == s@,
            n == chars@.len(),
            from <= n,
            line_seq(s@) == views(out@) + line_seq(s@.skip(from as int)),
        decreases n - from,
    {
        let i = find_from(&chars, from, '\n');
        let ghost rest = s@.skip(from as int);
        let ghost before = out@;
        if i < n {
            let end: usize = if i > from && chars[i - 1] == '\r' {
                i - 1
            } else {
                i
            };
            let piece = string_of(&chars, from, end);
            proof {
                let whole = rest.take(i - from);
                if i > from {
                    assert(whole.last() == s@[i - 1]);
                }
                assert(piece@ =~= without_cr(whole));
            }
            out.push(piece);
            proof {
                assert(views(out@) =~= views(before).push(piece@));
                assert(rest.skip(i - from + 1) =~= s@.skip(i + 1));
                assert(views(before) + (seq![piece@] + line_seq(s@.skip(i + 1))) =~= views(out@)
                    + line_seq(s@.skip(i + 1)));
            }
            from = i + 1;
        } else {
            let piece = string_of(&chars, from, n);
            assert(piece@ =~= rest);
            out.push(piece);
            proof {
                assert(views(out@) =~= views(before).push(piece@));
                assert(s@.skip(n as int) =~= Seq::<char>::empty());
                assert(line_seq(s@.skip(n as int)) =~= Seq::<Seq<char>>::empty());
                assert(views(before) + seq![rest] =~= views(out@) + line_seq(s@.skip(n as int)));
            }
            from = n;
        }
    }
    proof {
        assert(s@.skip(n as int) =~= Seq::<char>::empty());
        assert(views(out@) + line_seq(s@.skip(n as int)) =~= views(out@));
    }
    out
}

/// Whether `s` begins with `prefix`.
pub fn starts_with(s: &str, prefix: &str) -> (r: bool)
    ensures
        r == prefix@.is_prefix_of(s@),
{
    let n = s.unicode_len();
    let k = prefix.unicode_len();
    if k > n {
        return false;
    }
    let head = s.substring_char(0, k);
    same(head, prefix)
}

/// Whether `s` ends with `suffix`.
pub fn ends_with(s: &str, suffix: &str) -> (r: bool)
    ensures
        r == suffix@.is_suffix_of(s@),
{
    let n = s.unicode_len();
    let k = suffix.unicode_len();
    if k > n {
        return false;
    }
    let tail = s.substring_char(n - k, n);
    same(tail, suffix)
}

/// Whether `s` holds the character `c`.
pub fn has_char(s: &str, c: char) -> (r: bool)
    ensures
        r == s@.contains(c),
{
    let chars = chars_of(s);
    let i = find_from(&chars, 0, c);
    proof {
        assert(s@.skip(0) =~= s@);
        lemma_first_index(s@, c);
        if s@.contains(c) {
            let k = choose|k: int| 0 <= k < s@.len() && s@[k] == c;
            assert(s@[k] == c);
        }
    }
    i < chars.len()
}

/// Whether `t` occurs in `s`.
pub fn has_text(s: &str, t: &str) -> (r: bool)
    ensures
        r == holds_text(s@, t@),
{
    let n = s.unicode_len();
    let k = t.unicode_len();
    if k > n {
        return false;
    }
    let last: usize = n - k;
    let mut i: usize = 0;
    while i < last
        invariant
            n == s@.len(),
            k == t@.len(),
            last == n - k,
            i <= last,
            forall|j: int| 0 <= j < i ==> #[trigger] s@.subrange(j, j + k) != t@,
        decreases last - i,
    {
        let window = s.substring_char(i, i + k);
        if same(window, t) {
            assert(s@.subrange(i as int, i as int + t@.len()) == t@);
            return true;
        }
        i = i + 1;
    }
    let window = s.substring_char(last, n);
    if same(window, t) {
        assert(s@.subrange(last as int, last as int + t@.len()) == t@);
        return true;
    }
    assert(!holds_text(s@, t@)) by {
        if holds_text(s@, t@) {
            let j = choose|j: int|
                0 <= j <= s@.len() - t@.len() && #[trigger] s@.subrange(j, j + t@.len()) == t@;
            assert(s@.subrange(j, j + k) == t@);
        }
    }
    false
}

/// `s` with every `t` replaced by `by`.
pub fn replace(s: &str, t: &str, by: &str) -> (out: String)
    requires
        t@.len() > 0,
    ensures
        out@ == replaced(s@, t@, by@),
{
    let chars = chars_of(s);
    let n: usize = s.unicode_len();
    let k: usize = t.unicode_len();
    let mut out = String::new();
    let mut i: usize = 0;
    assert(s@.skip(0) =~= s@);
    assert(out@ + replaced(s@, t@, by@) =~= replaced(s@, t@, by@));
    while i < n
        invariant
            chars@ == s@,
            n == s@.len(),
            k == t@.len(),
            k > 0,
            i <= n,
            replaced(s@, t@, by@) == out@ + replaced(s@.skip(i as int), t@, by@),
        decreases n - i,
    {
        let ghost rest = s@.skip(i as int);
        let ghost before = out@;
        if k <= n - i && same(s.substring_char(i, i + k), t) {
            proof {
                assert(s@.subrange(i as int, i + k) =~= rest.take(k as int));
                assert(t@.is_prefix_of(rest));
                assert(rest.skip(k as int) =~= s@.skip(i + k));
            }
            out.append(by);
            i = i + k;
            assert(before + (by@ + replaced(s@.skip(i as int), t@, by@)) =~= out@ + replaced(
                s@.skip(i as int),
                t@,
                by@,
            ));
        } else {
            proof {
                if t@.is_prefix_of(rest) {
                    assert(s@.subrange(i as int, i + k) =~= t@);
                }
                assert(rest.drop_first() =~= s@.skip(i + 1));
            }
            out.push(chars[i]);
            i = i + 1;
            assert(before + (seq![rest[0]] + replaced(s@.skip(i as int), t@, by@)) =~= out@
                + replaced(s@.skip(i as int), t@, by@));
        }
    }
    assert(s@.skip(n as int) =~= Seq::<char>::empty());
    assert(out@ + Seq::<char>::empty() =~= out@);
    out
}

// ---------------------------------------------------------------------------------------------
// Laws
// ---------------------------------------------------------------------------------------------
/// White space is what Unicode calls so.
pub proof fn white_space_is_that_of_unicode(c: char, r: bool)
    requires
        call_ensures(white, (c,), r),
    ensures
        r <==> {
            let n = c as u32;
            ||| 0x9 <= n <= 0xd
            ||| n == 0x20
            ||| n == 0x85
            ||| n == 0xa0
            ||| n == 0x1680
            ||| 0x2000 <= n <= 0x200a
            ||| n == 0x2028
            ||| n == 0x2029
            ||| n == 0x202f
            ||| n == 0x205f
            ||| n == 0x3000
        },
{
}

/// What is left of a text by trimming is a part of it that neither begins nor ends with white
/// space; all that was before and after that part is white space.
pub proof fn trimming_takes_white_space_alone(s: &str, out: String)
    requires
        call_ensures(trim, (s,), out),
    ensures
        exists|i: int, j: int|
            {
                &&& 0 <= i <= j <= s@.len()
                &&& out@ == #[trigger] s@.subrange(i, j)
                &&& forall|k: int| 0 <= k < i ==> is_white(#[trigger] s@[k])
                &&& forall|k: int| j <= k < s@.len() ==> is_white(#[trigger] s@[k])
            },
        out@.len() > 0 ==> !is_white(out@[0]) && !is_white(out@[out@.len() - 1]),
{
    lemma_trim_parts(s@);
}

proof fn lemma_trim_start_parts(s: Seq<char>) -> (i: int)
    ensures
        0 <= i <= s.len(),
        trimmed_start(s) == s.skip(i),
        forall|k: int| 0 <= k < i ==> is_white(#[trigger] s[k]),
        i < s.len() ==> !is_white(s[i]),
    decreases s.len(),
{
    if s.len() > 0 && is_white(s[0]) {
        let rest = s.drop_first();
        let i = lemma_trim_start_parts(rest);
        assert(rest.skip(i) =~= s.skip(i + 1));
        assert forall|k: int| 0 <= k < i + 1 implies is_white(#[trigger] s[k]) by {
            if k > 0 {
                assert(rest[k - 1] == s[k]);
            }
        }
        if i + 1 < s.len() {
            assert(rest[i] == s[i + 1]);
        }
        i + 1
    } else {
        assert(s.skip(0) =~= s);
        0
    }
}

proof fn lemma_trim_end_parts(s: Seq<char>) -> (j: int)
    ensures
        0 <= j <= s.len(),
        trimmed_end(s) == s.take(j),
        forall|k: int| j <= k < s.len() ==> is_white(#[trigger] s[k]),
        j > 0 ==> !is_white(s[j - 1]),
    decreases s.len(),
{
    if s.len() > 0 && is_white(s.last()) {
        let rest = s.drop_last();
        let j = lemma_trim_end_parts(rest);
        assert(rest.take(j) =~= s.take(j));
        assert forall|k: int| j <= k < s.len() implies is_white(#[trigger] s[k]) by {
            if k < rest.len() {
                assert(rest[k] == s[k]);
            }
        }
        j
    } else {
        assert(s.take(s.len() as int) =~= s);
        s.len() as int
    }
}

proof fn lemma_trim_parts(s: Seq<char>)
    ensures
        exists|i: int, j: int|
            {
                &&& 0 <= i <= j <= s.len()
                &&& trimmed(s) == #[trigger] s.subrange(i, j)
                &&& forall|k: int| 0 <= k < i ==> is_white(#[trigger] s[k])
                &&& forall|k: int| j <= k < s.len() ==> is_white(#[trigger] s[k])
            },
        trimmed(s).len() > 0 ==> !is_white(trimmed(s)[0]) && !is_white(
            trimmed(s)[trimmed(s).len() - 1],
        ),
{
    let i = lemma_trim_start_parts(s);
    let rest = s.skip(i);
    let n = lemma_trim_end_parts(rest);
    assert(rest.take(n) =~= s.subrange(i, i + n));
    assert forall|k: int| i + n <= k < s.len() implies is_white(#[trigger] s[k]) by {
        assert(rest[k - i] == s[k]);
    }
    if n > 0 {
        assert(rest[0] == s[i]);
    }
}

/// The lower-case form of a text is as long, and differs just in the capital ASCII letters, each of
/// which gives way to its small letter.
pub proof fn lower_case_changes_capitals_alone(s: &str, out: String)
    requires
        call_ensures(to_lower, (s,), out),
    ensures
        out@.len() == s@.len(),
        forall|i: int|
            0 <= i < s@.len() ==> (#[trigger] out@[i]) as u32 == if 65 <= s@[i] as u32 <= 90 {
                s@[i] as u32 + 32
            } else {
                s@[i] as int
            },
{
}

/// A text is parted at the first separator: the parts with that separator between them make the
/// text, and the first part does not hold one. It is not parted where it holds none.
pub proof fn text_is_parted_at_the_first_separator(
    s: &str,
    c: char,
    out: Option<(String, String)>,
)
    requires
        call_ensures(split_once, (s, c), out),
    ensures
        out matches Some(parts) ==> s@ == parts.0@.push(c) + parts.1@ && !parts.0@.contains(c),
        out is None ==> !s@.contains(c),
{
    lemma_first_index(s@, c);
    let i = first_index(s@, c);
    if i < s@.len() {
        assert(s@ =~= s@.take(i).push(c) + s@.skip(i + 1));
    }
}

/// The pieces of a text with a separator after each but the last one.
pub open spec fn joined(parts: Seq<Seq<char>>, c: char) -> Seq<char>
    decreases parts.len(),
{
    if parts.len() == 0 {
        Seq::empty()
    } else if parts.len() == 1 {
        parts[0]
    } else {
        parts[0].push(c) + joined(parts.drop_first(), c)
    }
}

proof fn lemma_pieces_join(s: Seq<char>, c: char)
    ensures
        pieces(s, c).len() > 0,
        joined(pieces(s, c), c) == s,
        forall|k: int| 0 <= k < pieces(s, c).len() ==> !(#[trigger] pieces(s, c)[k]).contains(c),
    decreases s.len(),
{
    lemma_first_index(s, c);
    let i = first_index(s, c);
    if i < s.len() {
        let rest = s.skip(i + 1);
        lemma_pieces_join(rest, c);
        let all = pieces(s, c);
        assert(all.drop_first() =~= pieces(rest, c));
        assert(s =~= s.take(i).push(c) + rest);
        assert forall|k: int| 0 <= k < all.len() implies !(#[trigger] all[k]).contains(c) by {
            if k > 0 {
                assert(all[k] == pieces(rest, c)[k - 1]);
            }
        }
    }
}

/// The pieces of a text hold no separator, and with separators between them they make the text.
pub proof fn pieces_make_the_text(s: &str, c: char, out: Vec<String>)
    requires
        call_ensures(split, (s, c), out),
    ensures
        out@.len() > 0,
        joined(views(out@), c) == s@,
        forall|k: int| 0 <= k < out@.len() ==> !(#[trigger] out@[k])@.contains(c),
{
    lemma_pieces_join(s@, c);
    assert forall|k: int| 0 <= k < out@.len() implies !(#[trigger] out@[k])@.contains(c) by {
        assert(views(out@)[k] == out@[k]@);
    }
}

/// The first line of a text is what stands before the first line feed, without a carriage return
/// right before that; the other lines are those of what stands after it. A text without line feed
/// is one line, and none where it is empty.
pub proof fn lines_are_read_one_by_one(
    s: &str,
    out: Vec<String>,
    line: Seq<char>,
    rest: &str,
    rest_out: Vec<String>,
)
    requires
        call_ensures(lines, (s,), out),
        call_ensures(lines, (rest,), rest_out),
    ensures
        s@.len() == 0 ==> out@.len() == 0,
        s@.len() > 0 && !s@.contains('\n') ==> out@.len() == 1 && out@[0]@ == s@,
        s@ == line.push('\n') + rest@ && !line.contains('\n') ==> {
            let first = if line.len() > 0 && line[line.len() - 1] == '\r' {
                line.drop_last()
            } else {
                line
            };
            &&& out@.len() == rest_out@.len() + 1
            &&& out@[0]@ == first
            &&& forall|k: int|
                0 <= k < rest_out@.len() ==> (#[trigger] rest_out@[k])@ == out@[k + 1]@
        },
{
    lemma_first_index(s@, '\n');
    let i = first_index(s@, '\n');
    assert(views(out@).len() == out@.len());
    if s@.len() > 0 && !s@.contains('\n') {
        assert(i == s@.len());
        assert(views(out@)[0] == out@[0]@);
    }
    if s@ == line.push('\n') + rest@ && !line.contains('\n') {
        assert(s@[line.len() as int] == '\n');
        assert forall|k: int| 0 <= k < line.len() implies s@[k] != '\n' by {
            assert(s@[k] == line[k]);
        }
        lemma_first_index_is(s@, '\n', line.len() as int);
        assert(s@.take(i) =~= line);
        assert(s@.skip(i + 1) =~= rest@);
        assert(views(out@)[0] == out@[0]@);
        assert forall|k: int| 0 <= k < rest_out@.len() implies (#[trigger] rest_out@[k])@
            == out@[k + 1]@ by {
            assert(views(rest_out@)[k] == rest_out@[k]@);
            assert(views(out@)[k + 1] == out@[k + 1]@);
        }
    }
}

/// A text begins with a prefix where something follows the prefix to make the text; and it ends
/// with a suffix where something goes before.
pub proof fn beginnings_and_ends(s: &str, t: &str, begins: bool, ends: bool)
    requires
        call_ensures(starts_with, (s, t), begins),
        call_ensures(ends_with, (s, t), ends),
    ensures
        begins <==> exists|rest: Seq<char>| s@ == #[trigger] (t@ + rest),
        ends <==> exists|rest: Seq<char>| s@ == #[trigger] (rest + t@),
{
    if begins {
        assert(s@ =~= t@ + s@.skip(t@.len() as int));
    }
    if exists|rest: Seq<char>| s@ == #[trigger] (t@ + rest) {
        assert(t@ =~= s@.take(t@.len() as int));
    }
    if ends {
        assert(s@ =~= s@.take(s@.len() - t@.len()) + t@);
    }
    if exists|rest: Seq<char>| s@ == #[trigger] (rest + t@) {
        assert(t@ =~= s@.skip(s@.len() - t@.len()));
    }
}

/// A text holds another where something goes before it and something follows it to make the text,
/// and it holds a character where that is one of its characters.
pub proof fn parts_are_found(s: &str, t: &str, c: char, found: bool, has: bool, equal: bool)
    requires
        call_ensures(has_text, (s, t), found),
        call_ensures(has_char, (s, c), has),
        call_ensures(same, (s, t), equal),
    ensures
        found <==> exists|a: Seq<char>, b: Seq<char>| s@ == #[trigger] (a + t@ + b),
        has <==> exists|i: int| 0 <= i < s@.len() && #[trigger] s@[i] == c,
        equal <==> s@ == t@,
{
    if found {
        let i = choose|i: int|
            0 <= i <= s@.len() - t@.len() && #[trigger] s@.subrange(i, i + t@.len()) == t@;
        assert(s@ =~= s@.take(i) + t@ + s@.skip(i + t@.len()));
    }
    if exists|a: Seq<char>, b: Seq<char>| s@ == #[trigger] (a + t@ + b) {
        let (a, b) = choose|a: Seq<char>, b: Seq<char>| s@ == #[trigger] (a + t@ + b);
        assert(s@.subrange(a.len() as int, a.len() as int + t@.len()) =~= t@);
    }
}

proof fn lemma_replaced_none(s: Seq<char>, t: Seq<char>, with: Seq<char>)
    requires
        t.len() > 0,
        !holds_text(s, t),
    ensures
        replaced(s, t, with) == s,
    decreases s.len(),
{
    if s.len() > 0 {
        if t.is_prefix_of(s) {
            assert(s.subrange(0, 0int + t.len()) =~= t);
        }
        let rest = s.drop_first();
        assert(!holds_text(rest, t)) by {
            if holds_text(rest, t) {
                let i = choose|i: int|
                    0 <= i <= rest.len() - t.len() && #[trigger] rest.subrange(i, i + t.len()) == t;
                assert(s.subrange(i + 1, i + 1 + t.len()) =~= t);
            }
        }
        lemma_replaced_none(rest, t, with);
        assert(seq![s[0]] + rest =~= s);
    }
}

proof fn lemma_held_further_on(c: char, u: Seq<char>, t: Seq<char>)
    requires
        holds_text(u, t),
    ensures
        holds_text(seq![c] + u, t),
{
    let w = seq![c] + u;
    let i = choose|i: int|
        0 <= i <= u.len() - t.len() && #[trigger] u.subrange(i, i + t.len()) == t;
    let j = i + 1;
    assert(w.subrange(j, j + t.len()) =~= u.subrange(i, i + t.len()));
}

proof fn lemma_held_by_rest(a: Seq<char>, t: Seq<char>)
    requires
        t.len() > 0,
        a.len() > 0,
        holds_text((a.drop_first() + t).drop_last(), t),
    ensures
        holds_text((a + t).drop_last(), t),
{
    let u = (a.drop_first() + t).drop_last();
    lemma_held_further_on(a[0], u, t);
    assert((a + t).drop_last() =~= seq![a[0]] + u);
}

proof fn lemma_held_at_first(a: Seq<char>, t: Seq<char>, rest: Seq<char>)
    requires
        t.len() > 0,
        a.len() > 0,
        t.is_prefix_of(a + t + rest),
    ensures
        holds_text((a + t).drop_last(), t),
{
    let w = (a + t).drop_last();
    let s = a + t + rest;
    assert(w.subrange(0, 0int + t.len()) =~= s.subrange(0, t.len() as int));
}

proof fn lemma_replaced_first(
    s: Seq<char>,
    t: Seq<char>,
    with: Seq<char>,
    a: Seq<char>,
    rest: Seq<char>,
)
    requires
        t.len() > 0,
        s == a + t + rest,
        !holds_text((a + t).drop_last(), t),
    ensures
        replaced(s, t, with) == a + with + replaced(rest, t, with),
    decreases a.len(),
{
    if a.len() == 0 {
        assert(s.subrange(0, t.len() as int) =~= t);
        assert(s.skip(t.len() as int) =~= rest);
        assert(a + with =~= with);
    } else {
        if t.is_prefix_of(s) {
            lemma_held_at_first(a, t, rest);
        }
        let b = a.drop_first();
        assert(s.drop_first() =~= b + t + rest);
        if holds_text((b + t).drop_last(), t) {
            lemma_held_by_rest(a, t);
        }
        lemma_replaced_first(s.drop_first(), t, with, b, rest);
        let done = replaced(rest, t, with);
        assert(s[0] == a[0]);
        assert(seq![a[0]] + (b + with + done) =~= a + with + done);
    }
}

/// Replacing leaves a text as it is where it does not hold what is to be replaced. Where it does,
/// the first occurrence gives way, what stands before it stays, and replacing goes on with what
/// follows it.
pub proof fn occurrences_give_way_one_by_one(
    s: &str,
    t: &str,
    with: &str,
    out: String,
    before: Seq<char>,
    rest: &str,
    rest_out: String,
)
    requires
        t@.len() > 0,
        call_ensures(replace, (s, t, with), out),
        call_ensures(replace, (rest, t, with), rest_out),
    ensures
        (forall|a: Seq<char>, b: Seq<char>| s@ != #[trigger] (a + t@ + b)) ==> out@ == s@,
        s@ == before + t@ + rest@ && (forall|a: Seq<char>, b: Seq<char>|
            (before + t@).drop_last() != #[trigger] (a + t@ + b)) ==> out@ == before + with@
            + rest_out@,
{
    if forall|a: Seq<char>, b: Seq<char>| s@ != #[trigger] (a + t@ + b) {
        assert(!holds_text(s@, t@)) by {
            if holds_text(s@, t@) {
                let i = choose|i: int|
                    0 <= i <= s@.len() - t@.len() && #[trigger] s@.subrange(i, i + t@.len()) == t@;
                assert(s@ =~= s@.take(i) + t@ + s@.skip(i + t@.len()));
            }
        }
        lemma_replaced_none(s@, t@, with@);
    }
    let u = (before + t@).drop_last();
    if s@ == before + t@ + rest@ && (forall|a: Seq<char>, b: Seq<char>| u != #[trigger] (a + t@
        + b)) {
        assert(!holds_text(u, t@)) by {
            if holds_text(u, t@) {
                let i = choose|i: int|
                    0 <= i <= u.len() - t@.len() && #[trigger] u.subrange(i, i + t@.len()) == t@;
                assert(u =~= u.take(i) + t@ + u.skip(i + t@.len()));
            }
        }
        lemma_replaced_first(s@, t@, with@, before, rest@);
    }
}

/// The characters of a text are those of the text, and a part of them is that part.
pub proof fn characters_are_kept(
    s: &str,
    chars: Vec<char>,
    from: usize,
    to: usize,
    out: String,
)
    requires
        call_ensures(chars_of, (s,), chars),
        call_ensures(string_of, (&chars, from, to), out),
        from <= to <= s@.len(),
    ensures
        chars@.len() == s@.len(),
        forall|i: int| 0 <= i < s@.len() ==> (#[trigger] chars@[i]) == s@[i],
        out@.len() == to - from,
        forall|i: int| 0 <= i < to - from ==> (#[trigger] out@[i]) == s@[i + from],
{
}

/// The place that is found is the first one of the character at or after the beginning, and the end
/// of the text where there is none.
pub proof fn first_place_is_found(chars: &Vec<char>, from: usize, c: char, r: usize)
    requires
        from <= chars@.len(),
        call_ensures(find_from, (chars, from, c), r),
    ensures
        from <= r <= chars@.len(),
        forall|k: int| from <= k < r ==> (#[trigger] chars@[k]) != c,
        r < chars@.len() ==> chars@[r as int] == c,
{
    let rest = chars@.skip(from as int);
    lemma_first_index(rest, c);
    assert forall|k: int| from <= k < r implies (#[trigger] chars@[k]) != c by {
        assert(rest[k - from] == chars@[k]);
    }
    if r < chars@.len() {
        assert(rest[r - from] == chars@[r as int]);
    }
}

/// A capital ASCII letter has its small letter as lower-case form, and every other character
/// itself.
pub proof fn capitals_have_small_letters(c: char, r: char)
    requires
        call_ensures(to_lower_char, (c,), r),
    ensures
        65 <= c as u32 <= 90 ==> r as u32 == c as u32 + 32,
        !(65 <= c as u32 <= 90) ==> r == c,
{
}

/// Optional texts that look the same are both missing or both hold the same characters, and lists
/// of texts that look the same hold the same texts in the same order.
pub proof fn texts_are_known_by_their_characters(
    a: Option<String>,
    b: Option<String>,
    c: Option<&str>,
    v: Seq<String>,
    w: Seq<String>,
)
    requires
        opt_view(a) == opt_view(b),
        opt_str(c) == opt_view(a),
        views(v) == views(w),
    ensures
        a is None <==> b is None,
        a is Some ==> b->0@ == a->0@,
        c is None <==> a is None,
        c is Some ==> c->0@ == a->0@,
        v.len() == w.len(),
        forall|i: int| 0 <= i < v.len() ==> (#[trigger] v[i])@ == w[i]@,
{
    assert(views(v).len() == v.len() && views(w).len() == w.len());
    assert forall|i: int| 0 <= i < v.len() implies (#[trigger] v[i])@ == w[i]@ by {
        assert(views(v)[i] == v[i]@ && views(w)[i] == w[i]@);
    }
}

} // verus!
