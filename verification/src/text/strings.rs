//! Strings as sequences of characters: building, comparing, trimming,
//! splitting and joining.

use vstd::prelude::*;
use vstd::string::*;

use crate::text::chars::{
    ascii_lower, ascii_lowercase, ascii_upper, ascii_uppercase, is_white_space, to_ascii_lower,
    white_space,
};

verus! {

/// `String::push` appends one character.
pub assume_specification[ String::push ](s: &mut String, ch: char)
    ensures
        final(s)@ == old(s)@.push(ch),
;

/// The texts of a list of strings.
pub open spec fn views(v: Seq<String>) -> Seq<Seq<char>> {
    v.map_values(|s: String| s@)
}

/// The texts of a list of string slices.
pub open spec fn str_views(v: Seq<&str>) -> Seq<Seq<char>> {
    v.map_values(|s: &str| s@)
}

/// `s` without its leading white space.
pub open spec fn trim_start(s: Seq<char>) -> Seq<char>
    decreases s.len(),
{
    if s.len() > 0 && white_space(s[0]) {
        trim_start(s.drop_first())
    } else {
        s
    }
}

/// `s` without its trailing white space.
pub open spec fn trim_end(s: Seq<char>) -> Seq<char>
    decreases s.len(),
{
    if s.len() > 0 && white_space(s.last()) {
        trim_end(s.drop_last())
    } else {
        s
    }
}

/// `s` without white space at either end.
pub open spec fn trim(s: Seq<char>) -> Seq<char> {
    trim_end(trim_start(s))
}

/// `s` without its leading run of `c`.
pub open spec fn trim_start_char(s: Seq<char>, c: char) -> Seq<char>
    decreases s.len(),
{
    if s.len() > 0 && s[0] == c {
        trim_start_char(s.drop_first(), c)
    } else {
        s
    }
}

/// `s` without its trailing run of `c`.
pub open spec fn trim_end_char(s: Seq<char>, c: char) -> Seq<char>
    decreases s.len(),
{
    if s.len() > 0 && s.last() == c {
        trim_end_char(s.drop_last(), c)
    } else {
        s
    }
}

/// How many characters stand before the first white space of `s`.
pub open spec fn word_len(s: Seq<char>) -> nat
    decreases s.len(),
{
    if s.len() == 0 || white_space(s[0]) {
        0
    } else {
        1 + word_len(s.drop_first())
    }
}

/// The maximal runs without white space in `s`, in order.
pub open spec fn words(s: Seq<char>) -> Seq<Seq<char>>
    decreases s.len(),
{
    if s.len() == 0 {
        Seq::empty()
    } else if white_space(s[0]) {
        words(s.drop_first())
    } else if word_len(s) >= s.len() {
        seq![s]
    } else {
        seq![s.take(word_len(s) as int)] + words(s.skip(word_len(s) as int))
    }
}

/// The texts of `list` with `sep` between neighbours.
pub open spec fn join(list: Seq<Seq<char>>, sep: Seq<char>) -> Seq<char>
    decreases list.len(),
{
    if list.len() == 0 {
        Seq::empty()
    } else if list.len() == 1 {
        list[0]
    } else {
        join(list.drop_last(), sep) + sep + list.last()
    }
}

/// Whether `needle` stands in `hay` at position `i`.
pub open spec fn occurs_at(hay: Seq<char>, needle: Seq<char>, i: int) -> bool {
    &&& 0 <= i
    &&& i + needle.len() <= hay.len()
    &&& hay.subrange(i, i + needle.len()) == needle
}

/// Whether `needle` stands somewhere in `hay`.
pub open spec fn contains(hay: Seq<char>, needle: Seq<char>) -> bool {
    exists|i: int| occurs_at(hay, needle, i)
}

/// Whether `s` begins with `p`.
pub open spec fn starts_with(s: Seq<char>, p: Seq<char>) -> bool {
    occurs_at(s, p, 0)
}

/// Whether `s` ends with `p`.
pub open spec fn ends_with(s: Seq<char>, p: Seq<char>) -> bool {
    occurs_at(s, p, s.len() - p.len())
}

/// `s` with `c` replaced by `by` throughout.
pub open spec fn replace_char(s: Seq<char>, c: char, by: char) -> Seq<char> {
    s.map_values(|x: char| if x == c { by } else { x })
}

/// Equality up to the case of ASCII letters.
pub open spec fn same_ignoring_ascii_case(a: Seq<char>, b: Seq<char>) -> bool {
    ascii_lowercase(a) == ascii_lowercase(b)
}

/// The characters of a text.
pub fn chars_of(s: &str) -> (r: Vec<char>)
    ensures
        r@ == s@,
{
    let mut r: Vec<char> = Vec::new();
    for c in it: s.chars()
        invariant
            r@ == it.seq().take(it.index() as int),
    {
        r.push(c);
    }
    assert(r@ == s@);
    r
}

/// The characters `from..to` as a string.
pub fn string_of_range(chars: &Vec<char>, from: usize, to: usize) -> (r: String)
    requires
        from <= to <= chars@.len(),
    ensures
        r@ == chars@.subrange(from as int, to as int),
{
    let mut r = String::new();
    let mut i: usize = from;
    while i < to
        invariant
            from <= i <= to <= chars@.len(),
            r@ == chars@.subrange(from as int, i as int),
        decreases to - i,
    {
        r.push(chars[i]);
        i += 1;
        assert(r@ == chars@.subrange(from as int, i as int));
    }
    r
}

/// Equality of two texts.
pub fn str_eq(a: &str, b: &str) -> (r: bool)
    ensures
        r == (a@ == b@),
{
    let x = chars_of(a);
    let y = chars_of(b);
    if x.len() != y.len() {
        return false;
    }
    let mut i: usize = 0;
    while i < x.len()
        invariant
            x@ == a@,
            y@ == b@,
            x@.len() == y@.len(),
            i <= x@.len(),
            forall|j: int| 0 <= j < i ==> x@[j] == y@[j],
        decreases x@.len() - i,
    {
        if x[i] != y[i] {
            return false;
        }
        i += 1;
    }
    assert(a@ == b@);
    true
}

/// The concatenation of two texts.
pub fn concat(a: &str, b: &str) -> (r: String)
    ensures
        r@ == a@ + b@,
{
    let mut r = a.to_string();
    r.append(b);
    r
}

/// The concatenation of three texts.
pub fn concat3(a: &str, b: &str, c: &str) -> (r: String)
    ensures
        r@ == a@ + b@ + c@,
{
    let mut r = a.to_string();
    r.append(b);
    r.append(c);
    r
}

/// The position after the leading white space.
fn leading_white_space(chars: &Vec<char>) -> (n: usize)
    ensures
        n <= chars@.len(),
        trim_start(chars@) == chars@.skip(n as int),
        n < chars@.len() ==> !white_space(chars@[n as int]),
{
    let mut n: usize = 0;
    assert(chars@.skip(0) == chars@);
    while n < chars.len() && is_white_space(chars[n])
        invariant
            n <= chars@.len(),
            trim_start(chars@) == trim_start(chars@.skip(n as int)),
        decreases chars@.len() - n,
    {
        assert(chars@.skip(n as int).drop_first() == chars@.skip(n + 1));
        n += 1;
    }
    n
}

/// The position before the trailing white space of `chars[from..]`.
fn before_trailing_white_space(chars: &Vec<char>, from: usize) -> (n: usize)
    requires
        from <= chars@.len(),
    ensures
        from <= n <= chars@.len(),
        trim_end(chars@.skip(from as int)) == chars@.subrange(from as int, n as int),
        n > from ==> !white_space(chars@[n - 1]),
{
    let mut n: usize = chars.len();
    assert(chars@.skip(from as int) == chars@.subrange(from as int, n as int));
    while n > from && is_white_space(chars[n - 1])
        invariant
            from <= n <= chars@.len(),
            trim_end(chars@.skip(from as int)) == trim_end(chars@.subrange(from as int, n as int)),
        decreases n,
    {
        assert(chars@.subrange(from as int, n as int).drop_last() == chars@.subrange(
            from as int,
            n - 1,
        ));
        n -= 1;
    }
    n
}

/// A text without white space at its ends.
pub fn trimmed(s: &str) -> (r: String)
    ensures
        r@ == trim(s@),
{
    let chars = chars_of(s);
    let from = leading_white_space(&chars);
    let to = before_trailing_white_space(&chars, from);
    string_of_range(&chars, from, to)
}

/// A text without its leading white space.
pub fn trimmed_start(s: &str) -> (r: String)
    ensures
        r@ == trim_start(s@),
{
    let chars = chars_of(s);
    let from = leading_white_space(&chars);
    let r = string_of_range(&chars, from, chars.len());
    assert(chars@.subrange(from as int, chars@.len() as int) == chars@.skip(from as int));
    r
}

/// A text without its trailing white space.
pub fn trimmed_end(s: &str) -> (r: String)
    ensures
        r@ == trim_end(s@),
{
    let chars = chars_of(s);
    let to = before_trailing_white_space(&chars, 0);
    assert(chars@.skip(0) == chars@);
    string_of_range(&chars, 0, to)
}

/// A text without its leading run of `c`.
pub fn trimmed_start_char(s: &str, c: char) -> (r: String)
    ensures
        r@ == trim_start_char(s@, c),
{
    let chars = chars_of(s);
    let mut n: usize = 0;
    assert(chars@.skip(0) == chars@);
    while n < chars.len() && chars[n] == c
        invariant
            n <= chars@.len(),
            trim_start_char(chars@, c) == trim_start_char(chars@.skip(n as int), c),
        decreases chars@.len() - n,
    {
        assert(chars@.skip(n as int).drop_first() == chars@.skip(n + 1));
        n += 1;
    }
    let r = string_of_range(&chars, n, chars.len());
    assert(chars@.subrange(n as int, chars@.len() as int) == chars@.skip(n as int));
    r
}

/// A text without its trailing run of `c`.
pub fn trimmed_end_char(s: &str, c: char) -> (r: String)
    ensures
        r@ == trim_end_char(s@, c),
{
    let chars = chars_of(s);
    let mut n: usize = chars.len();
    assert(chars@.take(n as int) == chars@);
    while n > 0 && chars[n - 1] == c
        invariant
            n <= chars@.len(),
            trim_end_char(chars@, c) == trim_end_char(chars@.take(n as int), c),
        decreases n,
    {
        assert(chars@.take(n as int).drop_last() == chars@.take(n - 1));
        n -= 1;
    }
    let r = string_of_range(&chars, 0, n);
    assert(chars@.subrange(0, n as int) == chars@.take(n as int));
    r
}

/// The words of a text.
pub fn split_words(s: &str) -> (r: Vec<String>)
    ensures
        views(r@) == words(s@),
{
    let chars = chars_of(s);
    let mut r: Vec<String> = Vec::new();
    let mut i: usize = 0;
    assert(chars@.skip(0) == chars@);
    assert(views(r@) + words(chars@.skip(0)) == words(chars@));
    while i < chars.len()
        invariant
            i <= chars@.len(),
            views(r@) + words(chars@.skip(i as int)) == words(chars@),
        decreases chars@.len() - i,
    {
        let ghost rest = chars@.skip(i as int);
        if is_white_space(chars[i]) {
            assert(rest.drop_first() == chars@.skip(i + 1));
            i += 1;
        } else {
            let mut j: usize = i;
            assert(chars@.skip(j as int) == rest);
            while j < chars.len() && !is_white_space(chars[j])
                invariant
                    i <= j <= chars@.len(),
                    rest == chars@.skip(i as int),
                    word_len(rest) == (j - i) + word_len(chars@.skip(j as int)),
                decreases chars@.len() - j,
            {
                assert(chars@.skip(j as int).drop_first() == chars@.skip(j + 1));
                j += 1;
            }
            assert(word_len(chars@.skip(j as int)) == 0);
            let word = string_of_range(&chars, i, j);
            assert(word@ == rest.take(j - i));
            let ghost before = views(r@);
            r.push(word);
            assert(views(r@) == before.push(word@));
            assert(rest.skip(j - i) == chars@.skip(j as int));
            if j == chars.len() {
                assert(rest.take(j - i) == rest);
                assert(words(chars@.skip(j as int)) == Seq::<Seq<char>>::empty());
            }
            assert(words(rest) == seq![word@] + words(chars@.skip(j as int)));
            assert(before.push(word@) + words(chars@.skip(j as int)) == before + (seq![word@]
                + words(chars@.skip(j as int))));
            i = j;
        }
    }
    assert(words(chars@.skip(i as int)) == Seq::<Seq<char>>::empty());
    assert(views(r@) + Seq::<Seq<char>>::empty() == views(r@));
    r
}

/// The texts of a list with `sep` between neighbours.
pub fn joined(list: &Vec<String>, sep: &str) -> (r: String)
    ensures
        r@ == join(views(list@), sep@),
{
    let mut r = String::new();
    let mut i: usize = 0;
    let ghost texts = views(list@);
    assert(texts.take(0) == Seq::<Seq<char>>::empty());
    while i < list.len()
        invariant
            texts == views(list@),
            i <= list@.len(),
            r@ == join(texts.take(i as int), sep@),
        decreases list@.len() - i,
    {
        if i > 0 {
            r.append(sep);
        }
        r.append(list[i].as_str());
        assert(texts.take(i + 1).drop_last() == texts.take(i as int));
        assert(texts.take(i + 1).last() == list@[i as int]@);
        if i == 0 {
            assert(r@ == list@[0]@);
        }
        i += 1;
    }
    assert(texts.take(i as int) == texts);
    r
}

/// Tests whether `needle` stands in `hay` at position `i`.
fn chars_occur_at(hay: &Vec<char>, needle: &Vec<char>, i: usize) -> (r: bool)
    requires
        i + needle@.len() <= hay@.len(),
    ensures
        r == occurs_at(hay@, needle@, i as int),
{
    let mut k: usize = 0;
    let len = hay.len();
    while k < needle.len()
        invariant
            k <= needle@.len(),
            i + needle@.len() <= hay@.len(),
            len == hay@.len(),
            forall|j: int| 0 <= j < k ==> hay@[i + j] == needle@[j],
        decreases needle@.len() - k,
    {
        if hay[i + k] != needle[k] {
            assert(hay@.subrange(i as int, i + needle@.len())[k as int] != needle@[k as int]);
            return false;
        }
        k += 1;
    }
    assert(hay@.subrange(i as int, i + needle@.len()) == needle@);
    true
}

/// Tests whether `needle` stands somewhere in `hay`.
pub fn contains_str(hay: &str, needle: &str) -> (r: bool)
    ensures
        r == contains(hay@, needle@),
{
    let h = chars_of(hay);
    let n = chars_of(needle);
    if n.len() > h.len() {
        return false;
    }
    let last: usize = h.len() - n.len();
    let mut i: usize = 0;
    while i < last
        invariant
            h@ == hay@,
            n@ == needle@,
            n@.len() <= h@.len(),
            i <= last == h@.len() - n@.len(),
            forall|j: int| 0 <= j < i ==> !occurs_at(hay@, needle@, j),
        decreases last - i,
    {
        if chars_occur_at(&h, &n, i) {
            return true;
        }
        i += 1;
    }
    chars_occur_at(&h, &n, last)
}

/// Tests whether `s` begins with `p`.
pub fn starts_with_str(s: &str, p: &str) -> (r: bool)
    ensures
        r == starts_with(s@, p@),
{
    let x = chars_of(s);
    let y = chars_of(p);
    y.len() <= x.len() && chars_occur_at(&x, &y, 0)
}

/// Tests whether `s` ends with `p`.
pub fn ends_with_str(s: &str, p: &str) -> (r: bool)
    ensures
        r == ends_with(s@, p@),
{
    let x = chars_of(s);
    let y = chars_of(p);
    y.len() <= x.len() && chars_occur_at(&x, &y, x.len() - y.len())
}

/// `s` without the prefix `p`, where it has it.
pub open spec fn strip_prefix(s: Seq<char>, p: Seq<char>) -> Option<Seq<char>> {
    if starts_with(s, p) {
        Some(s.skip(p.len() as int))
    } else {
        None
    }
}

/// `s` without the suffix `p`, where it has it.
pub open spec fn strip_suffix(s: Seq<char>, p: Seq<char>) -> Option<Seq<char>> {
    if ends_with(s, p) {
        Some(s.take(s.len() - p.len()))
    } else {
        None
    }
}

/// The text of an optional string.
pub open spec fn opt_view(s: Option<String>) -> Option<Seq<char>> {
    match s {
        Some(t) => Some(t@),
        None => None,
    }
}

/// Takes the prefix `p` off `s`, where it has it.
pub fn without_prefix(s: &str, p: &str) -> (r: Option<String>)
    ensures
        opt_view(r) == strip_prefix(s@, p@),
{
    let x = chars_of(s);
    let y = chars_of(p);
    if y.len() <= x.len() && chars_occur_at(&x, &y, 0) {
        let t = string_of_range(&x, y.len(), x.len());
        assert(t@ == s@.skip(p@.len() as int));
        Some(t)
    } else {
        None
    }
}

/// Takes the suffix `p` off `s`, where it has it.
pub fn without_suffix(s: &str, p: &str) -> (r: Option<String>)
    ensures
        opt_view(r) == strip_suffix(s@, p@),
{
    let x = chars_of(s);
    let y = chars_of(p);
    if y.len() <= x.len() && chars_occur_at(&x, &y, x.len() - y.len()) {
        let t = string_of_range(&x, 0, x.len() - y.len());
        assert(t@ == s@.take(s@.len() - p@.len()));
        Some(t)
    } else {
        None
    }
}

/// A text with one character replaced by another.
pub fn with_char_replaced(s: &str, c: char, by: char) -> (r: String)
    ensures
        r@ == replace_char(s@, c, by),
{
    let chars = chars_of(s);
    let mut r = String::new();
    let mut i: usize = 0;
    while i < chars.len()
        invariant
            i <= chars@.len(),
            r@ == replace_char(chars@.take(i as int), c, by),
        decreases chars@.len() - i,
    {
        r.push(if chars[i] == c { by } else { chars[i] });
        assert(replace_char(chars@.take(i + 1), c, by) == replace_char(
            chars@.take(i as int),
            c,
            by,
        ).push(if chars@[i as int] == c { by } else { chars@[i as int] }));
        i += 1;
    }
    assert(chars@.take(i as int) == chars@);
    r
}

/// Equality up to the case of ASCII letters.
pub fn eq_ignoring_ascii_case(a: &str, b: &str) -> (r: bool)
    ensures
        r == same_ignoring_ascii_case(a@, b@),
{
    let x = chars_of(a);
    let y = chars_of(b);
    if x.len() != y.len() {
        assert(ascii_lowercase(a@).len() != ascii_lowercase(b@).len());
        return false;
    }
    let mut i: usize = 0;
    while i < x.len()
        invariant
            x@ == a@,
            y@ == b@,
            x@.len() == y@.len(),
            i <= x@.len(),
            forall|j: int| 0 <= j < i ==> ascii_lower(x@[j]) == ascii_lower(y@[j]),
        decreases x@.len() - i,
    {
        if to_ascii_lower(x[i]) != to_ascii_lower(y[i]) {
            assert(ascii_lowercase(a@)[i as int] != ascii_lowercase(b@)[i as int]);
            return false;
        }
        i += 1;
    }
    assert(ascii_lowercase(a@) == ascii_lowercase(b@));
    true
}

/// How many characters stand before the first `c` of `s`: all of them where
/// there is none.
pub open spec fn index_of(s: Seq<char>, c: char) -> nat
    decreases s.len(),
{
    if s.len() == 0 || s[0] == c {
        0
    } else {
        1 + index_of(s.drop_first(), c)
    }
}

/// The position of the last `c` in `s`.
pub open spec fn last_index_of(s: Seq<char>, c: char) -> Option<int>
    decreases s.len(),
{
    if s.len() == 0 {
        None
    } else if s.last() == c {
        Some(s.len() - 1)
    } else {
        last_index_of(s.drop_last(), c)
    }
}

/// The position of the last `c` in a text.
pub fn position_of_last(s: &str, c: char) -> (r: Option<usize>)
    ensures
        match r {
            Some(i) => last_index_of(s@, c) == Some(i as int) && i < s@.len() && s@.len()
                <= usize::MAX && s@[i as int] == c,
            None => last_index_of(s@, c) is None,
        },
{
    let chars = chars_of(s);
    let mut n: usize = chars.len();
    assert(chars@.take(n as int) == chars@);
    while n > 0
        invariant
            chars@ == s@,
            n <= chars@.len(),
            last_index_of(s@, c) == last_index_of(chars@.take(n as int), c),
        decreases n,
    {
        if chars[n - 1] == c {
            return Some(n - 1);
        }
        assert(chars@.take(n as int).drop_last() == chars@.take(n - 1));
        n -= 1;
    }
    None
}

/// The last position, up to `k`, at which `needle` stands in `hay`.
pub open spec fn last_occurrence_to(hay: Seq<char>, needle: Seq<char>, k: int) -> Option<int>
    decreases k + 1,
{
    if k < 0 {
        None
    } else if occurs_at(hay, needle, k) {
        Some(k)
    } else {
        last_occurrence_to(hay, needle, k - 1)
    }
}

/// The last position at which `needle` stands in `hay`.
pub open spec fn last_occurrence(hay: Seq<char>, needle: Seq<char>) -> Option<int> {
    last_occurrence_to(hay, needle, hay.len() - needle.len())
}

/// The last position at which one text stands in another.
pub fn position_of_last_str(hay: &str, needle: &str) -> (r: Option<usize>)
    ensures
        match r {
            Some(i) => last_occurrence(hay@, needle@) == Some(i as int) && i + needle@.len()
                <= hay@.len(),
            None => last_occurrence(hay@, needle@) is None,
        },
{
    let h = chars_of(hay);
    let n = chars_of(needle);
    if n.len() > h.len() {
        return None;
    }
    let mut i: usize = h.len() - n.len();
    while i > 0
        invariant
            h@ == hay@,
            n@ == needle@,
            i + n@.len() <= h@.len(),
            last_occurrence(hay@, needle@) == last_occurrence_to(hay@, needle@, i as int),
        decreases i,
    {
        if chars_occur_at(&h, &n, i) {
            return Some(i);
        }
        i -= 1;
    }
    if chars_occur_at(&h, &n, 0) {
        Some(0)
    } else {
        assert(last_occurrence_to(hay@, needle@, -1) is None);
        None
    }
}

/// A line without the carriage return that ends it, if any.
pub open spec fn without_return(line: Seq<char>) -> Seq<char> {
    if line.len() > 0 && line.last() == '\r' {
        line.drop_last()
    } else {
        line
    }
}

/// The lines of a text: what stands before each line feed, without a carriage
/// return at its end, and what follows the last one, unless nothing does.
pub open spec fn lines(s: Seq<char>) -> Seq<Seq<char>>
    decreases s.len(),
{
    if s.len() == 0 {
        Seq::empty()
    } else if index_of(s, '\n') >= s.len() {
        seq![s]
    } else {
        seq![without_return(s.take(index_of(s, '\n') as int))] + lines(
            s.skip((index_of(s, '\n') + 1) as int),
        )
    }
}

/// The lines of a text.
pub fn split_lines(s: &str) -> (r: Vec<String>)
    ensures
        views(r@) == lines(s@),
{
    let chars = chars_of(s);
    let mut r: Vec<String> = Vec::new();
    let mut i: usize = 0;
    assert(chars@.skip(0) == chars@);
    assert(views(r@) + lines(chars@.skip(0)) == lines(chars@));
    while i < chars.len()
        invariant
            i <= chars@.len(),
            views(r@) + lines(chars@.skip(i as int)) == lines(chars@),
        decreases chars@.len() - i,
    {
        let ghost rest = chars@.skip(i as int);
        let ghost before = views(r@);
        let mut j: usize = i;
        while j < chars.len() && chars[j] != '\n'
            invariant
                i <= j <= chars@.len(),
                rest == chars@.skip(i as int),
                index_of(rest, '\n') == (j - i) + index_of(chars@.skip(j as int), '\n'),
            decreases chars@.len() - j,
        {
            assert(chars@.skip(j as int).drop_first() == chars@.skip(j + 1));
            j += 1;
        }
        assert(index_of(chars@.skip(j as int), '\n') == 0);
        if j == chars.len() {
            let line = string_of_range(&chars, i, j);
            assert(line@ == rest);
            r.push(line);
            assert(views(r@) == before.push(line@));
            assert(chars@.skip(j as int).len() == 0);
            i = j;
        } else {
            let end: usize = if j > i && chars[j - 1] == '\r' { j - 1 } else { j };
            let line = string_of_range(&chars, i, end);
            assert(line@ == without_return(rest.take(j - i)));
            r.push(line);
            assert(views(r@) == before.push(line@));
            assert(rest.skip(j - i + 1) == chars@.skip(j + 1));
            i = j + 1;
        }
        assert(lines(rest) == seq![views(r@).last()] + lines(chars@.skip(i as int)));
        assert(views(r@) + lines(chars@.skip(i as int)) == before + lines(rest));
    }
    assert(lines(chars@.skip(i as int)) == Seq::<Seq<char>>::empty());
    assert(views(r@) + Seq::<Seq<char>>::empty() == views(r@));
    r
}

/// The texts of a list, one after the other.
pub open spec fn concat_all(list: Seq<Seq<char>>) -> Seq<char>
    decreases list.len(),
{
    if list.len() == 0 {
        Seq::empty()
    } else {
        concat_all(list.drop_last()) + list.last()
    }
}

/// The texts of a list, one after the other.
pub fn concatenated(list: &Vec<String>) -> (r: String)
    ensures
        r@ == concat_all(views(list@)),
{
    let ghost texts = views(list@);
    let mut r = String::new();
    let mut i: usize = 0;
    assert(r@ =~= concat_all(texts.take(0)));
    while i < list.len()
        invariant
            texts == views(list@),
            i <= list@.len(),
            r@ == concat_all(texts.take(i as int)),
        decreases list@.len() - i,
    {
        r.append(list[i].as_str());
        assert(texts.take(i + 1).drop_last() == texts.take(i as int));
        i += 1;
    }
    assert(texts.take(i as int) == texts);
    r
}

/// Whether `t` is a word: not empty, and without white space.
pub open spec fn is_word(t: Seq<char>) -> bool {
    &&& t.len() > 0
    &&& forall|i: int| 0 <= i < t.len() ==> !white_space(#[trigger] t[i])
}

/// Whether every text of `list` is a word.
pub open spec fn all_words(list: Seq<Seq<char>>) -> bool {
    forall|i: int| 0 <= i < list.len() ==> is_word(#[trigger] list[i])
}

proof fn lemma_word_len(s: Seq<char>)
    ensures
        word_len(s) <= s.len(),
        forall|i: int| 0 <= i < word_len(s) ==> !white_space(#[trigger] s[i]),
        word_len(s) < s.len() ==> white_space(s[word_len(s) as int]),
        s.len() > 0 && !white_space(s[0]) ==> word_len(s) > 0,
    decreases s.len(),
{
    if s.len() > 0 && !white_space(s[0]) {
        let rest = s.drop_first();
        lemma_word_len(rest);
        assert forall|i: int| 0 <= i < word_len(s) implies !white_space(#[trigger] s[i]) by {
            if i > 0 {
                assert(s[i] == rest[i - 1]);
            }
        }
        if word_len(s) < s.len() {
            assert(s[word_len(s) as int] == rest[word_len(rest) as int]);
        }
    }
}

/// The words of a text are words.
pub proof fn law_words_are_words(s: Seq<char>)
    ensures
        all_words(words(s)),
    decreases s.len(),
{
    if s.len() > 0 {
        if white_space(s[0]) {
            law_words_are_words(s.drop_first());
        } else {
            lemma_word_len(s);
            let n = word_len(s) as int;
            if n >= s.len() {
                assert(is_word(s));
            } else {
                law_words_are_words(s.skip(n));
                let head = s.take(n);
                assert(is_word(head));
                assert(words(s) == seq![head] + words(s.skip(n)));
            }
        }
    }
}

proof fn lemma_word_len_of_parts(a: Seq<char>, b: Seq<char>)
    requires
        b.len() == 0 || white_space(b[0]),
    ensures
        word_len(a + b) == word_len(a),
    decreases a.len(),
{
    if a.len() == 0 {
        assert(a + b == b);
    } else if !white_space(a[0]) {
        assert((a + b).drop_first() == a.drop_first() + b);
        lemma_word_len_of_parts(a.drop_first(), b);
    }
}

/// The words of a text followed by another that begins with white space are
/// those of the one, then those of the other.
pub proof fn lemma_words_of_parts(a: Seq<char>, b: Seq<char>)
    requires
        b.len() == 0 || white_space(b[0]),
    ensures
        words(a + b) == words(a) + words(b),
    decreases a.len(),
{
    if a.len() == 0 {
        assert(a + b == b);
        assert(words(a) + words(b) == words(b));
    } else if white_space(a[0]) {
        assert((a + b).drop_first() == a.drop_first() + b);
        lemma_words_of_parts(a.drop_first(), b);
    } else {
        lemma_word_len(a);
        lemma_word_len_of_parts(a, b);
        let n = word_len(a) as int;
        assert((a + b).take(n) == a.take(n));
        assert((a + b).skip(n) == a.skip(n) + b);
        lemma_words_of_parts(a.skip(n), b);
        if n >= a.len() {
            assert(a.take(n) == a);
            assert(a.skip(n).len() == 0);
            assert(words(a.skip(n)) == Seq::<Seq<char>>::empty());
            if b.len() == 0 {
                assert(a + b == a);
                assert(words(b) == Seq::<Seq<char>>::empty());
                assert(words(a) + words(b) == words(a));
            } else {
                assert(words(a + b) == seq![a] + words(b));
            }
        } else {
            assert(words(a) + words(b) == seq![a.take(n)] + (words(a.skip(n)) + words(b)));
        }
    }
}

proof fn lemma_words_of_word(t: Seq<char>)
    requires
        is_word(t),
    ensures
        words(t) == seq![t],
{
    lemma_word_len(t);
}

/// Words that are joined by spaces can be told apart again.
pub proof fn law_joined_words_split_again(list: Seq<Seq<char>>)
    requires
        all_words(list),
    ensures
        words(join(list, seq![' '])) == list,
    decreases list.len(),
{
    if list.len() == 0 {
        assert(words(join(list, seq![' '])) == list);
    } else if list.len() == 1 {
        lemma_words_of_word(list[0]);
        assert(words(list[0]) == list);
    } else {
        let head = list.drop_last();
        let tail = seq![' '] + list.last();
        assert(all_words(head));
        law_joined_words_split_again(head);
        assert(join(list, seq![' ']) == join(head, seq![' ']) + tail);
        lemma_words_of_parts(join(head, seq![' ']), tail);
        assert(tail.drop_first() == list.last());
        lemma_words_of_word(list.last());
        assert(words(tail) == seq![list.last()]);
        assert(list == head + seq![list.last()]);
    }
}

/// Whether white space occurs in `s` only as single spaces between other
/// characters.
pub open spec fn singly_spaced(s: Seq<char>) -> bool {
    forall|i: int|
        0 <= i < s.len() && white_space(#[trigger] s[i]) ==> s[i] == ' ' && 0 < i < s.len() - 1
            && !white_space(s[i - 1]) && !white_space(s[i + 1])
}

/// Words joined by spaces have no other white space between them, and none
/// around them.
pub proof fn law_joined_words_are_singly_spaced(list: Seq<Seq<char>>)
    requires
        all_words(list),
    ensures
        singly_spaced(join(list, seq![' '])),
        list.len() > 0 ==> join(list, seq![' ']).len() > 0 && !white_space(
            join(list, seq![' ']).last(),
        ),
    decreases list.len(),
{
    if list.len() > 1 {
        let head = list.drop_last();
        let t = list.last();
        assert(all_words(head));
        assert(is_word(list[list.len() - 1]));
        law_joined_words_are_singly_spaced(head);
        let h = join(head, seq![' ']);
        let s = join(list, seq![' ']);
        assert(s == h + seq![' '] + t);
        assert forall|i: int| 0 <= i < s.len() && white_space(#[trigger] s[i]) implies s[i] == ' '
            && 0 < i < s.len() - 1 && !white_space(s[i - 1]) && !white_space(s[i + 1]) by {
            if i < h.len() {
                assert(s[i] == h[i]);
                assert(s[i - 1] == h[i - 1]);
                assert(s[i + 1] == h[i + 1]);
            } else if i == h.len() {
                assert(s[i - 1] == h.last());
                assert(s[i + 1] == t[0]);
            } else {
                assert(s[i] == t[i - h.len() - 1]);
            }
        }
        assert(s.last() == t.last());
    } else if list.len() == 1 {
        assert(is_word(list[0]));
    }
}

/// What the literal of one space holds.
pub proof fn lemma_space()
    ensures
        " "@ == seq![' '],
{
    reveal_strlit(" ");
    assert(" "@ =~= seq![' ']);
}

/// A list of texts as strings.
pub fn owned<const N: usize>(names: [&'static str; N]) -> (r: Vec<String>)
    ensures
        views(r@) == str_views(names@),
{
    let mut r: Vec<String> = Vec::new();
    let mut i: usize = 0;
    while i < N
        invariant
            i <= N,
            r@.len() == i,
            names@.len() == N,
            forall|j: int| 0 <= j < i ==> (#[trigger] r@[j])@ == names@[j]@,
        decreases N - i,
    {
        r.push(names[i].to_owned());
        i += 1;
    }
    assert(views(r@) =~= str_views(names@)) by {
        assert forall|j: int| 0 <= j < N implies views(r@)[j] == str_views(names@)[j] by {
            assert(views(r@)[j] == r@[j]@);
        }
    }
    r
}

/// A list of one text.
pub fn list1(a: &str) -> (r: Vec<String>)
    ensures
        views(r@) == seq![a@],
{
    let mut r: Vec<String> = Vec::new();
    r.push(a.to_owned());
    assert(views(r@) =~= seq![a@]);
    r
}

/// A list of two texts.
pub fn list2(a: &str, b: &str) -> (r: Vec<String>)
    ensures
        views(r@) == seq![a@, b@],
{
    let mut r: Vec<String> = Vec::new();
    r.push(a.to_owned());
    r.push(b.to_owned());
    assert(views(r@) =~= seq![a@, b@]);
    r
}

/// A list of three texts.
pub fn list3(a: &str, b: &str, c: &str) -> (r: Vec<String>)
    ensures
        views(r@) == seq![a@, b@, c@],
{
    let mut r: Vec<String> = Vec::new();
    r.push(a.to_owned());
    r.push(b.to_owned());
    r.push(c.to_owned());
    assert(views(r@) =~= seq![a@, b@, c@]);
    r
}

/// A list of four texts.
pub fn list4(a: &str, b: &str, c: &str, d: &str) -> (r: Vec<String>)
    ensures
        views(r@) == seq![a@, b@, c@, d@],
{
    let mut r: Vec<String> = Vec::new();
    r.push(a.to_owned());
    r.push(b.to_owned());
    r.push(c.to_owned());
    r.push(d.to_owned());
    assert(views(r@) =~= seq![a@, b@, c@, d@]);
    r
}

/// What follows without `c` does not move the last `c`.
pub proof fn lemma_last_index_before(s: Seq<char>, t: Seq<char>, c: char)
    requires
        !t.contains(c),
    ensures
        last_index_of(s + t, c) == last_index_of(s, c),
    decreases t.len(),
{
    if t.len() == 0 {
        assert(s + t =~= s);
    } else {
        assert((s + t).drop_last() =~= s + t.drop_last());
        assert(t.contains(t.last()));
        assert(!t.drop_last().contains(c)) by {
            if t.drop_last().contains(c) {
                let k = choose|k: int| 0 <= k < t.drop_last().len() && t.drop_last()[k] == c;
                assert(t[k] == c);
            }
        }
        lemma_last_index_before(s, t.drop_last(), c);
    }
}

/// The last occurrence is the one after which there is none.
pub proof fn lemma_last_occurrence(hay: Seq<char>, needle: Seq<char>, i: int, k: int)
    requires
        0 <= i <= k,
        occurs_at(hay, needle, i),
        forall|j: int| i < j <= k ==> !occurs_at(hay, needle, j),
    ensures
        last_occurrence_to(hay, needle, k) == Some(i),
    decreases k - i,
{
    if k > i {
        lemma_last_occurrence(hay, needle, i, k - 1);
    }
}

/// Texts that are the same in small ASCII letters are the same in capitals.
pub proof fn lemma_same_upper_case(a: Seq<char>, b: Seq<char>)
    requires
        same_ignoring_ascii_case(a, b),
    ensures
        ascii_uppercase(a) == ascii_uppercase(b),
{
    assert(a.len() == ascii_lowercase(a).len());
    assert(b.len() == ascii_lowercase(b).len());
    assert forall|i: int| 0 <= i < a.len() implies ascii_upper(a[i]) == ascii_upper(b[i]) by {
        assert(ascii_lowercase(a)[i] == ascii_lowercase(b)[i]);
    }
    assert(ascii_uppercase(a) =~= ascii_uppercase(b));
}

proof fn lemma_trim_start(s: Seq<char>)
    ensures
        trim_start(s).len() > 0 ==> !white_space(trim_start(s)[0]),
    decreases s.len(),
{
    if s.len() > 0 && white_space(s[0]) {
        lemma_trim_start(s.drop_first());
    }
}

proof fn lemma_trim_end(s: Seq<char>)
    ensures
        trim_end(s).len() > 0 ==> trim_end(s)[0] == s[0] && !white_space(trim_end(s).last()),
    decreases s.len(),
{
    if s.len() > 0 && white_space(s.last()) {
        lemma_trim_end(s.drop_last());
    }
}

/// Trimming a trimmed text changes nothing.
pub proof fn law_trimming_settles(s: Seq<char>)
    ensures
        trim(trim(s)) == trim(s),
{
    lemma_trim_start(s);
    lemma_trim_end(trim_start(s));
}

proof fn lemma_case_and_trim_start(s: Seq<char>)
    ensures
        trim_start(ascii_lowercase(s)) == ascii_lowercase(trim_start(s)),
        trim_start(ascii_uppercase(s)) == ascii_uppercase(trim_start(s)),
    decreases s.len(),
{
    if s.len() > 0 {
        let low = ascii_lowercase(s);
        let up = ascii_uppercase(s);
        assert(low[0] == ascii_lower(s[0]));
        assert(up[0] == ascii_upper(s[0]));
        if white_space(s[0]) {
            lemma_case_and_trim_start(s.drop_first());
            assert(low.drop_first() =~= ascii_lowercase(s.drop_first()));
            assert(up.drop_first() =~= ascii_uppercase(s.drop_first()));
        }
    }
}

proof fn lemma_case_and_trim_end(s: Seq<char>)
    ensures
        trim_end(ascii_lowercase(s)) == ascii_lowercase(trim_end(s)),
        trim_end(ascii_uppercase(s)) == ascii_uppercase(trim_end(s)),
    decreases s.len(),
{
    if s.len() > 0 {
        let low = ascii_lowercase(s);
        let up = ascii_uppercase(s);
        assert(low.last() == ascii_lower(s.last()));
        assert(up.last() == ascii_upper(s.last()));
        if white_space(s.last()) {
            lemma_case_and_trim_end(s.drop_last());
            assert(low.drop_last() =~= ascii_lowercase(s.drop_last()));
            assert(up.drop_last() =~= ascii_uppercase(s.drop_last()));
        }
    }
}

/// The case of ASCII letters does not matter to trimming.
pub proof fn law_trimming_keeps_case(s: Seq<char>)
    ensures
        trim(ascii_lowercase(s)) == ascii_lowercase(trim(s)),
        trim(ascii_uppercase(s)) == ascii_uppercase(trim(s)),
{
    lemma_case_and_trim_start(s);
    lemma_case_and_trim_end(trim_start(s));
}

/// A text differs from itself in small letters or in capitals only in case.
pub proof fn lemma_case_changed(s: Seq<char>)
    ensures
        same_ignoring_ascii_case(ascii_lowercase(s), s),
        same_ignoring_ascii_case(ascii_uppercase(s), s),
{
    assert(ascii_lowercase(ascii_lowercase(s)) =~= ascii_lowercase(s));
    assert(ascii_lowercase(ascii_uppercase(s)) =~= ascii_lowercase(s));
}

proof fn lemma_words_of_white_tail(s: Seq<char>)
    ensures
        words(trim_end(s)) == words(s),
    decreases s.len(),
{
    if s.len() > 0 && white_space(s.last()) {
        let head = s.drop_last();
        let tail = seq![s.last()];
        lemma_words_of_white_tail(head);
        lemma_words_of_parts(head, tail);
        assert(s =~= head + tail);
        assert(tail.drop_first() =~= Seq::empty());
        assert(words(tail.drop_first()) =~= Seq::empty());
        assert(words(tail) == words(tail.drop_first()));
        assert(words(head) + words(tail) =~= words(head));
    }
}

proof fn lemma_words_of_white_head(s: Seq<char>)
    ensures
        words(trim_start(s)) == words(s),
    decreases s.len(),
{
    if s.len() > 0 && white_space(s[0]) {
        lemma_words_of_white_head(s.drop_first());
    }
}

/// Trimming a text keeps its words.
pub proof fn law_trimming_keeps_words(s: Seq<char>)
    ensures
        words(trim(s)) == words(s),
{
    lemma_words_of_white_head(s);
    lemma_words_of_white_tail(trim_start(s));
}

/// A text is trimmed of the white space around it, and of nothing else.
pub proof fn law_trimming_takes_white_space_alone(
    before: Seq<char>,
    text: Seq<char>,
    after: Seq<char>,
)
    requires
        forall|i: int| 0 <= i < before.len() ==> white_space(#[trigger] before[i]),
        forall|i: int| 0 <= i < after.len() ==> white_space(#[trigger] after[i]),
        text.len() > 0 ==> !white_space(text[0]) && !white_space(text.last()),
    ensures
        trim(before + text + after) == text,
    decreases before.len() + after.len(),
{
    let s = before + text + after;
    if before.len() > 0 {
        assert(s[0] == before[0]);
        let b = before.drop_first();
        assert forall|i: int| 0 <= i < b.len() implies white_space(#[trigger] b[i]) by {
            assert(b[i] == before[i + 1]);
        }
        assert(s.drop_first() =~= b + text + after);
        law_trimming_takes_white_space_alone(b, text, after);
    } else if after.len() > 0 {
        if text.len() > 0 {
            assert(s[0] == text[0]);
            assert(s.last() == after[after.len() - 1]);
            let a = after.drop_last();
            assert forall|i: int| 0 <= i < a.len() implies white_space(#[trigger] a[i]) by {
                assert(a[i] == after[i]);
            }
            assert(s.drop_last() =~= before + text + a);
            assert((before + text + a)[0] == text[0]);
            law_trimming_takes_white_space_alone(before, text, a);
        } else {
            assert(s =~= after);
            let a = after.drop_first();
            assert forall|i: int| 0 <= i < a.len() implies white_space(#[trigger] a[i]) by {
                assert(a[i] == after[i + 1]);
            }
            assert(s.drop_first() =~= before + text + a);
            law_trimming_takes_white_space_alone(before, text, a);
            assert(white_space(s[0]));
        }
    } else {
        assert(s =~= text);
    }
}

/// A trimmed text has no white space at either end.
pub proof fn lemma_trimmed_ends(s: Seq<char>)
    ensures
        trim(s).len() > 0 ==> !white_space(trim(s)[0]) && !white_space(trim(s).last()),
{
    lemma_trim_start(s);
    lemma_trim_end(trim_start(s));
}

/// Lines put together, each ended by a line feed, with or without a carriage
/// return before it, come apart again.
pub proof fn law_lines_come_apart(line: Seq<char>, rest: Seq<char>)
    requires
        !line.contains('\n'),
    ensures
        lines(line.push('\n') + rest) == seq![without_return(line)] + lines(rest),
        line.len() > 0 ==> lines(line) == seq![line],
        line.len() == 0 || line.last() != '\r' ==> without_return(line) == line,
        without_return(line.push('\r')) == line,
{
    lemma_index_of(line, rest);
    let all = line.push('\n') + rest;
    let n = line.len() as int;
    assert(all.take(n) =~= line);
    assert(all.skip(n + 1) =~= rest);
    if line.len() > 0 {
        lemma_no_index(line);
    }
    assert(line.push('\r').drop_last() =~= line);
}

proof fn lemma_no_index(s: Seq<char>)
    requires
        !s.contains('\n'),
    ensures
        index_of(s, '\n') >= s.len(),
    decreases s.len(),
{
    if s.len() > 0 {
        assert(s.contains(s[0]));
        let t = s.drop_first();
        if t.contains('\n') {
            let k = choose|k: int| 0 <= k < t.len() && t[k] == '\n';
            assert(s[k + 1] == '\n');
        }
        lemma_no_index(t);
    }
}

proof fn lemma_index_of(line: Seq<char>, rest: Seq<char>)
    requires
        !line.contains('\n'),
    ensures
        index_of(line.push('\n') + rest, '\n') == line.len(),
    decreases line.len(),
{
    let all = line.push('\n') + rest;
    if line.len() > 0 {
        assert(line.contains(line[0]));
        let t = line.drop_first();
        if t.contains('\n') {
            let k = choose|k: int| 0 <= k < t.len() && t[k] == '\n';
            assert(line[k + 1] == '\n');
        }
        lemma_index_of(t, rest);
        assert(all.drop_first() =~= t.push('\n') + rest);
    }
}

} // verus!
