//! Text helpers: comparing, searching, trimming and numbers in decimal.
//!
//! Text is modelled as the sequence of its characters. Positions count
//! characters, not bytes.
use vstd::prelude::*;
use vstd::string::*;
use vstd::utf8::*;

verus! {

/// `String::push` appends one character.
pub assume_specification[ String::push ](s: &mut String, c: char)
    ensures
        final(s)@ == old(s)@.push(c),
;

/// What `str::to_lowercase` makes of a text.
pub uninterp spec fn unicode_lowercase(text: Seq<char>) -> Seq<char>;

/// `str::to_lowercase`: the result depends on the text alone, and of a text in
/// ASCII only the capital letters change.
#[verifier::external_body]
fn lower_unicode(text: &str) -> (lower: String)
    ensures
        lower@ == unicode_lowercase(text@),
        is_ascii_chars(text@) ==> lower@ == ascii_lowercase(text@),
{
    text.to_lowercase()
}

/// A text in small letters: that of a text in ASCII is known, and that of another
/// has a name.
#[verifier::opaque]
pub open spec fn lowercase(text: Seq<char>) -> Seq<char> {
    if is_ascii_chars(text) {
        ascii_lowercase(text)
    } else {
        unicode_lowercase(text)
    }
}

/// A text in small letters.
pub fn to_lowercase(text: &str) -> (lower: String)
    ensures
        lower@ == lowercase(text@),
{
    proof {
        reveal(lowercase);
    }
    lower_unicode(text)
}

/// What `String::from_utf8_lossy` makes of a byte string.
pub uninterp spec fn lossy_text(bytes: Seq<u8>) -> Seq<char>;

/// `String::from_utf8_lossy`: the result depends on the bytes alone, and the
/// bytes of a text decode to that text.
#[verifier::external_body]
pub(crate) fn from_utf8_lossy(bytes: &[u8]) -> (text: String)
    ensures
        text@ == lossy_text(bytes@),
        valid_utf8(bytes@) ==> text@ == decode_utf8(bytes@),
{
    String::from_utf8_lossy(bytes).into_owned()
}

/// `String::from_utf8`: the text of bytes that are UTF-8, and nothing for others.
#[verifier::external_body]
pub(crate) fn from_utf8(bytes: Vec<u8>) -> (text: Option<String>)
    ensures
        match text {
            Some(s) => valid_utf8(bytes@) && s@ == decode_utf8(bytes@),
            None => !valid_utf8(bytes@),
        },
{
    String::from_utf8(bytes).ok()
}

/// Whether two texts hold the same characters.
pub fn same(a: &str, b: &str) -> (equal: bool)
    ensures
        equal == (a@ == b@),
{
    let left = a.as_bytes();
    let right = b.as_bytes();
    proof {
        encode_utf8_decode_utf8(a@);
        encode_utf8_decode_utf8(b@);
    }
    if left.len() != right.len() {
        return false;
    }
    let mut i: usize = 0;
    while i < left.len()
        invariant
            left@ == encode_utf8(a@),
            right@ == encode_utf8(b@),
            left.len() == right.len(),
            i <= left.len(),
            forall|k: int| 0 <= k < i ==> left@[k] == right@[k],
        decreases left.len() - i,
    {
        if left[i] != right[i] {
            return false;
        }
        i += 1;
    }
    assert(left@ =~= right@);
    true
}

/// The characters of a text.
pub fn chars_of(text: &str) -> (chars: Vec<char>)
    ensures
        chars@ == text@,
{
    let mut chars: Vec<char> = Vec::new();
    for c in it: text.chars()
        invariant
            chars@ == text@.take(it.index() as int),
            it.seq() == text@,
    {
        chars.push(c);
        assert(chars@ =~= text@.take(it.index() as int + 1));
    }
    assert(text@.take(text@.len() as int) =~= text@);
    chars
}

/// The text made of a run of characters.
pub fn text_of(chars: &[char]) -> (text: String)
    ensures
        text@ == chars@,
{
    let mut text = String::new();
    let mut i: usize = 0;
    while i < chars.len()
        invariant
            i <= chars.len(),
            text@ == chars@.take(i as int),
        decreases chars.len() - i,
    {
        text.push(chars[i]);
        i += 1;
        assert(text@ =~= chars@.take(i as int));
    }
    assert(chars@.take(chars@.len() as int) =~= chars@);
    text
}

/// A text of its own, equal to the one given.
pub fn owned(text: &str) -> (copy: String)
    ensures
        copy@ == text@,
{
    text.to_owned()
}

/// Unicode white space, as `char::is_whitespace` has it.
pub open spec fn is_space(c: char) -> bool {
    ||| '\u{9}' <= c <= '\u{d}'
    ||| c == ' '
    ||| c == '\u{85}'
    ||| c == '\u{a0}'
    ||| c == '\u{1680}'
    ||| '\u{2000}' <= c <= '\u{200a}'
    ||| c == '\u{2028}'
    ||| c == '\u{2029}'
    ||| c == '\u{202f}'
    ||| c == '\u{205f}'
    ||| c == '\u{3000}'
}

/// Whether a character is Unicode white space.
pub fn space(c: char) -> (yes: bool)
    ensures
        yes == is_space(c),
{
    ('\u{9}' <= c && c <= '\u{d}') || c == ' ' || c == '\u{85}' || c == '\u{a0}' || c == '\u{1680}'
        || ('\u{2000}' <= c && c <= '\u{200a}') || c == '\u{2028}' || c == '\u{2029}'
        || c == '\u{202f}' || c == '\u{205f}' || c == '\u{3000}'
}

/// The text without its leading white space.
pub open spec fn trimmed_start(s: Seq<char>) -> Seq<char>
    decreases s.len(),
{
    if s.len() > 0 && is_space(s[0]) {
        trimmed_start(s.skip(1))
    } else {
        s
    }
}

/// The text without its trailing white space.
pub open spec fn trimmed_end(s: Seq<char>) -> Seq<char>
    decreases s.len(),
{
    if s.len() > 0 && is_space(s.last()) {
        trimmed_end(s.drop_last())
    } else {
        s
    }
}

/// The text without white space at either end.
pub open spec fn trimmed(s: Seq<char>) -> Seq<char> {
    trimmed_end(trimmed_start(s))
}

proof fn lemma_trimmed_end(s: Seq<char>)
    ensures
        trimmed_end(s).len() <= s.len(),
        trimmed_end(s) == s.take(trimmed_end(s).len() as int),
        trimmed_end(s).len() > 0 ==> !is_space(trimmed_end(s).last()),
    decreases s.len(),
{
    if s.len() > 0 && is_space(s.last()) {
        lemma_trimmed_end(s.drop_last());
        let n = trimmed_end(s).len() as int;
        assert(s.drop_last().take(n) =~= s.take(n));
    } else {
        assert(s.take(s.len() as int) =~= s);
    }
}

proof fn lemma_trimmed_start(s: Seq<char>)
    ensures
        trimmed_start(s).len() > 0 ==> !is_space(trimmed_start(s)[0]),
    decreases s.len(),
{
    if s.len() > 0 && is_space(s[0]) {
        lemma_trimmed_start(s.skip(1));
    }
}

/// A text that neither begins nor ends with white space is trimmed already, and
/// what has been trimmed is.
pub proof fn lemma_trimmed(s: Seq<char>)
    ensures
        s.len() == 0 || (!is_space(s[0]) && !is_space(s.last())) ==> trimmed(s) == s,
        trimmed(trimmed(s)) == trimmed(s),
{
    let inner = trimmed(s);
    lemma_trimmed_start(s);
    lemma_trimmed_end(trimmed_start(s));
    if inner.len() > 0 {
        assert(inner[0] == trimmed_start(s)[0]);
    }
}

/// The text without white space at either end.
pub fn trim(text: &str) -> (inner: &str)
    ensures
        inner@ == trimmed(text@),
{
    let chars = chars_of(text);
    let mut from: usize = 0;
    assert(text@.skip(0) =~= text@);
    while from < chars.len() && space(chars[from])
        invariant
            chars@ == text@,
            from <= chars.len(),
            trimmed_start(text@) == trimmed_start(text@.skip(from as int)),
        decreases chars.len() - from,
    {
        assert(text@.skip(from as int).skip(1) =~= text@.skip(from as int + 1));
        from += 1;
    }
    let ghost rest = text@.skip(from as int);
    assert(trimmed_start(text@) == rest);
    let mut to: usize = chars.len();
    assert(text@.subrange(from as int, to as int) =~= rest);
    while from < to && space(chars[to - 1])
        invariant
            chars@ == text@,
            from <= to <= chars.len(),
            trimmed_end(rest) == trimmed_end(text@.subrange(from as int, to as int)),
        decreases to,
    {
        assert(text@.subrange(from as int, to as int).drop_last() =~= text@.subrange(
            from as int,
            to as int - 1,
        ));
        to -= 1;
    }
    text.substring_char(from, to)
}

/// Whether `part` stands in `s` at position `at`.
pub open spec fn stands_at(s: Seq<char>, part: Seq<char>, at: int) -> bool {
    0 <= at && at + part.len() <= s.len() && s.subrange(at, at + part.len()) == part
}

/// Whether `part` stands somewhere in `s`.
pub open spec fn has_part(s: Seq<char>, part: Seq<char>) -> bool {
    exists|at: int| #[trigger] stands_at(s, part, at)
}

/// What stands between two texts is a part of the whole.
pub proof fn lemma_has_part(head: Seq<char>, part: Seq<char>, tail: Seq<char>)
    ensures
        has_part(head + part + tail, part),
        has_part(head + part, part),
        has_part(part + tail, part),
        has_part(part, part),
{
    let at = head.len() as int;
    assert((head + part + tail).subrange(at, at + part.len()) =~= part);
    assert(stands_at(head + part + tail, part, at));
    assert((head + part).subrange(at, at + part.len()) =~= part);
    assert(stands_at(head + part, part, at));
    assert((part + tail).subrange(0, part.len() as int) =~= part);
    assert(stands_at(part + tail, part, 0));
    assert(part.subrange(0, part.len() as int) =~= part);
    assert(stands_at(part, part, 0));
}

/// The first position at or after `from` where `part` stands in `s`.
pub open spec fn first_at(s: Seq<char>, part: Seq<char>, from: int) -> Option<int>
    decreases s.len() + 1 - from,
{
    if from < 0 || from + part.len() > s.len() {
        None
    } else if stands_at(s, part, from) {
        Some(from)
    } else {
        first_at(s, part, from + 1)
    }
}

/// `first_at` finds the least position, and fails only where there is none.
pub proof fn lemma_first_at(s: Seq<char>, part: Seq<char>, from: int)
    requires
        0 <= from,
    ensures
        match first_at(s, part, from) {
            Some(at) => from <= at && stands_at(s, part, at) && forall|k: int|
                from <= k < at ==> !stands_at(s, part, k),
            None => forall|k: int| from <= k ==> !stands_at(s, part, k),
        },
    decreases s.len() + 1 - from,
{
    if from + part.len() <= s.len() && !stands_at(s, part, from) {
        lemma_first_at(s, part, from + 1);
    }
}

/// Whether `part` stands in `chars` at `at`.
pub fn matches_at(chars: &[char], part: &[char], at: usize) -> (yes: bool)
    requires
        at <= chars@.len(),
    ensures
        yes == stands_at(chars@, part@, at as int),
{
    if part.len() > chars.len() - at {
        return false;
    }
    let mut i: usize = 0;
    while i < part.len()
        invariant
            at + part.len() <= chars.len(),
            i <= part.len(),
            forall|k: int| 0 <= k < i ==> chars@[at + k] == part@[k],
        decreases part.len() - i,
    {
        if chars[at + i] != part[i] {
            assert(chars@.subrange(at as int, at + part@.len())[i as int] != part@[i as int]);
            return false;
        }
        i += 1;
    }
    assert(chars@.subrange(at as int, at + part@.len()) =~= part@);
    true
}

/// The first position at or after `from` where `part` stands in `chars`.
pub fn find(chars: &[char], part: &[char], from: usize) -> (found: Option<usize>)
    ensures
        match found {
            Some(i) => first_at(chars@, part@, from as int) == Some(i as int),
            None => first_at(chars@, part@, from as int) is None,
        },
{
    let mut i: usize = from;
    while i <= chars.len() && part.len() <= chars.len() - i
        invariant
            from <= i,
            i <= chars.len() || i == from,
            first_at(chars@, part@, from as int) == first_at(chars@, part@, i as int),
        decreases chars.len() - i,
    {
        if matches_at(chars, part, i) {
            return Some(i);
        }
        if i == chars.len() {
            assert(first_at(chars@, part@, i + 1) is None);
            return None;
        }
        i += 1;
    }
    None
}

/// Whether `part` stands somewhere in `text`.
pub fn contains(text: &str, part: &str) -> (yes: bool)
    ensures
        yes == has_part(text@, part@),
{
    let chars = chars_of(text);
    let piece = chars_of(part);
    proof {
        lemma_first_at(text@, part@, 0);
    }
    match find(&chars, &piece, 0) {
        Some(i) => {
            assert(stands_at(text@, part@, i as int));
            true
        },
        None => false,
    }
}

/// Whether `text` begins with `prefix`.
pub fn starts_with(text: &str, prefix: &str) -> (yes: bool)
    ensures
        yes == prefix@.is_prefix_of(text@),
{
    let chars = chars_of(text);
    let piece = chars_of(prefix);
    matches_at(&chars, &piece, 0)
}

/// Whether `text` ends with `suffix`.
pub fn ends_with(text: &str, suffix: &str) -> (yes: bool)
    ensures
        yes == suffix@.is_suffix_of(text@),
{
    let chars = chars_of(text);
    let piece = chars_of(suffix);
    if piece.len() > chars.len() {
        return false;
    }
    let from: usize = chars.len() - piece.len();
    assert(text@.subrange(from as int, text@.len() as int) == text@.subrange(from as int, from + suffix@.len()));
    matches_at(&chars, &piece, from)
}

/// What follows `prefix` in `text`, where `text` begins with it.
pub open spec fn after_prefix(text: Seq<char>, prefix: Seq<char>) -> Option<Seq<char>> {
    if prefix.is_prefix_of(text) {
        Some(text.skip(prefix.len() as int))
    } else {
        None
    }
}

/// What follows `prefix` in `text`, where `text` begins with it.
pub fn strip_prefix<'a>(text: &'a str, prefix: &str) -> (rest: Option<&'a str>)
    ensures
        match rest {
            Some(r) => after_prefix(text@, prefix@) == Some(r@),
            None => after_prefix(text@, prefix@) is None,
        },
{
    if starts_with(text, prefix) {
        let from: usize = prefix.unicode_len();
        let to: usize = text.unicode_len();
        let rest = text.substring_char(from, to);
        assert(rest@ =~= text@.skip(from as int));
        Some(rest)
    } else {
        None
    }
}

/// A text without the occurrences of a character at its end.
pub open spec fn without_end(s: Seq<char>, c: char) -> Seq<char>
    decreases s.len(),
{
    if s.len() > 0 && s.last() == c {
        without_end(s.drop_last(), c)
    } else {
        s
    }
}

/// A text without the occurrences of a character at its end.
pub fn trim_end_of(content: &str, c: char) -> (out: &str)
    ensures
        out@ == without_end(content@, c),
{
    let chars = chars_of(content);
    let mut count: usize = chars.len();
    assert(content@.take(content@.len() as int) =~= content@);
    while count > 0 && chars[count - 1] == c
        invariant
            chars@ == content@,
            count <= chars.len(),
            without_end(content@, c) == without_end(content@.take(count as int), c),
        decreases count,
    {
        assert(content@.take(count as int).drop_last() =~= content@.take(count as int - 1));
        count -= 1;
    }
    let out = content.substring_char(0, count);
    assert(out@ =~= content@.take(count as int));
    out
}

/// The first position of a character, or the length where it does not occur.
pub open spec fn place_of(s: Seq<char>, c: char) -> int
    decreases s.len(),
{
    if s.len() == 0 || s[0] == c {
        0
    } else {
        1 + place_of(s.skip(1), c)
    }
}

/// `place_of` is the first position of the character.
pub proof fn lemma_place_of(s: Seq<char>, c: char)
    ensures
        0 <= place_of(s, c) <= s.len(),
        place_of(s, c) < s.len() ==> s[place_of(s, c)] == c,
        forall|k: int| 0 <= k < place_of(s, c) ==> s[k] != c,
    decreases s.len(),
{
    if s.len() > 0 && s[0] != c {
        lemma_place_of(s.skip(1), c);
        assert forall|k: int| 0 <= k < place_of(s, c) implies s[k] != c by {
            if k > 0 {
                assert(s.skip(1)[k - 1] == s[k]);
            }
        }
    }
}

/// A position is `place_of` if it is the first of the character, or the length
/// where there is none.
pub proof fn lemma_place_is(s: Seq<char>, c: char, at: int)
    requires
        0 <= at <= s.len(),
        at < s.len() ==> s[at] == c,
        forall|k: int| 0 <= k < at ==> s[k] != c,
    ensures
        place_of(s, c) == at,
{
    lemma_place_of(s, c);
    if place_of(s, c) < at {
        assert(s[place_of(s, c)] != c);
    } else if at < place_of(s, c) {
        assert(s[at] != c);
    }
}

/// What stands before the first `c`, or all of the text.
pub open spec fn before_char(s: Seq<char>, c: char) -> Seq<char> {
    s.take(place_of(s, c))
}

/// The first position of a character at or after `from`, or the length.
pub fn find_char(chars: &[char], c: char, from: usize) -> (at: usize)
    requires
        from <= chars@.len(),
    ensures
        from <= at <= chars@.len(),
        at - from == place_of(chars@.skip(from as int), c),
{
    let mut i: usize = from;
    while i < chars.len() && chars[i] != c
        invariant
            from <= i <= chars.len(),
            forall|k: int| from <= k < i ==> chars@[k] != c,
        decreases chars.len() - i,
    {
        i += 1;
    }
    proof {
        lemma_place_is(chars@.skip(from as int), c, i - from);
    }
    i
}

/// What stands before the first `c`, or all of the text.
pub fn head_before(content: &str, c: char) -> (head: &str)
    ensures
        head@ == before_char(content@, c),
{
    let chars = chars_of(content);
    assert(content@.skip(0) =~= content@);
    let at = find_char(&chars, c, 0);
    let head = content.substring_char(0, at);
    assert(head@ =~= content@.take(at as int));
    head
}

/// Whether a character occurs in a text.
pub fn has_char(content: &str, c: char) -> (yes: bool)
    ensures
        yes == content@.contains(c),
{
    let chars = chars_of(content);
    assert(content@.skip(0) =~= content@);
    let at = find_char(&chars, c, 0);
    proof {
        lemma_place_of(content@, c);
    }
    at < chars.len()
}

/// The parts of a text between the occurrences of a character.
pub open spec fn parts(s: Seq<char>, c: char) -> Seq<Seq<char>>
    decreases s.len(),
{
    let at = place_of(s, c);
    if 0 <= at < s.len() {
        seq![s.take(at)] + parts(s.skip(at + 1), c)
    } else {
        seq![s]
    }
}

/// What a list of texts means.
pub open spec fn views(list: Seq<String>) -> Seq<Seq<char>> {
    list.map_values(|s: String| s@)
}

/// The parts of a text between the occurrences of a character.
pub fn split(content: &str, c: char) -> (list: Vec<String>)
    ensures
        views(list@) == parts(content@, c),
        list@.len() > 0,
{
    let chars = chars_of(content);
    let mut list: Vec<String> = Vec::new();
    let mut from: usize = 0;
    assert(content@.skip(0) =~= content@);
    assert(views(list@) + parts(content@, c) =~= parts(content@, c));
    loop
        invariant
            chars@ == content@,
            from <= chars.len(),
            views(list@) + parts(content@.skip(from as int), c) == parts(content@, c),
        decreases chars.len() - from,
    {
        let ghost rest = content@.skip(from as int);
        let ghost known = list@;
        let at = find_char(&chars, c, from);
        let piece = owned(content.substring_char(from, at));
        assert(piece@ =~= rest.take(at - from));
        list.push(piece);
        assert(views(list@) =~= views(known).push(piece@));
        if at == chars.len() {
            assert(rest.take(at - from) =~= rest);
            assert(views(list@) =~= views(known) + parts(rest, c));
            return list;
        }
        assert(rest.skip(at - from + 1) =~= content@.skip(at as int + 1));
        assert(views(list@) + parts(content@.skip(at as int + 1), c) =~= views(known) + parts(
            rest,
            c,
        ));
        from = at + 1;
    }
}

/// Texts one after the other, with a character between each two.
pub open spec fn glued(list: Seq<Seq<char>>, c: char) -> Seq<char>
    decreases list.len(),
{
    if list.len() == 0 {
        Seq::empty()
    } else if list.len() == 1 {
        list[0]
    } else {
        glued(list.drop_last(), c).push(c) + list.last()
    }
}

/// Texts one after the other, with a character between each two.
pub fn glue(list: &Vec<String>, between: &str) -> (whole: String)
    requires
        between@.len() == 1,
    ensures
        whole@ == glued(views(list@), between@[0]),
{
    let ghost all = views(list@);
    let mut whole = String::new();
    assert(all.take(0) =~= Seq::empty());
    let mut i: usize = 0;
    while i < list.len()
        invariant
            between@.len() == 1,
            all == views(list@),
            i <= list.len(),
            whole@ == glued(all.take(i as int), between@[0]),
        decreases list.len() - i,
    {
        let ghost before = whole@;
        if i > 0 {
            whole.append(between);
            assert(whole@ =~= before.push(between@[0]));
        }
        whole.append(list[i].as_str());
        assert(all.take(i as int + 1).drop_last() =~= all.take(i as int));
        if i == 0 {
            assert(whole@ =~= list@[0]@);
        }
        i += 1;
    }
    assert(all.take(all.len() as int) =~= all);
    whole
}

/// The last position of a character.
pub open spec fn last_place(s: Seq<char>, c: char) -> Option<int>
    decreases s.len(),
{
    if s.len() == 0 {
        None
    } else if s.last() == c {
        Some(s.len() - 1)
    } else {
        last_place(s.drop_last(), c)
    }
}

/// The last position of a character before `to`.
pub fn find_last(chars: &[char], c: char, to: usize) -> (at: Option<usize>)
    requires
        to <= chars@.len(),
    ensures
        match at {
            Some(i) => i < to && last_place(chars@.take(to as int), c) == Some(i as int),
            None => last_place(chars@.take(to as int), c) is None,
        },
{
    let mut i: usize = to;
    while i > 0
        invariant
            i <= to <= chars@.len(),
            last_place(chars@.take(to as int), c) == last_place(chars@.take(i as int), c),
        decreases i,
    {
        assert(chars@.take(i as int).drop_last() =~= chars@.take(i as int - 1));
        if chars[i - 1] == c {
            return Some(i - 1);
        }
        i -= 1;
    }
    None
}

/// The first `n` characters of `s`, or all of it.
pub open spec fn first_chars(s: Seq<char>, n: int) -> Seq<char> {
    if s.len() <= n {
        s
    } else {
        s.take(n)
    }
}

/// The first `n` characters of `text`, or all of it.
pub fn take_chars(text: &str, n: usize) -> (head: &str)
    ensures
        head@ == first_chars(text@, n as int),
{
    if text.unicode_len() <= n {
        text
    } else {
        let head = text.substring_char(0, n);
        assert(head@ =~= text@.take(n as int));
        head
    }
}

/// A character with an ASCII capital letter made small.
pub open spec fn ascii_lower(c: char) -> char {
    if 'A' <= c <= 'Z' {
        ((c as u32) + 32) as char
    } else {
        c
    }
}

/// A character with an ASCII capital letter made small.
pub fn lower_ascii(c: char) -> (lower: char)
    ensures
        lower == ascii_lower(c),
{
    if 'A' <= c && c <= 'Z' {
        ((c as u8) + 32) as char
    } else {
        c
    }
}

/// A text with its ASCII capital letters made small.
pub open spec fn ascii_lowercase(s: Seq<char>) -> Seq<char> {
    s.map_values(|c: char| ascii_lower(c))
}

/// The characters of `text` with its ASCII capital letters made small.
pub fn lower_chars(text: &str) -> (chars: Vec<char>)
    ensures
        chars@ == ascii_lowercase(text@),
{
    let source = chars_of(text);
    let mut chars: Vec<char> = Vec::new();
    let mut i: usize = 0;
    while i < source.len()
        invariant
            source@ == text@,
            i <= source.len(),
            chars@ == ascii_lowercase(text@.take(i as int)),
        decreases source.len() - i,
    {
        chars.push(lower_ascii(source[i]));
        i += 1;
        assert(chars@ =~= ascii_lowercase(text@.take(i as int)));
    }
    assert(text@.take(text@.len() as int) =~= text@);
    chars
}

/// Whether `part`, which is in small letters, stands in `text` when the case of
/// ASCII letters is ignored.
pub open spec fn has_part_ignoring_case(text: Seq<char>, part: Seq<char>) -> bool {
    has_part(ascii_lowercase(text), part)
}

/// The decimal digits of a natural number.
pub open spec fn decimal(n: nat) -> Seq<char>
    decreases n,
{
    if n < 10 {
        seq![digit_char(n)]
    } else {
        decimal(n / 10).push(digit_char(n % 10))
    }
}

/// The decimal digit for a number below ten.
pub open spec fn digit_char(n: nat) -> char {
    (('0' as u32) + n) as char
}

/// The decimal form of an integer.
pub open spec fn decimal_int(n: int) -> Seq<char> {
    if n < 0 {
        seq!['-'] + decimal((-n) as nat)
    } else {
        decimal(n as nat)
    }
}

/// The decimal digits of a number.
pub fn decimal_text(n: u64) -> (text: String)
    ensures
        text@ == decimal(n as nat),
    decreases n,
{
    let digit: char = (48u8 + (n % 10) as u8) as char;
    assert(digit == digit_char(n as nat % 10));
    if n < 10 {
        let mut text = String::new();
        text.push(digit);
        assert(text@ =~= seq![digit_char(n as nat)]);
        text
    } else {
        let mut text = decimal_text(n / 10);
        text.push(digit);
        text
    }
}

/// The decimal form of a signed number.
pub fn signed_text(n: i64) -> (text: String)
    ensures
        text@ == decimal_int(n as int),
{
    if n >= 0 {
        decimal_text(n as u64)
    } else {
        let magnitude: u64 = (-(n as i128)) as u64;
        let mut text = String::new();
        text.push('-');
        let digits = decimal_text(magnitude);
        text.append(digits.as_str());
        assert(text@ =~= seq!['-'] + decimal((-n) as nat));
        text
    }
}

/// Whether a character is an ASCII decimal digit.
pub open spec fn is_digit(c: char) -> bool {
    '0' <= c <= '9'
}

/// Whether a text is a non-empty run of ASCII decimal digits.
pub open spec fn all_digits(s: Seq<char>) -> bool {
    s.len() > 0 && forall|i: int| 0 <= i < s.len() ==> is_digit(#[trigger] s[i])
}

/// The number that a run of decimal digits writes.
pub open spec fn digits_value(s: Seq<char>) -> nat
    decreases s.len(),
{
    if s.len() == 0 {
        0
    } else {
        digits_value(s.drop_last()) * 10 + (s.last() as nat - '0' as nat) as nat
    }
}

/// The number that a text writes in decimal with an optional sign.
pub open spec fn written_int(s: Seq<char>) -> Option<int> {
    if s.len() > 0 && s[0] == '-' && all_digits(s.skip(1)) {
        Some(-(digits_value(s.skip(1)) as int))
    } else if s.len() > 0 && s[0] == '+' && all_digits(s.skip(1)) {
        Some(digits_value(s.skip(1)) as int)
    } else if all_digits(s) {
        Some(digits_value(s) as int)
    } else {
        None
    }
}

/// The number that a run of decimal digits writes, where it is at most `limit`.
fn digits_up_to(chars: &[char], from: usize, limit: u64) -> (value: Option<u64>)
    requires
        from <= chars@.len(),
    ensures
        match value {
            Some(v) => all_digits(chars@.skip(from as int)) && digits_value(
                chars@.skip(from as int),
            ) == v && v <= limit,
            None => !all_digits(chars@.skip(from as int)) || digits_value(chars@.skip(from as int))
                > limit,
        },
{
    let ghost s = chars@.skip(from as int);
    if from == chars.len() {
        return None;
    }
    let mut value: u128 = 0;
    let mut i: usize = from;
    let mut over = false;
    assert(s.take(0) =~= Seq::<char>::empty());
    while i < chars.len()
        invariant
            s == chars@.skip(from as int),
            from <= i <= chars.len(),
            forall|k: int| 0 <= k < i - from ==> is_digit(#[trigger] s[k]),
            !over ==> value == digits_value(s.take(i - from)) && value <= limit,
            over ==> digits_value(s.take(i - from)) > limit,
        decreases chars.len() - i,
    {
        let c = chars[i];
        assert(c == s[i - from]);
        if !('0' <= c && c <= '9') {
            return None;
        }
        let ghost before = s.take(i - from);
        let ghost after = s.take(i - from + 1);
        assert(after.drop_last() =~= before);
        assert(after.last() == c);
        assert(digits_value(after) == digits_value(before) * 10 + (c as nat - '0' as nat) as nat);
        if !over {
            value = value * 10 + (c as u32 - '0' as u32) as u128;
            if value > limit as u128 {
                over = true;
            }
        }
        i += 1;
    }
    assert(s.take(s.len() as int) =~= s);
    if over {
        None
    } else {
        Some(value as u64)
    }
}

/// The `i64` that a text writes in decimal with an optional sign, as
/// `str::parse` reads it.
pub fn parse_i64(text: &str) -> (value: Option<i64>)
    ensures
        match value {
            Some(v) => written_int(text@) == Some(v as int),
            None => written_int(text@) is None || written_int(text@)->0 < i64::MIN
                || written_int(text@)->0 > i64::MAX,
        },
{
    let chars = chars_of(text);
    if chars.len() == 0 {
        return None;
    }
    if chars[0] == '-' {
        match digits_up_to(&chars, 1, 0x8000_0000_0000_0000u64) {
            Some(v) => Some((-(v as i128)) as i64),
            None => {
                assert(!is_digit(text@[0]));
                None
            },
        }
    } else if chars[0] == '+' {
        match digits_up_to(&chars, 1, 0x7fff_ffff_ffff_ffffu64) {
            Some(v) => Some(v as i64),
            None => {
                assert(!is_digit(text@[0]));
                None
            },
        }
    } else {
        assert(text@.skip(0) =~= text@);
        match digits_up_to(&chars, 0, 0x7fff_ffff_ffff_ffffu64) {
            Some(v) => Some(v as i64),
            None => None,
        }
    }
}

/// How many bytes a character takes.
pub open spec fn width(c: char) -> int {
    if c <= '\u{7f}' {
        1
    } else if c <= '\u{7ff}' {
        2
    } else if c <= '\u{ffff}' {
        3
    } else {
        4
    }
}

/// How many bytes a text takes.
pub open spec fn byte_len(s: Seq<char>) -> int
    decreases s.len(),
{
    if s.len() == 0 {
        0
    } else {
        byte_len(s.drop_last()) + width(s.last())
    }
}

/// Whether the first `chars` characters of a text are its first `bytes` bytes.
pub open spec fn ends_at(s: Seq<char>, bytes: int, chars: int) -> bool {
    0 <= chars <= s.len() && byte_len(s.take(chars)) == bytes
}

/// Whether a part is what stands from one byte of a text to another; there is none
/// where either byte is within a character or behind the end.
pub open spec fn is_byte_part(s: Seq<char>, from: int, to: int, part: Option<Seq<char>>) -> bool {
    match part {
        Some(p) => exists|i: int, j: int| #[trigger]
            ends_at(s, from, i) && #[trigger] ends_at(s, to, j) && i <= j && p == s.subrange(i, j),
        None => !(exists|i: int, j: int| #[trigger]
            ends_at(s, from, i) && #[trigger] ends_at(s, to, j)),
    }
}

/// How many bytes a character takes.
pub fn width_of(c: char) -> (bytes: usize)
    ensures
        bytes == width(c),
{
    if c <= '\u{7f}' {
        1
    } else if c <= '\u{7ff}' {
        2
    } else if c <= '\u{ffff}' {
        3
    } else {
        4
    }
}

proof fn lemma_byte_len_grows(s: Seq<char>, i: int, j: int)
    requires
        0 <= i <= j <= s.len(),
    ensures
        byte_len(s.take(i)) + (j - i) <= byte_len(s.take(j)),
    decreases j - i,
{
    if i < j {
        lemma_byte_len_grows(s, i, j - 1);
        assert(s.take(j).drop_last() =~= s.take(j - 1));
    }
}

/// How many characters the first `bytes` bytes of a text are.
fn chars_in(chars: &[char], bytes: usize) -> (count: Option<usize>)
    requires
        bytes < 1000000,
    ensures
        match count {
            Some(n) => ends_at(chars@, bytes as int, n as int),
            None => forall|i: int| !#[trigger] ends_at(chars@, bytes as int, i),
        },
{
    let mut known: usize = 0;
    let mut i: usize = 0;
    assert(chars@.take(0) =~= Seq::empty());
    while i < chars.len() && known < bytes
        invariant
            i <= chars@.len(),
            bytes < 1000000,
            known < bytes + 4,
            known == byte_len(chars@.take(i as int)),
            i > 0 ==> byte_len(chars@.take(i as int - 1)) < bytes,
        decreases chars@.len() - i,
    {
        assert(chars@.take(i as int + 1).drop_last() =~= chars@.take(i as int));
        known += width_of(chars[i]);
        i += 1;
        assert(chars@.take(i as int - 1) =~= chars@.take(i as int).drop_last());
    }
    if known == bytes {
        return Some(i);
    }
    proof {
        assert forall|k: int| !#[trigger] ends_at(chars@, bytes as int, k) by {
            if ends_at(chars@, bytes as int, k) {
                if k < i {
                    lemma_byte_len_grows(chars@, k, i as int - 1);
                } else {
                    lemma_byte_len_grows(chars@, i as int, k);
                }
            }
        }
    }
    None
}

/// What stands from one byte of a text to another.
pub fn byte_part(content: &str, from: usize, to: usize) -> (part: Option<&str>)
    requires
        from <= to < 1000000,
    ensures
        is_byte_part(content@, from as int, to as int, crate::json::opt_text(part)),
{
    let chars = chars_of(content);
    let begin = match chars_in(&chars, from) {
        Some(begin) => begin,
        None => return None,
    };
    let end = match chars_in(&chars, to) {
        Some(end) => end,
        None => return None,
    };
    proof {
        if end < begin {
            lemma_byte_len_grows(content@, end as int, begin as int);
        }
    }
    let part = content.substring_char(begin, end);
    assert(ends_at(content@, from as int, begin as int) && ends_at(
        content@,
        to as int,
        end as int,
    ));
    Some(part)
}

} // verus!
