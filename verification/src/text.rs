//! Character-sequence utilities shared by the parsers of the library.

use vstd::prelude::*;
use vstd::string::StringExecFns;
use vstd::string::StringSliceAdditionalSpecFns;

verus! {

/// Appends one character to a string (`String::push`).
#[verifier::external_body]
pub(crate) fn push_char(s: &mut String, c: char)
    ensures
        final(s)@ == old(s)@.push(c),
{
    s.push(c);
}

/// The characters of a string slice, in order.
pub fn chars_of(s: &str) -> (r: Vec<char>)
    ensures
        r@ == s@,
{
    let mut r: Vec<char> = Vec::new();
    for c in it: s.chars()
        invariant
            r@ == it.seq().take(it.index() as int),
            it.seq() == s@,
    {
        r.push(c);
    }
    r
}

/// A string holding exactly the given characters.
pub fn string_of(cs: &[char]) -> (r: String)
    ensures
        r@ == cs@,
{
    let mut r = String::new();
    let mut i: usize = 0;
    while i < cs.len()
        invariant
            i <= cs@.len(),
            r@ == cs@.take(i as int),
        decreases cs@.len() - i,
    {
        push_char(&mut r, cs[i]);
        i = i + 1;
        assert(r@ =~= cs@.take(i as int));
    }
    assert(cs@.take(cs@.len() as int) =~= cs@);
    r
}


/// `needle` occurs in `hay` starting at index `i`.
pub open spec fn matches_at(hay: Seq<char>, needle: Seq<char>, i: int) -> bool {
    &&& 0 <= i
    &&& i + needle.len() <= hay.len()
    &&& hay.subrange(i, i + needle.len()) == needle
}

/// The first index at or after `i` where `needle` occurs in `hay`.
pub open spec fn find_from(hay: Seq<char>, needle: Seq<char>, i: int) -> Option<int>
    decreases hay.len() + 1 - i,
{
    if i < 0 || i + needle.len() > hay.len() {
        None
    } else if matches_at(hay, needle, i) {
        Some(i)
    } else {
        find_from(hay, needle, i + 1)
    }
}

/// The first index where `needle` occurs in `hay` (`str::find`).
pub open spec fn find(hay: Seq<char>, needle: Seq<char>) -> Option<int> {
    find_from(hay, needle, 0)
}

/// `needle` occurs somewhere in `hay` (`str::contains`).
pub open spec fn contains(hay: Seq<char>, needle: Seq<char>) -> bool {
    find(hay, needle) is Some
}

pub proof fn lemma_find_from(hay: Seq<char>, needle: Seq<char>, i: int)
    requires
        0 <= i,
    ensures
        find_from(hay, needle, i) matches Some(k) ==> i <= k && matches_at(hay, needle, k)
            && forall|j: int| i <= j < k ==> !matches_at(hay, needle, j),
        find_from(hay, needle, i) is None ==> forall|j: int| i <= j ==> !matches_at(hay, needle, j),
    decreases hay.len() + 1 - i,
{
    if i + needle.len() > hay.len() {
    } else if matches_at(hay, needle, i) {
    } else {
        lemma_find_from(hay, needle, i + 1);
    }
}

/// `contains` holds exactly when some index is a match.
pub proof fn lemma_contains(hay: Seq<char>, needle: Seq<char>)
    ensures
        contains(hay, needle) <==> exists|j: int| matches_at(hay, needle, j),
        find(hay, needle) matches Some(k) ==> matches_at(hay, needle, k),
{
    lemma_find_from(hay, needle, 0);
    if contains(hay, needle) {
        let k = find(hay, needle)->0;
        assert(matches_at(hay, needle, k));
    }
}

/// Whether `needle` occurs in `hay` at index `i`.
fn chars_match_at(hay: &[char], needle: &[char], i: usize) -> (r: bool)
    requires
        i + needle@.len() <= hay@.len(),
    ensures
        r == matches_at(hay@, needle@, i as int),
{
    let mut j: usize = 0;
    while j < needle.len()
        invariant
            i + needle@.len() <= hay@.len(),
            hay@.len() == hay.len(),
            j <= needle@.len(),
            forall|k: int| 0 <= k < j ==> hay@[i + k] == needle@[k],
        decreases needle@.len() - j,
    {
        if hay[i + j] != needle[j] {
            assert(hay@.subrange(i as int, i + needle@.len())[j as int] != needle@[j as int]);
            return false;
        }
        j = j + 1;
    }
    assert(hay@.subrange(i as int, i + needle@.len()) =~= needle@);
    true
}

/// The first index where `needle` occurs in `hay`.
pub fn find_chars(hay: &[char], needle: &[char]) -> (r: Option<usize>)
    ensures
        match r {
            Some(k) => find(hay@, needle@) == Some(k as int),
            None => find(hay@, needle@) is None,
        },
{
    if needle.len() > hay.len() {
        return None;
    }
    let mut i: usize = 0;
    let last = hay.len() - needle.len();
    loop
        invariant
            last + needle@.len() == hay@.len(),
            i <= last,
            find(hay@, needle@) == find_from(hay@, needle@, i as int),
        decreases last - i,
    {
        if chars_match_at(hay, needle, i) {
            return Some(i);
        }
        if i == last {
            assert(find_from(hay@, needle@, i + 1) is None);
            return None;
        }
        i = i + 1;
    }
}

/// Whether `needle` occurs in `hay`.
pub fn contains_chars(hay: &[char], needle: &[char]) -> (r: bool)
    ensures
        r == contains(hay@, needle@),
{
    find_chars(hay, needle).is_some()
}

/// Whether `needle` occurs in `hay` (`str::contains`).
pub fn str_contains(hay: &str, needle: &str) -> (r: bool)
    ensures
        r == contains(hay@, needle@),
{
    let h = chars_of(hay);
    let n = chars_of(needle);
    contains_chars(h.as_slice(), n.as_slice())
}

/// A character that continues a word: an ASCII letter or digit, an underscore, or any
/// character beyond ASCII.
pub open spec fn is_word_char(c: char) -> bool {
    ||| 'a' <= c <= 'z'
    ||| 'A' <= c <= 'Z'
    ||| '0' <= c <= '9'
    ||| c == '_'
    ||| (c as u32) >= 0x80
}

/// `word` occurs in `hay` at index `i` as a whole word: no word character directly
/// before or after it.
pub open spec fn word_at(hay: Seq<char>, word: Seq<char>, i: int) -> bool {
    &&& matches_at(hay, word, i)
    &&& (i == 0 || !is_word_char(hay[i - 1]))
    &&& (i + word.len() == hay.len() || !is_word_char(hay[i + word.len()]))
}

/// `word` occurs somewhere in `hay` as a whole word.
pub open spec fn contains_word(hay: Seq<char>, word: Seq<char>) -> bool {
    exists|i: int| word_at(hay, word, i)
}

fn word_char(c: char) -> (r: bool)
    ensures
        r == is_word_char(c),
{
    ('a' <= c && c <= 'z') || ('A' <= c && c <= 'Z') || ('0' <= c && c <= '9') || c == '_' || (c as u32) >= 0x80
}

/// Whether `word` occurs in `hay` as a whole word.
pub fn str_contains_word(hay: &str, word: &str) -> (r: bool)
    ensures
        r == contains_word(hay@, word@),
{
    let h = chars_of(hay);
    let w = chars_of(word);
    if w.len() > h.len() {
        return false;
    }
    let last = h.len() - w.len();
    let mut i: usize = 0;
    loop
        invariant
            h@ == hay@,
            w@ == word@,
            last + w@.len() == h@.len(),
            h@.len() <= usize::MAX,
            i <= last,
            forall|j: int| 0 <= j < i ==> !word_at(hay@, word@, j),
        decreases last - i,
    {
        if chars_match_at(h.as_slice(), w.as_slice(), i) {
            let before = i == 0 || !word_char(h[i - 1]);
            let after = i + w.len() == h.len() || !word_char(h[i + w.len()]);
            if before && after {
                assert(word_at(hay@, word@, i as int));
                return true;
            }
        }
        if i == last {
            assert forall|j: int| !word_at(hay@, word@, j) by {
                if 0 <= j < i {
                } else if j == i {
                } else {
                    assert(!matches_at(hay@, word@, j));
                }
            }
            return false;
        }
        i = i + 1;
    }
}

/// Two character sequences are equal.
pub fn chars_eq(a: &[char], b: &[char]) -> (r: bool)
    ensures
        r == (a@ == b@),
{
    if a.len() != b.len() {
        return false;
    }
    let mut i: usize = 0;
    while i < a.len()
        invariant
            a@.len() == b@.len(),
            i <= a@.len(),
            forall|k: int| 0 <= k < i ==> a@[k] == b@[k],
        decreases a@.len() - i,
    {
        if a[i] != b[i] {
            return false;
        }
        i = i + 1;
    }
    assert(a@ =~= b@);
    true
}

/// Two string slices hold the same characters.
pub fn str_eq(a: &str, b: &str) -> (r: bool)
    ensures
        r == (a@ == b@),
{
    let x = chars_of(a);
    let y = chars_of(b);
    chars_eq(x.as_slice(), y.as_slice())
}


/// Unicode `White_Space` (what `char::is_whitespace` and `str::trim` use).
pub open spec fn is_ws(c: char) -> bool {
    let u = c as u32;
    ||| 0x09 <= u <= 0x0D
    ||| u == 0x20
    ||| u == 0x85
    ||| u == 0xA0
    ||| u == 0x1680
    ||| 0x2000 <= u <= 0x200A
    ||| u == 0x2028
    ||| u == 0x2029
    ||| u == 0x202F
    ||| u == 0x205F
    ||| u == 0x3000
}

/// Whether `c` is Unicode white space.
pub fn is_whitespace(c: char) -> (r: bool)
    ensures
        r == is_ws(c),
{
    let u = c as u32;
    (0x09 <= u && u <= 0x0D) || u == 0x20 || u == 0x85 || u == 0xA0 || u == 0x1680 || (0x2000
        <= u && u <= 0x200A) || u == 0x2028 || u == 0x2029 || u == 0x202F || u == 0x205F || u
        == 0x3000
}

/// `s` without leading white space.
pub open spec fn trim_start(s: Seq<char>) -> Seq<char>
    decreases s.len(),
{
    if s.len() > 0 && is_ws(s[0]) {
        trim_start(s.drop_first())
    } else {
        s
    }
}

/// `s` without trailing white space.
pub open spec fn trim_end(s: Seq<char>) -> Seq<char>
    decreases s.len(),
{
    if s.len() > 0 && is_ws(s.last()) {
        trim_end(s.drop_last())
    } else {
        s
    }
}

/// `s` without leading and trailing white space (`str::trim`).
pub open spec fn trim(s: Seq<char>) -> Seq<char> {
    trim_end(trim_start(s))
}

/// The index of the first character of `trim_start(s)`.
fn trim_start_index(s: &[char]) -> (r: usize)
    ensures
        r <= s@.len(),
        trim_start(s@) == s@.subrange(r as int, s@.len() as int),
{
    let mut i: usize = 0;
    assert(s@.subrange(0, s@.len() as int) =~= s@);
    while i < s.len() && is_whitespace(s[i])
        invariant
            i <= s@.len(),
            trim_start(s@) == trim_start(s@.subrange(i as int, s@.len() as int)),
        decreases s@.len() - i,
    {
        assert(s@.subrange(i as int, s@.len() as int).drop_first() =~= s@.subrange(
            i + 1,
            s@.len() as int,
        ));
        i = i + 1;
    }
    proof {
        r_trim_start_stop(s@, i as int);
    }
    i
}

proof fn r_trim_start_stop(s: Seq<char>, i: int)
    requires
        0 <= i <= s.len(),
        i < s.len() ==> !is_ws(s[i]),
    ensures
        trim_start(s.subrange(i, s.len() as int)) == s.subrange(i, s.len() as int),
{
}

/// The length of `trim_end(s.take(e))`, for `e` at most the length of `s`.
fn trim_end_index(s: &[char], e: usize) -> (r: usize)
    requires
        e <= s@.len(),
    ensures
        r <= e,
        trim_end(s@.take(e as int)) == s@.take(r as int),
    decreases e,
{
    if e > 0 && is_whitespace(s[e - 1]) {
        assert(s@.take(e as int).drop_last() =~= s@.take(e - 1));
        trim_end_index(s, e - 1)
    } else {
        e
    }
}

/// The characters of `s` without leading and trailing white space.
pub fn trim_chars(s: &[char]) -> (r: Vec<char>)
    ensures
        r@ == trim(s@),
{
    let st = trim_start_index(s);
    let rest = copy_range(s, st, s.len());
    let en = trim_end_index(rest.as_slice(), rest.len());
    assert(rest@.take(rest@.len() as int) =~= rest@);
    copy_range(rest.as_slice(), 0, en)
}

/// `s.subrange(from, to)` as a vector.
pub fn copy_range(s: &[char], from: usize, to: usize) -> (r: Vec<char>)
    requires
        from <= to <= s@.len(),
    ensures
        r@ == s@.subrange(from as int, to as int),
{
    let mut r: Vec<char> = Vec::new();
    let mut i = from;
    while i < to
        invariant
            from <= i <= to,
            to <= s@.len(),
            r@ == s@.subrange(from as int, i as int),
        decreases to - i,
    {
        r.push(s[i]);
        i = i + 1;
        assert(r@ =~= s@.subrange(from as int, i as int));
    }
    r
}

/// `str::trim`.
pub fn trim_str(s: &str) -> (r: String)
    ensures
        r@ == trim(s@),
{
    let cs = chars_of(s);
    let t = trim_chars(cs.as_slice());
    string_of(t.as_slice())
}

/// `s` with every leading repetition of `p` removed (`str::trim_start_matches`).
pub open spec fn strip_prefixes(s: Seq<char>, p: Seq<char>) -> Seq<char>
    decreases s.len(),
{
    if p.len() > 0 && p.len() <= s.len() && s.take(p.len() as int) == p {
        strip_prefixes(s.skip(p.len() as int), p)
    } else {
        s
    }
}

/// `s` with every trailing repetition of `p` removed (`str::trim_end_matches`).
pub open spec fn strip_suffixes(s: Seq<char>, p: Seq<char>) -> Seq<char>
    decreases s.len(),
{
    if p.len() > 0 && p.len() <= s.len() && s.skip(s.len() - p.len()) == p {
        strip_suffixes(s.take(s.len() - p.len()), p)
    } else {
        s
    }
}

/// `str::trim_start_matches` on characters.
pub fn strip_prefixes_chars(s: &[char], p: &[char]) -> (r: Vec<char>)
    ensures
        r@ == strip_prefixes(s@, p@),
{
    let mut i: usize = 0;
    assert(s@.skip(0) =~= s@);
    loop
        invariant
            i <= s@.len(),
            strip_prefixes(s@, p@) == strip_prefixes(s@.skip(i as int), p@),
        ensures
            i <= s@.len(),
            strip_prefixes(s@, p@) == s@.skip(i as int),
        decreases s@.len() - i,
    {
        if p.len() == 0 || p.len() > s.len() - i {
            break;
        }
        let head = copy_range(s, i, i + p.len());
        if !chars_eq(head.as_slice(), p) {
            assert(s@.skip(i as int).take(p@.len() as int) =~= head@);
            break;
        }
        assert(s@.skip(i as int).take(p@.len() as int) =~= head@);
        assert(s@.skip(i as int).skip(p@.len() as int) =~= s@.skip(i + p@.len()));
        i = i + p.len();
    }
    assert(s@.skip(i as int) =~= s@.subrange(i as int, s@.len() as int));
    copy_range(s, i, s.len())
}

/// `str::trim_end_matches` on characters.
pub fn strip_suffixes_chars(s: &[char], p: &[char]) -> (r: Vec<char>)
    ensures
        r@ == strip_suffixes(s@, p@),
{
    let mut e: usize = s.len();
    assert(s@.take(e as int) =~= s@);
    loop
        invariant
            e <= s@.len(),
            strip_suffixes(s@, p@) == strip_suffixes(s@.take(e as int), p@),
        ensures
            e <= s@.len(),
            strip_suffixes(s@, p@) == s@.take(e as int),
        decreases e,
    {
        if p.len() == 0 || p.len() > e {
            break;
        }
        let tail = copy_range(s, e - p.len(), e);
        assert(s@.take(e as int).skip(e - p@.len()) =~= tail@);
        if !chars_eq(tail.as_slice(), p) {
            break;
        }
        assert(s@.take(e as int).take(e - p@.len()) =~= s@.take(e - p@.len()));
        e = e - p.len();
    }
    assert(s@.take(e as int) =~= s@.subrange(0, e as int));
    copy_range(s, 0, e)
}


/// The index of the first `c` in `s`, or the length of `s` when there is none.
pub open spec fn char_pos(s: Seq<char>, c: char) -> int
    decreases s.len(),
{
    if s.len() == 0 {
        0
    } else if s[0] == c {
        0
    } else {
        1 + char_pos(s.drop_first(), c)
    }
}

pub proof fn lemma_char_pos_bounds(s: Seq<char>, c: char)
    ensures
        0 <= char_pos(s, c) <= s.len(),
        char_pos(s, c) < s.len() ==> s[char_pos(s, c)] == c,
        forall|j: int| 0 <= j < char_pos(s, c) ==> s[j] != c,
    decreases s.len(),
{
    if s.len() > 0 && s[0] != c {
        lemma_char_pos_bounds(s.drop_first(), c);
        assert forall|j: int| 0 <= j < char_pos(s, c) implies s[j] != c by {
            if j > 0 {
                assert(s[j] == s.drop_first()[j - 1]);
            }
        }
    }
}

/// The pieces of `s` between occurrences of `c` (`str::split` with a character).
pub open spec fn split_on(s: Seq<char>, c: char) -> Seq<Seq<char>>
    decreases s.len(),
{
    let k = char_pos(s, c);
    if k >= s.len() {
        seq![s]
    } else {
        proof {
            lemma_char_pos_bounds(s, c);
        }
        seq![s.take(k)] + split_on(s.skip(k + 1), c)
    }
}

/// `s` without one trailing carriage return.
pub open spec fn strip_cr(s: Seq<char>) -> Seq<char> {
    if s.len() > 0 && s.last() == '\r' {
        s.drop_last()
    } else {
        s
    }
}

/// The lines of `s` (`str::lines`): split at `\n`, a `\r` before the `\n` dropped,
/// no final empty line.
pub open spec fn lines(s: Seq<char>) -> Seq<Seq<char>>
    decreases s.len(),
{
    if s.len() == 0 {
        seq![]
    } else {
        let k = char_pos(s, '\n');
        if k >= s.len() {
            seq![s]
        } else {
            proof {
                lemma_char_pos_bounds(s, '\n');
            }
            seq![strip_cr(s.take(k))] + lines(s.skip(k + 1))
        }
    }
}

/// The index of the first `c` at or after `from`, or the length of `s`.
fn char_pos_from(s: &[char], c: char, from: usize) -> (r: usize)
    requires
        from <= s@.len(),
    ensures
        from <= r <= s@.len(),
        r == from + char_pos(s@.skip(from as int), c),
{
    let mut j = from;
    assert(s@.skip(from as int) =~= s@.skip(j as int));
    while j < s.len() && s[j] != c
        invariant
            from <= j <= s@.len(),
            char_pos(s@.skip(from as int), c) == (j - from) + char_pos(s@.skip(j as int), c),
        decreases s@.len() - j,
    {
        assert(s@.skip(j as int).drop_first() =~= s@.skip(j + 1));
        j = j + 1;
    }
    j
}

/// `split_on` on characters.
pub fn split_chars(s: &[char], c: char) -> (r: Vec<Vec<char>>)
    ensures
        r@.len() == split_on(s@, c).len(),
        forall|i: int| 0 <= i < r@.len() ==> #[trigger] r@[i]@ == split_on(s@, c)[i],
{
    let mut r: Vec<Vec<char>> = Vec::new();
    let mut start: usize = 0;
    assert(s@.skip(0) =~= s@);
    loop
        invariant
            start <= s@.len(),
            split_on(s@, c) == r@.map_values(|v: Vec<char>| v@) + split_on(s@.skip(start as int), c),
        decreases s@.len() - start,
    {
        let k = char_pos_from(s, c, start);
        let piece = copy_range(s, start, k);
        let ghost rest = s@.skip(start as int);
        proof {
            lemma_char_pos_bounds(rest, c);
        }
        if k == s.len() {
            assert(rest =~= piece@);
            r.push(piece);
            assert(split_on(s@, c) =~= r@.map_values(|v: Vec<char>| v@));
            return r;
        }
        assert(rest.take(k - start) =~= piece@);
        assert(rest.skip(k - start + 1) =~= s@.skip(k + 1));
        r.push(piece);
        assert(split_on(s@, c) =~= r@.map_values(|v: Vec<char>| v@) + split_on(
            s@.skip(k + 1),
            c,
        ));
        start = k + 1;
    }
}

/// `lines` on characters.
pub fn lines_chars(s: &[char]) -> (r: Vec<Vec<char>>)
    ensures
        r@.len() == lines(s@).len(),
        forall|i: int| 0 <= i < r@.len() ==> #[trigger] r@[i]@ == lines(s@)[i],
{
    let mut r: Vec<Vec<char>> = Vec::new();
    let mut start: usize = 0;
    assert(s@.skip(0) =~= s@);
    loop
        invariant
            start <= s@.len(),
            lines(s@) == r@.map_values(|v: Vec<char>| v@) + lines(s@.skip(start as int)),
        decreases s@.len() - start,
    {
        if start == s.len() {
            assert(s@.skip(start as int).len() == 0);
            assert(lines(s@) =~= r@.map_values(|v: Vec<char>| v@));
            return r;
        }
        let k = char_pos_from(s, '\n', start);
        let ghost rest = s@.skip(start as int);
        proof {
            lemma_char_pos_bounds(rest, '\n');
        }
        if k == s.len() {
            let piece = copy_range(s, start, k);
            assert(rest =~= piece@);
            r.push(piece);
            assert(lines(s@) =~= r@.map_values(|v: Vec<char>| v@));
            return r;
        }
        let mut end = k;
        if end > start && s[end - 1] == '\r' {
            end = end - 1;
        }
        let piece = copy_range(s, start, end);
        assert(strip_cr(rest.take(k - start)) =~= piece@);
        assert(rest.skip(k - start + 1) =~= s@.skip(k + 1));
        r.push(piece);
        assert(lines(s@) =~= r@.map_values(|v: Vec<char>| v@) + lines(s@.skip(k + 1)));
        start = k + 1;
    }
}


/// The index of the first white-space character of `s`, or its length.
pub open spec fn ws_pos(s: Seq<char>) -> int
    decreases s.len(),
{
    if s.len() == 0 {
        0
    } else if is_ws(s[0]) {
        0
    } else {
        1 + ws_pos(s.drop_first())
    }
}

pub proof fn lemma_ws_pos_bounds(s: Seq<char>)
    ensures
        0 <= ws_pos(s) <= s.len(),
        s.len() > 0 && !is_ws(s[0]) ==> ws_pos(s) >= 1,
    decreases s.len(),
{
    if s.len() > 0 && !is_ws(s[0]) {
        lemma_ws_pos_bounds(s.drop_first());
    }
}

pub proof fn lemma_trim_start(s: Seq<char>)
    ensures
        trim_start(s).len() <= s.len(),
        trim_start(s).len() > 0 ==> !is_ws(trim_start(s)[0]),
        exists|k: int| 0 <= k <= s.len() && trim_start(s) == s.skip(k),
    decreases s.len(),
{
    if s.len() > 0 && is_ws(s[0]) {
        lemma_trim_start(s.drop_first());
        let k = choose|k: int| 0 <= k <= s.drop_first().len() && trim_start(s.drop_first()) == s.drop_first().skip(k);
        assert(s.drop_first().skip(k) =~= s.skip(k + 1));
    } else {
        assert(s.skip(0) =~= s);
    }
}

pub proof fn lemma_trim_end(s: Seq<char>)
    ensures
        trim_end(s).len() <= s.len(),
        trim_end(s) == s.take(trim_end(s).len() as int),
        trim_end(s).len() > 0 ==> !is_ws(trim_end(s).last()),
    decreases s.len(),
{
    if s.len() > 0 && is_ws(s.last()) {
        lemma_trim_end(s.drop_last());
        assert(s.drop_last().take(trim_end(s).len() as int) =~= s.take(trim_end(s).len() as int));
    } else {
        assert(s.take(s.len() as int) =~= s);
    }
}

/// A trimmed text that is not empty starts and ends with a character that is not white
/// space.
pub proof fn lemma_trim_edges(s: Seq<char>)
    ensures
        trim(s).len() > 0 ==> !is_ws(trim(s)[0]) && !is_ws(trim(s).last()),
{
    lemma_trim_start(s);
    lemma_trim_end(trim_start(s));
    if trim(s).len() > 0 {
        assert(trim(s)[0] == trim_start(s)[0]);
    }
}

/// The white-space separated words of `s` (`str::split_whitespace`).
pub open spec fn words(s: Seq<char>) -> Seq<Seq<char>>
    decreases s.len(),
{
    let t = trim_start(s);
    if t.len() == 0 {
        seq![]
    } else {
        proof {
            lemma_trim_start(s);
            lemma_ws_pos_bounds(t);
        }
        seq![t.take(ws_pos(t))] + words(t.skip(ws_pos(t)))
    }
}

/// The index of the first white-space character at or after `from`, or the length.
fn ws_pos_from(s: &[char], from: usize) -> (r: usize)
    requires
        from <= s@.len(),
    ensures
        from <= r <= s@.len(),
        r == from + ws_pos(s@.skip(from as int)),
{
    let mut j = from;
    assert(s@.skip(from as int) =~= s@.skip(j as int));
    while j < s.len() && !is_whitespace(s[j])
        invariant
            from <= j <= s@.len(),
            ws_pos(s@.skip(from as int)) == (j - from) + ws_pos(s@.skip(j as int)),
        decreases s@.len() - j,
    {
        assert(s@.skip(j as int).drop_first() =~= s@.skip(j + 1));
        j = j + 1;
    }
    j
}

/// The index of the first non-white-space character at or after `from`, or the length.
fn skip_ws_from(s: &[char], from: usize) -> (r: usize)
    requires
        from <= s@.len(),
    ensures
        from <= r <= s@.len(),
        trim_start(s@.skip(from as int)) == s@.skip(r as int),
{
    let mut j = from;
    assert(s@.skip(from as int) =~= s@.skip(j as int));
    while j < s.len() && is_whitespace(s[j])
        invariant
            from <= j <= s@.len(),
            trim_start(s@.skip(from as int)) == trim_start(s@.skip(j as int)),
        decreases s@.len() - j,
    {
        assert(s@.skip(j as int).drop_first() =~= s@.skip(j + 1));
        j = j + 1;
    }
    j
}

/// `words` on characters.
pub fn words_chars(s: &[char]) -> (r: Vec<Vec<char>>)
    ensures
        r@.len() == words(s@).len(),
        forall|i: int| 0 <= i < r@.len() ==> #[trigger] r@[i]@ == words(s@)[i],
{
    let mut r: Vec<Vec<char>> = Vec::new();
    let mut start: usize = 0;
    assert(s@.skip(0) =~= s@);
    loop
        invariant
            start <= s@.len(),
            words(s@) == r@.map_values(|v: Vec<char>| v@) + words(s@.skip(start as int)),
        decreases s@.len() - start,
    {
        let b = skip_ws_from(s, start);
        if b == s.len() {
            assert(s@.skip(b as int).len() == 0);
            assert(words(s@) =~= r@.map_values(|v: Vec<char>| v@));
            return r;
        }
        let e = ws_pos_from(s, b);
        let ghost t = s@.skip(b as int);
        proof {
            lemma_ws_pos_bounds(t);
        }
        let piece = copy_range(s, b, e);
        assert(t.take(e - b) =~= piece@);
        assert(t.skip(e - b) =~= s@.skip(e as int));
        r.push(piece);
        assert(words(s@) =~= r@.map_values(|v: Vec<char>| v@) + words(s@.skip(e as int)));
        start = e;
    }
}

/// The numeric value of a decimal digit character.
pub open spec fn digit_value(c: char) -> int {
    c as int - '0' as int
}

/// Every character of `s` is an ASCII decimal digit.
pub open spec fn all_digits(s: Seq<char>) -> bool {
    forall|i: int| 0 <= i < s.len() ==> '0' <= #[trigger] s[i] <= '9'
}

/// The value of a string of decimal digits.
pub open spec fn decimal_value(s: Seq<char>) -> nat
    decreases s.len(),
{
    if s.len() == 0 {
        0
    } else {
        (decimal_value(s.drop_last()) * 10 + digit_value(s.last())) as nat
    }
}

/// What `from_str` accepts for an unsigned integer, without its range check: an optional
/// `+`, then at least one decimal digit.
pub open spec fn parse_nat(s: Seq<char>) -> Option<nat> {
    let d = if s.len() > 0 && s[0] == '+' {
        s.drop_first()
    } else {
        s
    };
    if d.len() > 0 && all_digits(d) {
        Some(decimal_value(d))
    } else {
        None
    }
}

/// `u64::from_str`.
pub open spec fn parse_u64(s: Seq<char>) -> Option<u64> {
    match parse_nat(s) {
        Some(v) => if v <= u64::MAX {
            Some(v as u64)
        } else {
            None
        },
        None => None,
    }
}

/// `u32::from_str`.
pub open spec fn parse_u32(s: Seq<char>) -> Option<u32> {
    match parse_nat(s) {
        Some(v) => if v <= u32::MAX {
            Some(v as u32)
        } else {
            None
        },
        None => None,
    }
}

/// `i64::from_str`: an optional sign, then at least one decimal digit, within range.
pub open spec fn parse_i64(s: Seq<char>) -> Option<i64> {
    if s.len() > 0 && s[0] == '-' {
        let d = s.drop_first();
        if d.len() > 0 && all_digits(d) && decimal_value(d) <= 0x8000_0000_0000_0000 {
            Some((0 - decimal_value(d)) as i64)
        } else {
            None
        }
    } else {
        match parse_nat(s) {
            Some(v) => if v <= i64::MAX {
                Some(v as i64)
            } else {
                None
            },
            None => None,
        }
    }
}

/// The value of the digits `s[from..]`, when it is at most `max`.
fn digits_value_upto(s: &[char], from: usize, max: u64) -> (r: Option<u64>)
    requires
        from <= s@.len(),
    ensures
        match r {
            Some(v) => from < s@.len() && all_digits(s@.skip(from as int)) && decimal_value(
                s@.skip(from as int),
            ) == v && v <= max,
            None => !(from < s@.len() && all_digits(s@.skip(from as int)) && decimal_value(
                s@.skip(from as int),
            ) <= max),
        },
{
    if from == s.len() {
        return None;
    }
    let mut acc: u64 = 0;
    let mut over = false;
    let mut i = from;
    assert(s@.subrange(from as int, i as int) =~= Seq::<char>::empty());
    while i < s.len()
        invariant
            from <= i <= s@.len(),
            all_digits(s@.subrange(from as int, i as int)),
            !over ==> acc == decimal_value(s@.subrange(from as int, i as int)) && acc <= max,
            over ==> decimal_value(s@.subrange(from as int, i as int)) > max,
        decreases s@.len() - i,
    {
        let c = s[i];
        if c < '0' || c > '9' {
            assert(s@.skip(from as int)[i - from] == c);
            return None;
        }
        let d = (c as u64) - ('0' as u64);
        let ghost prev = s@.subrange(from as int, i as int);
        assert(s@.subrange(from as int, i + 1).drop_last() =~= prev);
        if !over {
            if d > max || acc > (max - d) / 10 {
                over = true;
                assert(acc * 10 + d > max) by (nonlinear_arith)
                    requires
                        d > max || acc > (max - d) / 10,
                        acc >= 0,
                {
                }
            } else {
                assert(acc * 10 + d <= max) by (nonlinear_arith)
                    requires
                        d <= max,
                        acc <= (max - d) / 10,
                {
                }
                acc = acc * 10 + d;
            }
        } else {
            assert(decimal_value(s@.subrange(from as int, i + 1)) >= decimal_value(prev));
        }
        i = i + 1;
    }
    assert(s@.subrange(from as int, s@.len() as int) =~= s@.skip(from as int));
    if over {
        None
    } else {
        Some(acc)
    }
}


/// The start of the digits after an optional leading `+`.
fn unsigned_digits_start(s: &[char]) -> (r: usize)
    ensures
        r <= s@.len(),
        s@.skip(r as int) == (if s@.len() > 0 && s@[0] == '+' {
            s@.drop_first()
        } else {
            s@
        }),
{
    if s.len() > 0 && s[0] == '+' {
        assert(s@.skip(1) =~= s@.drop_first());
        1
    } else {
        assert(s@.skip(0) =~= s@);
        0
    }
}

/// `u64::from_str` on characters.
pub fn parse_u64_chars(s: &[char]) -> (r: Option<u64>)
    ensures
        r == parse_u64(s@),
{
    let st = unsigned_digits_start(s);
    digits_value_upto(s, st, u64::MAX)
}

/// `u32::from_str` on characters.
pub fn parse_u32_chars(s: &[char]) -> (r: Option<u32>)
    ensures
        r == parse_u32(s@),
{
    let st = unsigned_digits_start(s);
    match digits_value_upto(s, st, 0xFFFF_FFFF) {
        Some(v) => Some(v as u32),
        None => None,
    }
}

/// `i64::from_str` on characters.
pub fn parse_i64_chars(s: &[char]) -> (r: Option<i64>)
    ensures
        r == parse_i64(s@),
{
    if s.len() > 0 && s[0] == '-' {
        assert(s@.skip(1) =~= s@.drop_first());
        match digits_value_upto(s, 1, 0x8000_0000_0000_0000) {
            Some(v) => {
                let n: i128 = 0i128 - (v as i128);
                Some(n as i64)
            },
            None => None,
        }
    } else {
        let st = unsigned_digits_start(s);
        match digits_value_upto(s, st, 0x7FFF_FFFF_FFFF_FFFF) {
            Some(v) => Some(v as i64),
            None => None,
        }
    }
}

/// The character of a decimal digit.
pub open spec fn digit_char(d: nat) -> char {
    (d + '0' as nat) as char
}

/// The decimal representation of `n` without leading zeros (`u64::to_string`).
pub open spec fn decimal(n: nat) -> Seq<char>
    decreases n,
{
    if n < 10 {
        seq![digit_char(n)]
    } else {
        decimal(n / 10).push(digit_char(n % 10))
    }
}

/// The decimal representation of `n`, with a minus sign when negative (`i64::to_string`).
pub open spec fn signed_decimal(n: int) -> Seq<char> {
    if n < 0 {
        seq!['-'] + decimal((0 - n) as nat)
    } else {
        decimal(n as nat)
    }
}

/// The character of the decimal digit `d`.
fn digit_to_char(d: u8) -> (c: char)
    requires
        d < 10,
    ensures
        c == digit_char(d as nat),
{
    match d {
        0 => '0',
        1 => '1',
        2 => '2',
        3 => '3',
        4 => '4',
        5 => '5',
        6 => '6',
        7 => '7',
        8 => '8',
        _ => '9',
    }
}

/// Appends the decimal digits of `n` to `s`.
pub fn push_decimal(s: &mut String, n: u128)
    ensures
        final(s)@ == old(s)@ + decimal(n as nat),
    decreases n,
{
    if n >= 10 {
        push_decimal(s, n / 10);
    }
    let ch = digit_to_char((n % 10) as u8);
    push_char(s, ch);
    if n >= 10 {
        assert(old(s)@ + decimal(n as nat) =~= old(s)@ + decimal((n / 10) as nat) + seq![
            digit_char((n % 10) as nat),
        ]);
    }
}

/// `u64::to_string`.
pub fn decimal_string(n: u64) -> (r: String)
    ensures
        r@ == decimal(n as nat),
{
    let mut s = String::new();
    push_decimal(&mut s, n as u128);
    assert(s@ =~= decimal(n as nat));
    s
}

/// `i64::to_string`.
pub fn signed_decimal_string(n: i64) -> (r: String)
    ensures
        r@ == signed_decimal(n as int),
{
    let mut s = String::new();
    if n < 0 {
        push_char(&mut s, '-');
        let m: i128 = 0i128 - (n as i128);
        push_decimal(&mut s, m as u128);
    } else {
        push_decimal(&mut s, n as u128);
    }
    assert(s@ =~= signed_decimal(n as int));
    s
}

/// The pieces of `parts` joined by `sep` (`[..].join(sep)`).
pub open spec fn join(parts: Seq<Seq<char>>, sep: Seq<char>) -> Seq<char>
    decreases parts.len(),
{
    if parts.len() == 0 {
        seq![]
    } else if parts.len() == 1 {
        parts[0]
    } else {
        join(parts.drop_last(), sep) + sep + parts.last()
    }
}

/// `join` of a vector of character vectors.
pub fn join_chars(parts: &Vec<Vec<char>>, sep: &str) -> (r: String)
    ensures
        r@ == join(parts@.map_values(|v: Vec<char>| v@), sep@),
{
    let ghost ps = parts@.map_values(|v: Vec<char>| v@);
    let mut r = String::new();
    let mut i: usize = 0;
    while i < parts.len()
        invariant
            i <= parts@.len(),
            ps == parts@.map_values(|v: Vec<char>| v@),
            r@ == join(ps.take(i as int), sep@),
        decreases parts@.len() - i,
    {
        let piece = string_of(parts[i].as_slice());
        if i > 0 {
            r.append(sep);
        }
        r.append(piece.as_str());
        assert(ps.take(i + 1).drop_last() =~= ps.take(i as int));
        i = i + 1;
    }
    assert(ps.take(parts@.len() as int) =~= ps);
    r
}

/// `&s[..n.min(s.len())]`: the first `n` bytes of `s`, or all of it when it is shorter.
/// Slicing inside a character panics in Rust, hence the `requires`.
pub fn prefix_bytes(s: &str, n: usize) -> (r: &str)
    requires
        n >= s.spec_bytes().len() || vstd::utf8::is_char_boundary(s.spec_bytes(), n as int),
    ensures
        r.spec_bytes() == s.spec_bytes().take(
            if n < s.spec_bytes().len() {
                n as int
            } else {
                s.spec_bytes().len() as int
            },
        ),
{
    let len = s.as_bytes().len();
    if n >= len {
        assert(s.spec_bytes().take(s.spec_bytes().len() as int) =~= s.spec_bytes());
        s
    } else {
        let (a, _b) = s.split_at(n);
        assert(a.spec_bytes() =~= s.spec_bytes().subrange(0, n as int));
        assert(n < s.spec_bytes().len());
        a
    }
}

} // verus!
