//! Text functions, each stated over the characters of its arguments.
use vstd::prelude::*;

verus! {

/// `String::push` of std: the character is appended, what was there stays in place.
pub assume_specification[ String::push ](s: &mut String, c: char)
    ensures
        final(s)@ == old(s)@.push(c),
;

/// A character with Unicode's `White_Space` property.
#[verifier::allow_in_spec]
pub fn is_white(c: char) -> bool
    returns
        ('\u{9}' <= c && c <= '\u{d}') || c == ' ' || c == '\u{85}' || c == '\u{a0}' || c
            == '\u{1680}' || ('\u{2000}' <= c && c <= '\u{200a}') || c == '\u{2028}' || c
            == '\u{2029}' || c == '\u{202f}' || c == '\u{205f}' || c == '\u{3000}',
{
    ('\u{9}' <= c && c <= '\u{d}') || c == ' ' || c == '\u{85}' || c == '\u{a0}' || c == '\u{1680}'
        || ('\u{2000}' <= c && c <= '\u{200a}') || c == '\u{2028}' || c == '\u{2029}' || c
        == '\u{202f}' || c == '\u{205f}' || c == '\u{3000}'
}

/// An ASCII decimal digit.
#[verifier::allow_in_spec]
pub fn is_digit(c: char) -> bool
    returns
        '0' <= c && c <= '9',
{
    '0' <= c && c <= '9'
}

/// The lower-case form of an ASCII letter; every other character stays.
pub open spec fn lower(c: char) -> char {
    if 'A' <= c && c <= 'Z' {
        ((c as u32) + 32) as char
    } else {
        c
    }
}

/// The characters with every ASCII letter in lower case.
pub open spec fn lower_all(s: Seq<char>) -> Seq<char> {
    s.map_values(|c: char| lower(c))
}

pub fn lower_char(c: char) -> (r: char)
    ensures
        r == lower(c),
{
    if 'A' <= c && c <= 'Z' {
        let code: u8 = (c as u32 as u8) + 32;
        code as char
    } else {
        c
    }
}

/// The characters of a string.
pub fn chars_of(s: &str) -> (r: Vec<char>)
    ensures
        r@ == s@,
{
    let mut r: Vec<char> = Vec::new();
    for c in it: s.chars()
        invariant
            it.seq() == s@,
            r@ == s@.take(it.index() as int),
    {
        r.push(c);
    }
    assert(s@.take(s@.len() as int) == s@);
    r
}

/// The string of the characters from `from` up to `to`.
pub fn string_of(v: &Vec<char>, from: usize, to: usize) -> (r: String)
    requires
        from <= to <= v@.len(),
    ensures
        r@ == v@.subrange(from as int, to as int),
{
    let mut r = String::new();
    let mut i: usize = from;
    while i < to
        invariant
            from <= i <= to <= v@.len(),
            r@ == v@.subrange(from as int, i as int),
        decreases to - i,
    {
        r.push(v[i]);
        i += 1;
    }
    r
}

/// Whether two strings hold the same characters.
pub fn same(a: &str, b: &str) -> (r: bool)
    ensures
        r == (a@ == b@),
{
    let left = a.to_owned();
    let right = b.to_owned();
    left == right
}

/// The characters without leading white space.
pub open spec fn trim_start(s: Seq<char>) -> Seq<char>
    decreases s.len(),
{
    if s.len() > 0 && is_white(s[0]) {
        trim_start(s.drop_first())
    } else {
        s
    }
}

/// The characters without trailing white space.
pub open spec fn trim_end(s: Seq<char>) -> Seq<char>
    decreases s.len(),
{
    if s.len() > 0 && is_white(s.last()) {
        trim_end(s.drop_last())
    } else {
        s
    }
}

/// The characters without white space at either end.
pub open spec fn trim(s: Seq<char>) -> Seq<char> {
    trim_end(trim_start(s))
}

/// A text without white space at its ends is trimmed as it is.
pub proof fn lemma_already_trimmed(s: Seq<char>)
    requires
        s.len() > 0 ==> !is_white(s[0]) && !is_white(s.last()),
    ensures
        trim(s) == s,
{
}

proof fn lemma_trim_start_ends(s: Seq<char>)
    ensures
        trim_start(s).len() > 0 ==> !is_white(trim_start(s)[0]),
        trim_start(s).len() > 0 ==> trim_start(s).last() == s.last(),
    decreases s.len(),
{
    if s.len() > 0 && is_white(s[0]) {
        lemma_trim_start_ends(s.drop_first());
    }
}

proof fn lemma_trim_end_ends(s: Seq<char>)
    ensures
        trim_end(s).len() > 0 ==> !is_white(trim_end(s).last()),
        trim_end(s).len() > 0 ==> trim_end(s)[0] == s[0],
    decreases s.len(),
{
    if s.len() > 0 && is_white(s.last()) {
        lemma_trim_end_ends(s.drop_last());
    }
}

/// A trimmed text has no white space at its ends.
pub proof fn lemma_trim_ends(s: Seq<char>)
    ensures
        trim(s).len() > 0 ==> !is_white(trim(s)[0]) && !is_white(trim(s).last()),
{
    lemma_trim_start_ends(s);
    lemma_trim_end_ends(trim_start(s));
}

/// A text of nothing but white space.
pub open spec fn all_white(s: Seq<char>) -> bool {
    forall|k: int| 0 <= k < s.len() ==> is_white(#[trigger] s[k])
}

/// Trimming takes off the white space at both ends, all of it and nothing else: nothing is
/// left exactly where nothing else was there.
pub proof fn trimming_takes_the_white_ends(s: Seq<char>) -> (ends: (int, int))
    ensures
        0 <= ends.0 <= ends.1 <= s.len(),
        trim(s) == s.subrange(ends.0, ends.1),
        all_white(s.subrange(0, ends.0)),
        all_white(s.subrange(ends.1, s.len() as int)),
        ends.0 < ends.1 ==> !is_white(s[ends.0]) && !is_white(s[ends.1 - 1]),
        trim(s).len() == 0 <==> all_white(s),
{
    let i = white_prefix(s, 0);
    lemma_trim_start(s, i);
    let rest = s.subrange(i, s.len() as int);
    let j = white_suffix(rest, rest.len() as int);
    lemma_trim_end(rest, j);
    assert(rest.subrange(0, j) =~= s.subrange(i, i + j));
    if j < rest.len() && j == 0 {
        assert(is_white(rest[0]));
    }
    assert forall|k: int| 0 <= k < rest.len() - j implies is_white(
        #[trigger] s.subrange(i + j, s.len() as int)[k],
    ) by {
        assert(is_white(rest[j + k]));
    }
    if j > 0 {
        assert(s[i + j - 1] == rest[j - 1]);
    }
    (i, i + j)
}

proof fn white_prefix(s: Seq<char>, from: int) -> (i: int)
    requires
        0 <= from <= s.len(),
        forall|k: int| 0 <= k < from ==> is_white(#[trigger] s[k]),
    ensures
        from <= i <= s.len(),
        forall|k: int| 0 <= k < i ==> is_white(#[trigger] s[k]),
        i < s.len() ==> !is_white(s[i]),
    decreases s.len() - from,
{
    if from < s.len() && is_white(s[from]) {
        white_prefix(s, from + 1)
    } else {
        from
    }
}

proof fn white_suffix(s: Seq<char>, to: int) -> (j: int)
    requires
        0 <= to <= s.len(),
        forall|k: int| to <= k < s.len() ==> is_white(#[trigger] s[k]),
    ensures
        0 <= j <= to,
        forall|k: int| j <= k < s.len() ==> is_white(#[trigger] s[k]),
        j > 0 ==> !is_white(s[j - 1]),
    decreases to,
{
    if to > 0 && is_white(s[to - 1]) {
        white_suffix(s, to - 1)
    } else {
        to
    }
}

pub proof fn lemma_trim_start(s: Seq<char>, i: int)
    requires
        0 <= i <= s.len(),
        forall|k: int| 0 <= k < i ==> is_white(#[trigger] s[k]),
        i < s.len() ==> !is_white(s[i]),
    ensures
        trim_start(s) == s.subrange(i, s.len() as int),
    decreases i,
{
    if i > 0 {
        let rest = s.drop_first();
        assert forall|k: int| 0 <= k < i - 1 implies is_white(#[trigger] rest[k]) by {
            assert(rest[k] == s[k + 1]);
        }
        lemma_trim_start(rest, i - 1);
        assert(rest.subrange(i - 1, rest.len() as int) == s.subrange(i, s.len() as int));
    } else {
        assert(s.subrange(0, s.len() as int) == s);
    }
}

pub proof fn lemma_trim_end(s: Seq<char>, j: int)
    requires
        0 <= j <= s.len(),
        forall|k: int| j <= k < s.len() ==> is_white(#[trigger] s[k]),
        j > 0 ==> !is_white(s[j - 1]),
    ensures
        trim_end(s) == s.subrange(0, j),
    decreases s.len() - j,
{
    if j < s.len() {
        let rest = s.drop_last();
        assert forall|k: int| j <= k < rest.len() implies is_white(#[trigger] rest[k]) by {
            assert(rest[k] == s[k]);
        }
        assert(is_white(s[s.len() - 1]));
        lemma_trim_end(rest, j);
        assert(rest.subrange(0, j) == s.subrange(0, j));
    } else {
        assert(s.subrange(0, s.len() as int) == s);
    }
}

/// The string without white space at either end.
pub fn trimmed(s: &str) -> (r: String)
    ensures
        r@ == trim(s@),
{
    let v = chars_of(s);
    let mut i: usize = 0;
    while i < v.len() && is_white(v[i])
        invariant
            0 <= i <= v@.len(),
            forall|k: int| 0 <= k < i ==> is_white(#[trigger] v@[k]),
        decreases v@.len() - i,
    {
        i += 1;
    }
    let mut j: usize = v.len();
    while j > i && is_white(v[j - 1])
        invariant
            i <= j <= v@.len(),
            forall|k: int| j <= k < v@.len() ==> is_white(#[trigger] v@[k]),
        decreases j,
    {
        j -= 1;
    }
    proof {
        lemma_trim_start(s@, i as int);
        let rest = s@.subrange(i as int, s@.len() as int);
        assert forall|k: int| j - i <= k < rest.len() implies is_white(#[trigger] rest[k]) by {
            assert(rest[k] == s@[k + i]);
        }
        lemma_trim_end(rest, j - i);
        assert(rest.subrange(0, j - i) == s@.subrange(i as int, j as int));
    }
    string_of(&v, i, j)
}

/// The string without leading white space.
pub fn trimmed_start(s: &str) -> (r: String)
    ensures
        r@ == trim_start(s@),
{
    let v = chars_of(s);
    let mut i: usize = 0;
    while i < v.len() && is_white(v[i])
        invariant
            0 <= i <= v@.len(),
            forall|k: int| 0 <= k < i ==> is_white(#[trigger] v@[k]),
        decreases v@.len() - i,
    {
        i += 1;
    }
    proof {
        lemma_trim_start(s@, i as int);
    }
    string_of(&v, i, v.len())
}

/// The string without trailing white space.
pub fn trimmed_end(s: &str) -> (r: String)
    ensures
        r@ == trim_end(s@),
{
    let v = chars_of(s);
    let mut j: usize = v.len();
    while j > 0 && is_white(v[j - 1])
        invariant
            0 <= j <= v@.len(),
            forall|k: int| j <= k < v@.len() ==> is_white(#[trigger] v@[k]),
        decreases j,
    {
        j -= 1;
    }
    proof {
        lemma_trim_end(s@, j as int);
    }
    string_of(&v, 0, j)
}

/// The string with every ASCII letter in lower case.
pub fn lowered(s: &str) -> (r: String)
    ensures
        r@ == lower_all(s@),
{
    let v = chars_of(s);
    let mut r = String::new();
    let mut i: usize = 0;
    while i < v.len()
        invariant
            0 <= i <= v@.len(),
            r@ == lower_all(v@.take(i as int)),
        decreases v@.len() - i,
    {
        r.push(lower_char(v[i]));
        i += 1;
        assert(lower_all(v@.take(i as int)) == lower_all(v@.take(i - 1)).push(lower(v@[i - 1])));
    }
    assert(v@.take(i as int) == s@);
    r
}

/// Whether two strings are the same but for the case of ASCII letters.
pub fn same_ignoring_case(a: &str, b: &str) -> (r: bool)
    ensures
        r == (lower_all(a@) == lower_all(b@)),
{
    let left = lowered(a);
    let right = lowered(b);
    left == right
}

/// Whether `p` stands in `s` at position `i`.
pub open spec fn at(s: Seq<char>, p: Seq<char>, i: int) -> bool {
    0 <= i && i + p.len() <= s.len() && s.subrange(i, i + p.len()) == p
}

/// Whether `s` begins with `p`.
pub open spec fn starts(s: Seq<char>, p: Seq<char>) -> bool {
    at(s, p, 0)
}

/// Whether `s` ends with `p`.
pub open spec fn ends(s: Seq<char>, p: Seq<char>) -> bool {
    at(s, p, s.len() - p.len())
}

/// Whether `p` stands anywhere in `s`.
pub open spec fn holds(s: Seq<char>, p: Seq<char>) -> bool {
    exists|i: int| at(s, p, i)
}

/// The first position from `i` on at which `p` stands in `s`.
pub open spec fn find_from(s: Seq<char>, p: Seq<char>, i: int) -> Option<int>
    decreases s.len() + 1 - i,
{
    if i < 0 || i + p.len() > s.len() {
        None
    } else if at(s, p, i) {
        Some(i)
    } else {
        find_from(s, p, i + 1)
    }
}

/// The first position at which `p` stands in `s`.
pub open spec fn find(s: Seq<char>, p: Seq<char>) -> Option<int> {
    find_from(s, p, 0)
}

/// A string holds what it can be searched for, and nothing else.
pub proof fn lemma_find(s: Seq<char>, p: Seq<char>, i: int)
    requires
        0 <= i,
    ensures
        match find_from(s, p, i) {
            Some(k) => i <= k && at(s, p, k) && forall|m: int| i <= m < k ==> !at(s, p, m),
            None => forall|m: int| i <= m ==> !at(s, p, m),
        },
    decreases s.len() + 1 - i,
{
    if i + p.len() <= s.len() && !at(s, p, i) {
        lemma_find(s, p, i + 1);
    }
}

/// Whether `p` stands in `v` at position `i`.
pub fn at_chars(v: &Vec<char>, p: &Vec<char>, i: usize) -> (r: bool)
    ensures
        r == at(v@, p@, i as int),
{
    if p.len() > v.len() || i > v.len() - p.len() {
        return false;
    }
    let n: usize = v.len();
    let mut k: usize = 0;
    while k < p.len()
        invariant
            0 <= k <= p@.len(),
            i + p@.len() <= v@.len(),
            n == v@.len(),
            forall|m: int| 0 <= m < k ==> v@[i + m] == p@[m],
        decreases p@.len() - k,
    {
        if v[i + k] != p[k] {
            assert(v@.subrange(i as int, i + p@.len())[k as int] != p@[k as int]);
            return false;
        }
        k += 1;
    }
    assert(v@.subrange(i as int, i + p@.len()) =~= p@);
    true
}

pub fn find_chars(v: &Vec<char>, p: &Vec<char>, from: usize) -> (r: Option<usize>)
    ensures
        match r {
            Some(i) => find_from(v@, p@, from as int) == Some(i as int),
            None => find_from(v@, p@, from as int) is None,
        },
{
    if p.len() > v.len() {
        return None;
    }
    let last: usize = v.len() - p.len();
    let mut i: usize = from;
    while i <= last
        invariant
            from <= i,
            last + p@.len() == v@.len(),
            find_from(v@, p@, from as int) == find_from(v@, p@, i as int),
        decreases last + 1 - i,
    {
        if at_chars(v, p, i) {
            return Some(i);
        }
        if i == last {
            assert(find_from(v@, p@, i + 1) is None);
            return None;
        }
        i += 1;
    }
    None
}

/// Whether `s` begins with `p`.
pub fn starts_with(s: &str, p: &str) -> (r: bool)
    ensures
        r == starts(s@, p@),
{
    at_chars(&chars_of(s), &chars_of(p), 0)
}

/// The first position at which `p` stands in `s`.
pub fn position(s: &str, p: &str) -> (r: Option<usize>)
    ensures
        match r {
            Some(i) => find(s@, p@) == Some(i as int) && i + p@.len() <= s@.len(),
            None => find(s@, p@) is None,
        },
{
    let v = chars_of(s);
    let q = chars_of(p);
    proof {
        lemma_find(s@, p@, 0);
    }
    find_chars(&v, &q, 0)
}

/// Whether `p` stands anywhere in `s`.
pub fn contains(s: &str, p: &str) -> (r: bool)
    ensures
        r == holds(s@, p@),
{
    proof {
        lemma_find(s@, p@, 0);
    }
    position(s, p).is_some()
}

/// What stands behind the prefix `p` of `s`.
pub open spec fn behind(s: Seq<char>, p: Seq<char>) -> Option<Seq<char>> {
    if starts(s, p) {
        Some(s.subrange(p.len() as int, s.len() as int))
    } else {
        None
    }
}

/// The view of an optional string.
pub open spec fn text_option(o: Option<String>) -> Option<Seq<char>> {
    match o {
        Some(s) => Some(s@),
        None => None,
    }
}

/// What stands behind the prefix `p` of `s`, where `s` begins with it.
pub fn strip_prefix(s: &str, p: &str) -> (r: Option<String>)
    ensures
        text_option(r) == behind(s@, p@),
{
    let v = chars_of(s);
    let q = chars_of(p);
    if at_chars(&v, &q, 0) {
        Some(string_of(&v, q.len(), v.len()))
    } else {
        None
    }
}

/// `a` followed by `b`.
pub fn concat(a: &str, b: &str) -> (r: String)
    ensures
        r@ == a@ + b@,
{
    let mut r = a.to_owned();
    r.append(b);
    r
}

/// `a`, `b` and `c`, one behind the other.
pub fn concat3(a: &str, b: &str, c: &str) -> (r: String)
    ensures
        r@ == a@ + b@ + c@,
{
    let mut r = a.to_owned();
    r.append(b);
    r.append(c);
    r
}

/// The first position from `i` on that holds the character `c`.
pub open spec fn char_from(s: Seq<char>, c: char, i: int) -> Option<int>
    decreases s.len() - i,
{
    if i < 0 || i >= s.len() {
        None
    } else if s[i] == c {
        Some(i)
    } else {
        char_from(s, c, i + 1)
    }
}

/// The last position below `i` that holds the character `c`.
pub open spec fn char_below(s: Seq<char>, c: char, i: int) -> Option<int>
    decreases i,
{
    if i <= 0 || i > s.len() {
        None
    } else if s[i - 1] == c {
        Some(i - 1)
    } else {
        char_below(s, c, i - 1)
    }
}

pub fn find_char(v: &Vec<char>, c: char, from: usize) -> (r: Option<usize>)
    ensures
        match r {
            Some(i) => char_from(v@, c, from as int) == Some(i as int) && from <= i < v@.len()
                && v@[i as int] == c,
            None => char_from(v@, c, from as int) is None,
        },
{
    let mut i: usize = from;
    while i < v.len()
        invariant
            from <= i,
            char_from(v@, c, from as int) == char_from(v@, c, i as int),
        decreases v@.len() - i,
    {
        if v[i] == c {
            return Some(i);
        }
        i += 1;
    }
    None
}

pub fn rfind_char(v: &Vec<char>, c: char) -> (r: Option<usize>)
    ensures
        match r {
            Some(i) => char_below(v@, c, v@.len() as int) == Some(i as int) && i < v@.len()
                && v@[i as int] == c,
            None => char_below(v@, c, v@.len() as int) is None,
        },
{
    let mut i: usize = v.len();
    while i > 0
        invariant
            i <= v@.len(),
            char_below(v@, c, v@.len() as int) == char_below(v@, c, i as int),
        decreases i,
    {
        if v[i - 1] == c {
            return Some(i - 1);
        }
        i -= 1;
    }
    None
}

/// Whether the character occurs in the string.
pub fn has_char(s: &str, c: char) -> (r: bool)
    ensures
        r == s@.contains(c),
{
    let v = chars_of(s);
    let mut i: usize = 0;
    while i < v.len()
        invariant
            0 <= i <= v@.len(),
            v@ == s@,
            forall|k: int| 0 <= k < i ==> v@[k] != c,
        decreases v@.len() - i,
    {
        if v[i] == c {
            return true;
        }
        i += 1;
    }
    false
}

/// Whether the string ends with the character.
pub fn ends_with_char(s: &str, c: char) -> (r: bool)
    ensures
        r == (s@.len() > 0 && s@.last() == c),
{
    let v = chars_of(s);
    v.len() > 0 && v[v.len() - 1] == c
}

/// The words of `s`, where `word` stands already read in front of it: the runs
/// of characters between white space.
pub open spec fn words_from(word: Seq<char>, s: Seq<char>) -> Seq<Seq<char>>
    decreases s.len(),
{
    let read = if word.len() > 0 {
        seq![word]
    } else {
        Seq::empty()
    };
    if s.len() == 0 {
        read
    } else if is_white(s[0]) {
        read + words_from(Seq::empty(), s.drop_first())
    } else {
        words_from(word.push(s[0]), s.drop_first())
    }
}

/// The words of a text.
pub open spec fn words(s: Seq<char>) -> Seq<Seq<char>> {
    words_from(Seq::empty(), s)
}

/// The views of a vector of strings.
pub open spec fn texts(v: Seq<String>) -> Seq<Seq<char>> {
    v.map_values(|s: String| s@)
}

pub fn words_of(s: &str) -> (r: Vec<String>)
    ensures
        texts(r@) == words(s@),
{
    let v = chars_of(s);
    let mut r: Vec<String> = Vec::new();
    let mut word = String::new();
    let mut i: usize = 0;
    assert(s@.skip(0) == s@);
    assert(texts(r@) + words_from(word@, s@.skip(0)) == words(s@));
    while i < v.len()
        invariant
            0 <= i <= v@.len(),
            v@ == s@,
            texts(r@) + words_from(word@, s@.skip(i as int)) == words(s@),
        decreases v@.len() - i,
    {
        let c = v[i];
        let ghost rest = s@.skip(i as int);
        assert(rest[0] == c);
        assert(rest.drop_first() == s@.skip(i + 1));
        if is_white(c) {
            let ghost before = texts(r@);
            let ghost tail = words_from(Seq::empty(), s@.skip(i + 1));
            if !word.as_str().is_empty() {
                let ghost done = word@;
                r.push(word);
                word = String::new();
                assert(texts(r@) == before.push(done));
                assert(before.push(done) + tail == before + (seq![done] + tail));
            } else {
                assert(Seq::<Seq<char>>::empty() + tail == tail);
            }
            assert(word@ == Seq::<char>::empty());
        } else {
            word.push(c);
        }
        i += 1;
    }
    assert(s@.skip(i as int).len() == 0);
    if !word.as_str().is_empty() {
        let ghost before = texts(r@);
        let ghost done = word@;
        r.push(word);
        assert(texts(r@) == before.push(done));
        assert(before.push(done) == before + seq![done]);
    } else {
        assert(texts(r@) + Seq::<Seq<char>>::empty() == texts(r@));
    }
    r
}

/// The texts one behind the other, with `sep` between them.
pub open spec fn join(parts: Seq<Seq<char>>, sep: Seq<char>) -> Seq<char>
    decreases parts.len(),
{
    if parts.len() == 0 {
        Seq::empty()
    } else if parts.len() == 1 {
        parts[0]
    } else {
        join(parts.drop_last(), sep) + sep + parts.last()
    }
}

pub fn joined(parts: &Vec<String>, sep: &str) -> (r: String)
    ensures
        r@ == join(texts(parts@), sep@),
{
    let mut r = String::new();
    let mut i: usize = 0;
    while i < parts.len()
        invariant
            0 <= i <= parts@.len(),
            r@ == join(texts(parts@).take(i as int), sep@),
        decreases parts@.len() - i,
    {
        let ghost done = texts(parts@).take(i + 1);
        assert(done.drop_last() == texts(parts@).take(i as int));
        if i > 0 {
            r.append(sep);
        }
        r.append(parts[i].as_str());
        i += 1;
    }
    assert(texts(parts@).take(i as int) == texts(parts@));
    r
}

/// The parts of `s` between the separators, where `part` stands already read in
/// front of it.
pub open spec fn split_from(part: Seq<char>, s: Seq<char>, sep: char) -> Seq<Seq<char>>
    decreases s.len(),
{
    if s.len() == 0 {
        seq![part]
    } else if s[0] == sep {
        seq![part] + split_from(Seq::empty(), s.drop_first(), sep)
    } else {
        split_from(part.push(s[0]), s.drop_first(), sep)
    }
}

/// The parts of a text between the separators.
pub open spec fn split(s: Seq<char>, sep: char) -> Seq<Seq<char>> {
    split_from(Seq::empty(), s, sep)
}

pub fn split_at_char(s: &str, sep: char) -> (r: Vec<String>)
    ensures
        texts(r@) == split(s@, sep),
        r@.len() > 0,
{
    let v = chars_of(s);
    let mut r: Vec<String> = Vec::new();
    let mut part = String::new();
    let mut i: usize = 0;
    assert(s@.skip(0) == s@);
    assert(texts(r@) + split_from(part@, s@.skip(0), sep) == split(s@, sep));
    while i < v.len()
        invariant
            0 <= i <= v@.len(),
            v@ == s@,
            texts(r@) + split_from(part@, s@.skip(i as int), sep) == split(s@, sep),
        decreases v@.len() - i,
    {
        let c = v[i];
        let ghost rest = s@.skip(i as int);
        assert(rest[0] == c);
        assert(rest.drop_first() == s@.skip(i + 1));
        if c == sep {
            let ghost before = texts(r@);
            let ghost tail = split_from(Seq::empty(), s@.skip(i + 1), sep);
            let ghost done = part@;
            r.push(part);
            part = String::new();
            assert(texts(r@) == before.push(done));
            assert(before.push(done) + tail == before + (seq![done] + tail));
            assert(part@ == Seq::<char>::empty());
        } else {
            part.push(c);
        }
        i += 1;
    }
    assert(s@.skip(i as int).len() == 0);
    let ghost before = texts(r@);
    let ghost done = part@;
    r.push(part);
    assert(texts(r@) == before.push(done));
    assert(before.push(done) == before + seq![done]);
    r
}

/// The digit for a value below ten.
pub open spec fn digit(d: nat) -> char {
    ((d + 48) as u32) as char
}

/// The decimal digits of a number, without leading zeros.
pub open spec fn decimal(n: nat) -> Seq<char>
    decreases n,
{
    if n < 10 {
        seq![digit(n)]
    } else {
        decimal(n / 10).push(digit(n % 10))
    }
}

fn push_decimal(out: &mut String, n: u64)
    ensures
        final(out)@ == old(out)@ + decimal(n as nat),
    decreases n,
{
    if n >= 10 {
        push_decimal(out, n / 10);
    }
    let code: u8 = (n % 10) as u8 + 48;
    out.push(code as char);
}

/// A number in decimal digits.
pub fn decimal_of(n: u64) -> (r: String)
    ensures
        r@ == decimal(n as nat),
{
    let mut r = String::new();
    push_decimal(&mut r, n);
    r
}

/// The number that decimal digits stand for.
pub open spec fn digits_value(s: Seq<char>) -> nat
    decreases s.len(),
{
    if s.len() == 0 {
        0
    } else {
        digits_value(s.drop_last()) * 10 + (s.last() as nat - 48) as nat
    }
}

/// Whether every character is a decimal digit.
pub open spec fn all_digits(s: Seq<char>) -> bool {
    forall|i: int| 0 <= i < s.len() ==> is_digit(#[trigger] s[i])
}

/// The unsigned number that a text spells: decimal digits, with at most one plus
/// sign in front, and no more than 64 bits.
pub open spec fn spelled_u64(s: Seq<char>) -> Option<u64> {
    let d = if s.len() > 0 && s[0] == '+' {
        s.drop_first()
    } else {
        s
    };
    if d.len() > 0 && all_digits(d) && digits_value(d) <= u64::MAX {
        Some(digits_value(d) as u64)
    } else {
        None
    }
}

proof fn lemma_digits_grow(s: Seq<char>, i: int)
    requires
        0 <= i <= s.len(),
    ensures
        digits_value(s.take(i)) <= digits_value(s),
    decreases s.len() - i,
{
    if i < s.len() {
        lemma_digits_grow(s, i + 1);
        assert(s.take(i + 1).drop_last() == s.take(i));
    } else {
        assert(s.take(i) == s);
    }
}

pub fn parse_u64(s: &str) -> (r: Option<u64>)
    ensures
        r == spelled_u64(s@),
{
    let v = chars_of(s);
    let from: usize = if v.len() > 0 && v[0] == '+' {
        1
    } else {
        0
    };
    let ghost d = s@.skip(from as int);
    assert(from == 1 ==> d == s@.drop_first());
    assert(from == 0 ==> d == s@);
    if from == v.len() {
        return None;
    }
    let mut value: u64 = 0;
    let mut i: usize = from;
    while i < v.len()
        invariant
            from <= i <= v@.len(),
            v@ == s@,
            d == s@.skip(from as int),
            value == digits_value(d.take(i - from)),
            forall|k: int| 0 <= k < i - from ==> is_digit(#[trigger] d[k]),
            spelled_u64(s@) == (if d.len() > 0 && all_digits(d) && digits_value(d) <= u64::MAX {
                Some(digits_value(d) as u64)
            } else {
                None
            }),
        decreases v@.len() - i,
    {
        let c = v[i];
        assert(d[i - from] == c);
        if !is_digit(c) {
            return None;
        }
        let add: u64 = (c as u32 - 48) as u64;
        proof {
            assert(d.take(i - from + 1).drop_last() == d.take(i - from));
            lemma_digits_grow(d, i - from + 1);
        }
        if value > (u64::MAX - add) / 10 {
            return None;
        }
        value = value * 10 + add;
        i += 1;
    }
    assert(d.take(i - from) == d);
    Some(value)
}

/// A number reads back as it was written.
pub proof fn decimal_reads_back(n: u64)
    ensures
        spelled_u64(decimal(n as nat)) == Some(n),
{
    lemma_decimal(n as nat);
    let s = decimal(n as nat);
    assert(is_digit(s[0]));
}

pub proof fn lemma_decimal(n: nat)
    ensures
        decimal(n).len() > 0,
        all_digits(decimal(n)),
        digits_value(decimal(n)) == n,
    decreases n,
{
    reveal_with_fuel(digits_value, 2);
    assert(digit(n % 10) as nat == n % 10 + 48);
    if n >= 10 {
        lemma_decimal(n / 10);
        assert(decimal(n).drop_last() == decimal(n / 10));
    } else {
        assert(decimal(n).drop_last().len() == 0);
    }
}

/// The upper-case mapping of a character.
pub uninterp spec fn uppercase(c: char) -> Seq<char>;

/// `char::to_uppercase` of std, its characters in order: the mapping of one character
/// depends on that character alone.
#[verifier::external_body]
pub(crate) fn to_uppercase(c: char) -> (r: String)
    ensures
        r@ == uppercase(c),
{
    c.to_uppercase().to_string()
}

/// The lower-case mapping of a text.
pub uninterp spec fn lowercase(s: Seq<char>) -> Seq<char>;

/// `str::to_lowercase` of std: the mapping of a text depends on its characters alone.
#[verifier::external_body]
pub(crate) fn to_lowercase(s: &str) -> (r: String)
    ensures
        r@ == lowercase(s@),
{
    s.to_lowercase()
}

/// Whether `a` stands before `b` in the dictionary order of their characters.
pub open spec fn less(a: Seq<char>, b: Seq<char>) -> bool
    decreases a.len(),
{
    if b.len() == 0 {
        false
    } else if a.len() == 0 {
        true
    } else if a[0] != b[0] {
        a[0] < b[0]
    } else {
        less(a.drop_first(), b.drop_first())
    }
}

/// The dictionary order puts any two different texts one way round.
pub proof fn lemma_less_total(a: Seq<char>, b: Seq<char>)
    ensures
        less(a, b) || less(b, a) || a == b,
        !(less(a, b) && less(b, a)),
        a == b ==> !less(a, b),
    decreases a.len(),
{
    if a.len() > 0 && b.len() > 0 && a[0] == b[0] {
        lemma_less_total(a.drop_first(), b.drop_first());
        if a.drop_first() == b.drop_first() {
            assert(a =~= seq![a[0]] + a.drop_first());
            assert(b =~= seq![b[0]] + b.drop_first());
        }
    } else if a.len() == 0 && b.len() == 0 {
        assert(a =~= b);
    }
}

/// The dictionary order is transitive.
pub proof fn lemma_less_transitive(a: Seq<char>, b: Seq<char>, c: Seq<char>)
    requires
        less(a, b),
        less(b, c),
    ensures
        less(a, c),
    decreases a.len(),
{
    if a.len() > 0 && b.len() > 0 && c.len() > 0 && a[0] == b[0] && b[0] == c[0] {
        lemma_less_transitive(a.drop_first(), b.drop_first(), c.drop_first());
    }
}

/// Whether `a` stands before `b` in the dictionary order of their characters.
pub fn comes_first(a: &str, b: &str) -> (r: bool)
    ensures
        r == less(a@, b@),
{
    let x = chars_of(a);
    let y = chars_of(b);
    let mut i: usize = 0;
    assert(a@.skip(0) == a@);
    assert(b@.skip(0) == b@);
    while i < x.len() && i < y.len()
        invariant
            i <= x@.len(),
            i <= y@.len(),
            x@ == a@,
            y@ == b@,
            less(a@, b@) == less(a@.skip(i as int), b@.skip(i as int)),
        decreases x@.len() - i,
    {
        assert(a@.skip(i as int)[0] == x@[i as int]);
        assert(b@.skip(i as int)[0] == y@[i as int]);
        if x[i] != y[i] {
            return x[i] < y[i];
        }
        assert(a@.skip(i as int).drop_first() == a@.skip(i + 1));
        assert(b@.skip(i as int).drop_first() == b@.skip(i + 1));
        i += 1;
    }
    i < y.len()
}

/// The text on one line: its words with one space between them.
pub open spec fn collapse(s: Seq<char>) -> Seq<char> {
    join(words(s), " "@)
}

/// The text on one line.
pub fn collapsed(s: &str) -> (r: String)
    ensures
        r@ == collapse(s@),
{
    joined(&words_of(s), " ")
}

/// The last character before a line feed is no part of the line if it is a carriage return.
pub open spec fn without_return(line: Seq<char>) -> Seq<char> {
    if line.len() > 0 && line.last() == '\r' {
        line.drop_last()
    } else {
        line
    }
}

/// The lines of a text, without their ends. What stands behind the last line feed is a
/// line of its own where it is not empty.
pub open spec fn lines(s: Seq<char>) -> Seq<Seq<char>> {
    let parts = split(s, '\n');
    let ended = parts.drop_last().map_values(|line: Seq<char>| without_return(line));
    if parts.last().len() > 0 {
        ended.push(parts.last())
    } else {
        ended
    }
}

pub fn lines_of(s: &str) -> (r: Vec<String>)
    ensures
        texts(r@) == lines(s@),
{
    let mut parts = split_at_char(s, '\n');
    let ghost all = split(s@, '\n');
    let n: usize = parts.len();
    let mut r: Vec<String> = Vec::new();
    let mut i: usize = 0;
    while i < n - 1
        invariant
            0 <= i <= n - 1,
            n == parts@.len(),
            r@.len() == i,
            texts(parts@) == all,
            forall|k: int| 0 <= k < i ==> (#[trigger] r@[k])@ == without_return(all[k]),
        decreases n - i,
    {
        assert(all[i as int] == parts@[i as int]@);
        let v = chars_of(parts[i].as_str());
        if v.len() > 0 && v[v.len() - 1] == '\r' {
            r.push(string_of(&v, 0, v.len() - 1));
            assert(r@[i as int]@ =~= all[i as int].drop_last());
        } else {
            r.push(string_of(&v, 0, v.len()));
            assert(r@[i as int]@ =~= all[i as int]);
        }
        i += 1;
    }
    let ghost ended = all.drop_last().map_values(|line: Seq<char>| without_return(line));
    assert(texts(r@) =~= ended);
    assert(all.last() == parts@.last()@);
    match parts.pop() {
        Some(last) => {
            let ghost added = last@;
            if !last.as_str().is_empty() {
                r.push(last);
                assert(texts(r@) =~= ended.push(added));
            }
        },
        None => {},
    }
    r
}

/// Whether a text is among the texts.
pub fn among(v: &Vec<String>, s: &str) -> (r: bool)
    ensures
        r == texts(v@).contains(s@),
{
    let ghost all = texts(v@);
    let mut i: usize = 0;
    while i < v.len()
        invariant
            0 <= i <= v@.len(),
            all == texts(v@),
            forall|k: int| 0 <= k < i ==> all[k] != s@,
        decreases v@.len() - i,
    {
        assert(all[i as int] == v@[i as int]@);
        if same(v[i].as_str(), s) {
            return true;
        }
        i += 1;
    }
    false
}

/// A text stands in another where every character of it does, one behind the other.
pub proof fn standing_in_is_character_by_character(s: Seq<char>, p: Seq<char>, i: int)
    ensures
        at(s, p, i) <==> 0 <= i && i + p.len() <= s.len() && forall|k: int|
            0 <= k < p.len() ==> #[trigger] p[k] == s[i + k],
        starts(s, p) <==> p.len() <= s.len() && s.take(p.len() as int) == p,
        ends(s, p) <==> p.len() <= s.len() && s.skip(s.len() - p.len()) == p,
        holds(s, p) <==> exists|k: int|
            0 <= k && k + p.len() <= s.len() && #[trigger] s.subrange(k, k + p.len()) == p,
{
    if 0 <= i && i + p.len() <= s.len() {
        let part = s.subrange(i, i + p.len());
        if part == p {
            assert forall|k: int| 0 <= k < p.len() implies #[trigger] p[k] == s[i + k] by {
                assert(part[k] == s[i + k]);
            }
        }
        if forall|k: int| 0 <= k < p.len() ==> #[trigger] p[k] == s[i + k] {
            assert(part =~= p);
        }
    }
    if p.len() <= s.len() {
        assert(s.subrange(0, p.len() as int) =~= s.take(p.len() as int));
        assert(s.subrange(s.len() - p.len(), s.len() as int) =~= s.skip(s.len() - p.len()));
    }
    if holds(s, p) {
        let k = choose|k: int| at(s, p, k);
        assert(s.subrange(k, k + p.len()) == p);
    }
    if exists|k: int|
        0 <= k && k + p.len() <= s.len() && #[trigger] s.subrange(k, k + p.len()) == p {
        let k = choose|k: int|
            0 <= k && k + p.len() <= s.len() && #[trigger] s.subrange(k, k + p.len()) == p;
        assert(at(s, p, k));
    }
}

/// A character is found at its first place from a position on, or at its last below one.
pub proof fn characters_are_found_at_either_end(s: Seq<char>, c: char, i: int)
    requires
        0 <= i <= s.len(),
    ensures
        match char_from(s, c, i) {
            Some(k) => i <= k < s.len() && s[k] == c && forall|m: int|
                i <= m < k ==> #[trigger] s[m] != c,
            None => forall|m: int| i <= m < s.len() ==> #[trigger] s[m] != c,
        },
        match char_below(s, c, i) {
            Some(k) => 0 <= k < i && s[k] == c && forall|m: int| k < m < i ==> #[trigger] s[m] != c,
            None => forall|m: int| 0 <= m < i ==> #[trigger] s[m] != c,
        },
{
    lemma_char_from(s, c, i);
    lemma_char_below(s, c, i);
}

proof fn lemma_char_from(s: Seq<char>, c: char, i: int)
    requires
        0 <= i <= s.len(),
    ensures
        match char_from(s, c, i) {
            Some(k) => i <= k < s.len() && s[k] == c && forall|m: int|
                i <= m < k ==> #[trigger] s[m] != c,
            None => forall|m: int| i <= m < s.len() ==> #[trigger] s[m] != c,
        },
    decreases s.len() - i,
{
    if i < s.len() && s[i] != c {
        lemma_char_from(s, c, i + 1);
    }
}

proof fn lemma_char_below(s: Seq<char>, c: char, i: int)
    requires
        0 <= i <= s.len(),
    ensures
        match char_below(s, c, i) {
            Some(k) => 0 <= k < i && s[k] == c && forall|m: int| k < m < i ==> #[trigger] s[m] != c,
            None => forall|m: int| 0 <= m < i ==> #[trigger] s[m] != c,
        },
    decreases i,
{
    if i > 0 && s[i - 1] != c {
        lemma_char_below(s, c, i - 1);
    }
}

/// Small letters are what is left of capital ones; nothing else changes, and what is in small
/// letters stays.
pub proof fn lowering_leaves_no_capitals(s: Seq<char>)
    ensures
        lower_all(s).len() == s.len(),
        lower_all(lower_all(s)) == lower_all(s),
        forall|k: int|
            0 <= k < s.len() ==> {
                let c = #[trigger] lower_all(s)[k];
                &&& !('A' <= c && c <= 'Z')
                &&& 'A' <= s[k] && s[k] <= 'Z' ==> c as u32 == s[k] as u32 + 32
                &&& !('A' <= s[k] && s[k] <= 'Z') ==> c == s[k]
            },
{
    assert(lower_all(lower_all(s)) =~= lower_all(s));
}

/// The parts of a text put together again, with the separator between them, are the text;
/// none of them holds the separator.
pub proof fn parts_make_up_the_text(s: Seq<char>, sep: char)
    ensures
        split(s, sep).len() > 0,
        join(split(s, sep), seq![sep]) == s,
        forall|k: int| 0 <= k < split(s, sep).len() ==> !(#[trigger] split(s, sep)[k]).contains(sep),
{
    lemma_split(Seq::empty(), s, sep);
    assert(Seq::<char>::empty() + s =~= s);
}

proof fn lemma_split(part: Seq<char>, s: Seq<char>, sep: char)
    requires
        !part.contains(sep),
    ensures
        split_from(part, s, sep).len() > 0,
        join(split_from(part, s, sep), seq![sep]) == part + s,
        forall|k: int|
            0 <= k < split_from(part, s, sep).len() ==> !(#[trigger] split_from(
                part,
                s,
                sep,
            )[k]).contains(sep),
    decreases s.len(),
{
    let parts = split_from(part, s, sep);
    if s.len() == 0 {
        assert(part + s =~= part);
    } else if s[0] == sep {
        let rest = s.drop_first();
        lemma_split(Seq::empty(), rest, sep);
        let tail = split_from(Seq::empty(), rest, sep);
        lemma_join_first(part, tail, seq![sep]);
        assert(Seq::<char>::empty() + rest =~= rest);
        assert(part + seq![sep] + rest =~= part + s);
        assert forall|k: int| 0 <= k < parts.len() implies !(#[trigger] parts[k]).contains(
            sep,
        ) by {
            if k > 0 {
                assert(parts[k] == tail[k - 1]);
            }
        }
    } else {
        let more = part.push(s[0]);
        assert forall|c: char| more.contains(c) implies c != sep by {
            let k = more.index_of(c);
            if k < part.len() {
                assert(part[k] == c);
                assert(part.contains(c));
            }
        }
        lemma_split(more, s.drop_first(), sep);
        assert(more + s.drop_first() =~= part + s);
    }
}

proof fn lemma_join_first(first: Seq<char>, rest: Seq<Seq<char>>, sep: Seq<char>)
    requires
        rest.len() > 0,
    ensures
        join(seq![first] + rest, sep) == first + sep + join(rest, sep),
    decreases rest.len(),
{
    let all = seq![first] + rest;
    assert(all.last() == rest.last());
    if rest.len() == 1 {
        assert(all.drop_last() =~= seq![first]);
        reveal_with_fuel(join, 2);
    } else {
        assert(all.drop_last() =~= seq![first] + rest.drop_last());
        lemma_join_first(first, rest.drop_last(), sep);
        assert(first + sep + join(rest.drop_last(), sep) + sep + rest.last() =~= first + sep + (
        join(rest.drop_last(), sep) + sep + rest.last()));
    }
}

/// The words of a text are all that it holds but white space, in its order; no word is empty
/// or holds any.
pub proof fn words_are_all_but_white_space(s: Seq<char>)
    ensures
        join(words(s), Seq::empty()) == s.filter(|c: char| !is_white(c)),
        forall|k: int|
            0 <= k < words(s).len() ==> (#[trigger] words(s)[k]).len() > 0 && forall|m: int|
                0 <= m < words(s)[k].len() ==> !is_white(#[trigger] words(s)[k][m]),
{
    lemma_words(Seq::empty(), s);
    assert(Seq::<char>::empty() + s.filter(|c: char| !is_white(c)) =~= s.filter(
        |c: char| !is_white(c),
    ));
}

proof fn lemma_words(word: Seq<char>, s: Seq<char>)
    requires
        forall|m: int| 0 <= m < word.len() ==> !is_white(#[trigger] word[m]),
    ensures
        join(words_from(word, s), Seq::empty()) == word + s.filter(|c: char| !is_white(c)),
        forall|k: int|
            0 <= k < words_from(word, s).len() ==> (#[trigger] words_from(word, s)[k]).len() > 0
                && forall|m: int|
                0 <= m < words_from(word, s)[k].len() ==> !is_white(
                    #[trigger] words_from(word, s)[k][m],
                ),
    decreases s.len(),
{
    let keep = |c: char| !is_white(c);
    let all = words_from(word, s);
    if s.len() == 0 {
        reveal(Seq::filter);
        assert(word + s.filter(keep) =~= word);
        assert(join(all, Seq::empty()) =~= word);
    } else {
        lemma_filter_first(s, keep);
        let rest = s.drop_first();
        if is_white(s[0]) {
            lemma_words(Seq::empty(), rest);
            let tail = words_from(Seq::empty(), rest);
            assert(Seq::<char>::empty() + rest.filter(keep) =~= rest.filter(keep));
            if word.len() > 0 {
                if tail.len() > 0 {
                    lemma_join_first(word, tail, Seq::empty());
                    assert(word + Seq::<char>::empty() + join(tail, Seq::empty()) =~= word
                        + rest.filter(keep));
                } else {
                    assert(all =~= seq![word]);
                    assert(word + rest.filter(keep) =~= word);
                }
                assert forall|k: int| 0 <= k < all.len() implies (#[trigger] all[k]).len() > 0
                    && forall|m: int| 0 <= m < all[k].len() ==> !is_white(#[trigger] all[k][m]) by {
                    if k > 0 {
                        assert(all[k] == tail[k - 1]);
                    }
                }
            } else {
                assert(all =~= tail);
                assert(word + s.filter(keep) =~= rest.filter(keep));
            }
        } else {
            let more = word.push(s[0]);
            lemma_words(more, rest);
            assert(more + rest.filter(keep) =~= word + s.filter(keep));
        }
    }
}

proof fn lemma_filter_first(s: Seq<char>, keep: spec_fn(char) -> bool)
    requires
        s.len() > 0,
    ensures
        s.filter(keep) == (if keep(s[0]) {
            seq![s[0]] + s.drop_first().filter(keep)
        } else {
            s.drop_first().filter(keep)
        }),
    decreases s.len(),
{
    reveal(Seq::filter);
    if s.len() == 1 {
        assert(s.drop_last() =~= Seq::empty());
        assert(s.drop_last().filter(keep).len() == 0);
        assert(s.drop_first().filter(keep).len() == 0);
        assert(s.drop_first() =~= Seq::empty());
        assert(s.filter(keep) =~= if keep(s[0]) {
            seq![s[0]]
        } else {
            Seq::empty()
        });
    } else {
        lemma_filter_first(s.drop_last(), keep);
        assert(s.drop_last().drop_first() =~= s.drop_first().drop_last());
        assert(s.drop_first().last() == s.last());
        assert(s.filter(keep) =~= if keep(s[0]) {
            seq![s[0]] + s.drop_first().filter(keep)
        } else {
            s.drop_first().filter(keep)
        });
    }
}

/// No line of a text holds a line feed.
pub proof fn lines_are_single(s: Seq<char>, k: int)
    requires
        0 <= k < lines(s).len(),
    ensures
        !lines(s)[k].contains('\n'),
{
    parts_make_up_the_text(s, '\n');
    let parts = split(s, '\n');
    if k < parts.len() - 1 {
        assert(lines(s)[k] == without_return(parts[k]));
        if lines(s)[k].contains('\n') {
            let m = lines(s)[k].index_of('\n');
            assert(parts[k][m] == '\n');
            assert(parts[k].contains('\n'));
        }
    } else {
        assert(lines(s)[k] == parts.last());
        assert(!parts[parts.len() - 1].contains('\n'));
    }
}

} // verus!
