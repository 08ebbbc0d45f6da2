//! Text as sequences of characters: conversions between `String` and
//! `Vec<char>`, searching, replacing, trimming and ordering.

use vstd::prelude::*;

verus! {

/// `String::push` appends the given character to the end of the string.
pub assume_specification[ String::push ](s: &mut String, ch: char)
    ensures
        final(s)@ == old(s)@.push(ch),
;

/// `String::pop` removes the last character and returns it, or returns `None`
/// where the string is empty.
pub assume_specification[ String::pop ](s: &mut String) -> (last: Option<char>)
    ensures
        match last {
            Some(c) => old(s)@.len() > 0 && c == old(s)@.last() && final(s)@ == old(s)@.drop_last(),
            None => old(s)@.len() == 0 && final(s)@ == old(s)@,
        },
;

/// `String::clear` removes all contents of the string.
pub assume_specification[ String::clear ](s: &mut String)
    ensures
        final(s)@ == Seq::<char>::empty(),
;

/// The characters of `s`, in order.
pub fn chars_of(s: &str) -> (v: Vec<char>)
    ensures
        v@ == s@,
{
    let mut v: Vec<char> = Vec::new();
    for c in it: s.chars()
        invariant
            v@ == it.seq().take(it.index() as int),
            it.seq() == s@,
    {
        v.push(c);
    }
    v
}

/// The string made of the characters of `v`, in order.
pub fn string_of(v: &Vec<char>) -> (s: String)
    ensures
        s@ == v@,
{
    let mut s = String::new();
    let mut i: usize = 0;
    while i < v.len()
        invariant
            i <= v.len(),
            s@ == v@.take(i as int),
        decreases v.len() - i,
    {
        s.push(v[i]);
        i += 1;
    }
    s
}

/// The characters of `v` in the positions `from..to`.
pub fn slice(v: &Vec<char>, from: usize, to: usize) -> (out: Vec<char>)
    requires
        from <= to <= v.len(),
    ensures
        out@ == v@.subrange(from as int, to as int),
{
    let mut out: Vec<char> = Vec::new();
    let mut i: usize = from;
    while i < to
        invariant
            from <= i <= to <= v.len(),
            out@ == v@.subrange(from as int, i as int),
        decreases to - i,
    {
        out.push(v[i]);
        i += 1;
    }
    out
}

/// Whether `needle` stands in `hay` starting at position `at`.
pub open spec fn occurs_at(hay: Seq<char>, needle: Seq<char>, at: int) -> bool {
    &&& 0 <= at
    &&& at + needle.len() <= hay.len()
    &&& hay.subrange(at, at + needle.len()) == needle
}

/// Whether `needle` stands somewhere in `hay`. The empty sequence stands in
/// every sequence.
pub open spec fn is_substring(hay: Seq<char>, needle: Seq<char>) -> bool {
    exists|at: int| occurs_at(hay, needle, at)
}

/// Whether `needle` stands in `hay` nowhere in the positions `from..to`.
pub open spec fn absent_between(hay: Seq<char>, needle: Seq<char>, from: int, to: int) -> bool {
    forall|at: int| from <= at < to ==> !occurs_at(hay, needle, at)
}

/// The first position where `needle` stands in `hay`, if it stands anywhere.
pub open spec fn first_occurrence(hay: Seq<char>, needle: Seq<char>) -> Option<int> {
    if is_substring(hay, needle) {
        Some(
            choose|at: int|
                occurs_at(hay, needle, at) && absent_between(hay, needle, 0, at),
        )
    } else {
        None
    }
}

/// A position where `needle` stands, with none before it, is the first
/// occurrence.
pub proof fn lemma_first_occurrence(hay: Seq<char>, needle: Seq<char>, at: int)
    requires
        occurs_at(hay, needle, at),
        absent_between(hay, needle, 0, at),
    ensures
        first_occurrence(hay, needle) == Some(at),
{
}

/// Tests whether `needle` stands in `hay` at position `at`.
pub fn matches_at(hay: &Vec<char>, needle: &Vec<char>, at: usize) -> (found: bool)
    ensures
        found == occurs_at(hay@, needle@, at as int),
{
    if needle.len() > hay.len() || at > hay.len() - needle.len() {
        return false;
    }
    let mut k: usize = 0;
    while k < needle.len()
        invariant
            k <= needle.len(),
            at + needle.len() <= hay.len(),
            forall|j: int| 0 <= j < k ==> hay@[at + j] == needle@[j],
        decreases needle.len() - k,
    {
        if hay[at + k] != needle[k] {
            return false;
        }
        k += 1;
    }
    assert(hay@.subrange(at as int, at + needle.len()) =~= needle@);
    true
}

/// The first position at or after `from` where `needle` stands in `hay`.
pub fn find_from(hay: &Vec<char>, needle: &Vec<char>, from: usize) -> (found: Option<usize>)
    ensures
        match found {
            Some(at) => from <= at && occurs_at(hay@, needle@, at as int) && absent_between(
                hay@,
                needle@,
                from as int,
                at as int,
            ),
            None => forall|at: int| from <= at ==> !occurs_at(hay@, needle@, at),
        },
{
    if needle.len() > hay.len() {
        return None;
    }
    let last: usize = hay.len() - needle.len();
    let mut at: usize = from;
    while at <= last
        invariant
            from <= at,
            last == hay.len() - needle.len(),
            absent_between(hay@, needle@, from as int, at as int),
        decreases last + 1 - at,
    {
        if matches_at(hay, needle, at) {
            return Some(at);
        }
        if at == last {
            return None;
        }
        at += 1;
    }
    None
}

/// The first position where `needle` stands in `hay`.
pub fn find(hay: &Vec<char>, needle: &Vec<char>) -> (found: Option<usize>)
    ensures
        match found {
            Some(at) => first_occurrence(hay@, needle@) == Some(at as int) && occurs_at(
                hay@,
                needle@,
                at as int,
            ),
            None => first_occurrence(hay@, needle@) is None,
        },
{
    let found = find_from(hay, needle, 0);
    proof {
        match found {
            Some(at) => lemma_first_occurrence(hay@, needle@, at as int),
            None => {},
        }
    }
    found
}

/// Tests whether `needle` stands somewhere in `hay`.
pub fn contains(hay: &str, needle: &str) -> (found: bool)
    ensures
        found == is_substring(hay@, needle@),
{
    let h = chars_of(hay);
    let n = chars_of(needle);
    match find_from(&h, &n, 0) {
        Some(at) => true,
        None => false,
    }
}

/// `s` with every occurrence of `from` replaced by `to`. Occurrences are taken
/// from the left and do not overlap; the empty pattern occurs nowhere.
pub open spec fn replaced(s: Seq<char>, from: Seq<char>, to: Seq<char>) -> Seq<char>
    decreases s.len(),
{
    if from.len() == 0 || s.len() < from.len() {
        s
    } else if s.subrange(0, from.len() as int) == from {
        to + replaced(s.skip(from.len() as int), from, to)
    } else {
        seq![s[0]] + replaced(s.skip(1), from, to)
    }
}

/// Replaces every occurrence of `from` in `s` by `to`.
pub fn replace_all(s: &Vec<char>, from: &Vec<char>, to: &Vec<char>) -> (out: Vec<char>)
    ensures
        out@ == replaced(s@, from@, to@),
{
    let mut out: Vec<char> = Vec::new();
    let mut i: usize = 0;
    assert(s@.skip(0) =~= s@);
    if from.len() > 0 {
        while from.len() <= s.len() - i
            invariant
                i <= s.len(),
                from.len() > 0,
                out@ + replaced(s@.skip(i as int), from@, to@) == replaced(s@, from@, to@),
            decreases s.len() - i,
        {
            let ghost rest = s@.skip(i as int);
            let ghost before = out@;
            assert(rest.subrange(0, from.len() as int) =~= s@.subrange(
                i as int,
                i + from.len(),
            ));
            if matches_at(s, from, i) {
                let mut k: usize = 0;
                while k < to.len()
                    invariant
                        k <= to.len(),
                        out@ == before + to@.take(k as int),
                    decreases to.len() - k,
                {
                    out.push(to[k]);
                    k += 1;
                }
                assert(rest.skip(from.len() as int) =~= s@.skip(i + from.len()));
                i += from.len();
            } else {
                out.push(s[i]);
                assert(rest.skip(1) =~= s@.skip(i + 1));
                i += 1;
            }
        }
    }
    let ghost tail = replaced(s@.skip(i as int), from@, to@);
    let ghost before = out@;
    while i < s.len()
        invariant
            i <= s.len(),
            out@ + s@.skip(i as int) == before + tail,
        decreases s.len() - i,
    {
        out.push(s[i]);
        i += 1;
    }
    out
}

/// `s` with every run of spaces reduced to a single space.
pub open spec fn collapsed(s: Seq<char>) -> Seq<char>
    decreases s.len(),
{
    if s.len() < 2 {
        s
    } else if s[0] == ' ' && s[1] == ' ' {
        collapsed(s.skip(1))
    } else {
        seq![s[0]] + collapsed(s.skip(1))
    }
}

/// Reduces every run of spaces in `s` to a single space.
pub fn collapse_spaces(s: &Vec<char>) -> (out: Vec<char>)
    ensures
        out@ == collapsed(s@),
{
    let mut out: Vec<char> = Vec::new();
    let mut i: usize = 0;
    assert(s@.skip(0) =~= s@);
    while i < s.len()
        invariant
            i <= s.len(),
            out@ + collapsed(s@.skip(i as int)) == collapsed(s@),
        decreases s.len() - i,
    {
        assert(s@.skip(i as int).skip(1) =~= s@.skip(i + 1));
        if i + 1 < s.len() {
            if !(s[i] == ' ' && s[i + 1] == ' ') {
                out.push(s[i]);
            }
        } else {
            out.push(s[i]);
        }
        i += 1;
    }
    out
}

/// Whether `c` is white space as Unicode defines it (`White_Space`).
pub open spec fn is_whitespace(c: char) -> bool {
    let n = c as u32;
    ||| 0x09 <= n <= 0x0D
    ||| n == 0x20
    ||| n == 0x85
    ||| n == 0xA0
    ||| n == 0x1680
    ||| 0x2000 <= n <= 0x200A
    ||| n == 0x2028
    ||| n == 0x2029
    ||| n == 0x202F
    ||| n == 0x205F
    ||| n == 0x3000
}

/// Tests whether `c` is a white-space character.
pub fn whitespace(c: char) -> (yes: bool)
    ensures
        yes == is_whitespace(c),
{
    let n: u32 = c as u32;
    (0x09 <= n && n <= 0x0D) || n == 0x20 || n == 0x85 || n == 0xA0 || n == 0x1680 || (0x2000 <= n
        && n <= 0x200A) || n == 0x2028 || n == 0x2029 || n == 0x202F || n == 0x205F || n == 0x3000
}

/// `s` without its leading white space.
pub open spec fn trimmed_start(s: Seq<char>) -> Seq<char>
    decreases s.len(),
{
    if s.len() > 0 && is_whitespace(s[0]) {
        trimmed_start(s.skip(1))
    } else {
        s
    }
}

/// `s` without its trailing white space.
pub open spec fn trimmed_end(s: Seq<char>) -> Seq<char>
    decreases s.len(),
{
    if s.len() > 0 && is_whitespace(s.last()) {
        trimmed_end(s.drop_last())
    } else {
        s
    }
}

/// `s` without its leading and trailing white space.
pub open spec fn trimmed(s: Seq<char>) -> Seq<char> {
    trimmed_end(trimmed_start(s))
}

/// Dropping a leading run of white space that is followed by the end or by
/// another character is what `trimmed_start` does.
pub proof fn lemma_trimmed_start(s: Seq<char>, n: int)
    requires
        0 <= n <= s.len(),
        forall|j: int| 0 <= j < n ==> is_whitespace(#[trigger] s[j]),
        n < s.len() ==> !is_whitespace(s[n]),
    ensures
        trimmed_start(s) == s.skip(n),
    decreases n,
{
    if n > 0 {
        lemma_trimmed_start(s.skip(1), n - 1);
    }
}

/// Dropping a trailing run of white space that is preceded by the start or by
/// another character is what `trimmed_end` does.
pub proof fn lemma_trimmed_end(s: Seq<char>, n: int)
    requires
        0 <= n <= s.len(),
        forall|j: int| n <= j < s.len() ==> is_whitespace(#[trigger] s[j]),
        0 < n ==> !is_whitespace(s[n - 1]),
    ensures
        trimmed_end(s) == s.take(n),
    decreases s.len() - n,
{
    if n < s.len() {
        lemma_trimmed_end(s.drop_last(), n);
    }
}

/// Removes leading and trailing white space.
pub fn trim(s: &Vec<char>) -> (out: Vec<char>)
    ensures
        out@ == trimmed(s@),
{
    let mut start: usize = 0;
    while start < s.len() && whitespace(s[start])
        invariant
            start <= s.len(),
            forall|j: int| 0 <= j < start ==> is_whitespace(#[trigger] s@[j]),
        decreases s.len() - start,
    {
        start += 1;
    }
    let mut end: usize = s.len();
    while end > start && whitespace(s[end - 1])
        invariant
            start <= end <= s.len(),
            forall|j: int| end <= j < s.len() ==> is_whitespace(#[trigger] s@[j]),
        decreases end,
    {
        end -= 1;
    }
    let out = slice(s, start, end);
    proof {
        let rest = s@.skip(start as int);
        lemma_trimmed_start(s@, start as int);
        lemma_trimmed_end(rest, end - start);
    }
    out
}

/// The strict lexicographic order of texts, characters taken by code point.
/// This is the order of `str` and `String`.
pub open spec fn precedes(a: Seq<char>, b: Seq<char>) -> bool
    decreases a.len(),
{
    if b.len() == 0 {
        false
    } else if a.len() == 0 {
        true
    } else if a[0] != b[0] {
        (a[0] as u32) < (b[0] as u32)
    } else {
        precedes(a.skip(1), b.skip(1))
    }
}

/// No text precedes itself.
pub proof fn lemma_precedes_irreflexive(a: Seq<char>)
    ensures
        !precedes(a, a),
    decreases a.len(),
{
    if a.len() > 0 {
        lemma_precedes_irreflexive(a.skip(1));
    }
}

/// If the first of three texts precedes the second and the second the third,
/// the first precedes the third.
pub proof fn lemma_precedes_transitive(a: Seq<char>, b: Seq<char>, c: Seq<char>)
    requires
        precedes(a, b),
        precedes(b, c),
    ensures
        precedes(a, c),
    decreases a.len(),
{
    if a.len() > 0 && a[0] == b[0] && b[0] == c[0] {
        lemma_precedes_transitive(a.skip(1), b.skip(1), c.skip(1));
    }
}

/// Of two different texts one precedes the other.
pub proof fn lemma_precedes_connected(a: Seq<char>, b: Seq<char>)
    requires
        a != b,
    ensures
        precedes(a, b) || precedes(b, a),
    decreases a.len(),
{
    if a.len() == 0 || b.len() == 0 {
        if a.len() == 0 && b.len() == 0 {
            assert(a =~= b);
        }
    } else if a[0] == b[0] {
        if a.skip(1) == b.skip(1) {
            assert(a =~= seq![a[0]] + a.skip(1));
            assert(b =~= seq![b[0]] + b.skip(1));
        }
        lemma_precedes_connected(a.skip(1), b.skip(1));
    } else {
        vstd::utf8::char_u32_cast(a[0], a[0] as u32);
        vstd::utf8::char_u32_cast(b[0], b[0] as u32);
    }
}

/// No two texts precede each other.
pub proof fn lemma_precedes_asymmetric(a: Seq<char>, b: Seq<char>)
    requires
        precedes(a, b),
    ensures
        !precedes(b, a),
{
    if precedes(b, a) {
        lemma_precedes_transitive(a, b, a);
        lemma_precedes_irreflexive(a);
    }
}

/// How two texts stand to each other in the lexicographic order.
#[derive(Clone, Copy, Debug, PartialEq, Eq, Structural)]
pub enum Relation {
    Before,
    Same,
    After,
}

/// The relation in which `a` stands to `b`.
pub open spec fn relation(a: Seq<char>, b: Seq<char>) -> Relation {
    if a == b {
        Relation::Same
    } else if precedes(a, b) {
        Relation::Before
    } else {
        Relation::After
    }
}

/// Whatever relation two texts stand in, the second precedes the first just
/// when the first comes after it.
pub proof fn lemma_after_is_preceded(a: Seq<char>, b: Seq<char>)
    ensures
        relation(a, b) == Relation::After <==> precedes(b, a),
{
    if a == b {
        lemma_precedes_irreflexive(a);
    } else if precedes(a, b) {
        lemma_precedes_asymmetric(a, b);
    } else {
        lemma_precedes_connected(a, b);
    }
}

/// Compares two texts in the lexicographic order.
pub fn compare(a: &Vec<char>, b: &Vec<char>) -> (r: Relation)
    ensures
        r == relation(a@, b@),
        r == Relation::After <==> precedes(b@, a@),
{
    let mut i: usize = 0;
    assert(a@.skip(0) =~= a@ && b@.skip(0) =~= b@);
    proof {
        lemma_after_is_preceded(a@, b@);
    }
    while i < a.len() && i < b.len()
        invariant
            i <= a.len(),
            i <= b.len(),
            a@.take(i as int) == b@.take(i as int),
            precedes(a@, b@) == precedes(a@.skip(i as int), b@.skip(i as int)),
            relation(a@, b@) == Relation::After <==> precedes(b@, a@),
        decreases a.len() - i,
    {
        if a[i] != b[i] {
            if (a[i] as u32) < (b[i] as u32) {
                return Relation::Before;
            } else {
                return Relation::After;
            }
        }
        assert(a@.skip(i as int).skip(1) =~= a@.skip(i + 1));
        assert(b@.skip(i as int).skip(1) =~= b@.skip(i + 1));
        i += 1;
    }
    if i < b.len() {
        Relation::Before
    } else if i < a.len() {
        Relation::After
    } else {
        Relation::Same
    }
}

/// Compares two strings in the lexicographic order.
pub fn compare_text(a: &str, b: &str) -> (r: Relation)
    ensures
        r == relation(a@, b@),
        r == Relation::After <==> precedes(b@, a@),
{
    let x = chars_of(a);
    let y = chars_of(b);
    compare(&x, &y)
}

/// Tests whether two strings hold the same text.
pub fn same_text(a: &str, b: &str) -> (same: bool)
    ensures
        same == (a@ == b@),
{
    match compare_text(a, b) {
        Relation::Same => true,
        _ => false,
    }
}

/// What `str::to_lowercase` returns for the text `s`.
pub uninterp spec fn lowercase(s: Seq<char>) -> Seq<char>;

/// `str::to_lowercase` returns the lowercase equivalent of the text, which
/// Unicode's `Lowercase` mapping determines from the text alone.
pub assume_specification[ str::to_lowercase ](s: &str) -> (lower: String)
    ensures
        lower@ == lowercase(s@),
;

} // verus!
