//! Character-level text utilities: strings are read into `Vec<char>` and all
//! splitting, joining and matching is specified over `Seq<char>`.

use vstd::prelude::*;

verus! {

/// `String::push` appends exactly one character to the end of the string.
pub assume_specification[ String::push ](s: &mut String, c: char)
    ensures
        final(s)@ == old(s)@.push(c),
;

/// The views of a sequence of strings.
pub open spec fn strs(v: Seq<String>) -> Seq<Seq<char>> {
    v.map_values(|s: String| s@)
}

/// The views of a sequence of character vectors.
pub open spec fn rows(v: Seq<Vec<char>>) -> Seq<Seq<char>> {
    v.map_values(|s: Vec<char>| s@)
}

/// The view of an optional string.
pub open spec fn opt(o: Option<String>) -> Option<Seq<char>> {
    match o {
        Some(s) => Some(s@),
        None => None,
    }
}

/// The first position from `from` on and below `n` at which `p` holds, or
/// `n` where it holds at none of them.
pub open spec fn first_at(n: int, p: spec_fn(int) -> bool, from: int) -> int
    decreases n - from,
{
    if from < 0 || from >= n {
        n
    } else if p(from) {
        from
    } else {
        first_at(n, p, from + 1)
    }
}

/// The first position is the one at which `p` holds and before which it
/// does not.
pub proof fn lemma_first_at(n: int, p: spec_fn(int) -> bool, from: int, j: int)
    requires
        0 <= from <= j <= n,
        forall|k: int| from <= k < j ==> !#[trigger] p(k),
        j < n ==> p(j),
    ensures
        first_at(n, p, from) == j,
    decreases j - from,
{
    if from < j {
        lemma_first_at(n, p, from + 1, j);
    }
}

/// Where the first position lies: not before `from`, at a position at
/// which `p` holds unless it is `n`, and behind every position from `from`
/// on at which `p` does not hold.
pub proof fn lemma_first_at_bounds(n: int, p: spec_fn(int) -> bool, from: int)
    requires
        0 <= from <= n,
    ensures
        from <= first_at(n, p, from) <= n,
        first_at(n, p, from) < n ==> p(first_at(n, p, from)),
        forall|k: int| from <= k < first_at(n, p, from) ==> !#[trigger] p(k),
    decreases n - from,
{
    if from < n && !p(from) {
        lemma_first_at_bounds(n, p, from + 1);
    }
}

/// `c` stands in `s` at position `i`.
pub open spec fn is_at(s: Seq<char>, c: char, i: int) -> bool {
    s[i] == c
}

/// Position of the first `c` in `s`, or `s.len()` when `s` holds none.
pub open spec fn index_of(s: Seq<char>, c: char) -> int {
    first_at(s.len() as int, |i: int| is_at(s, c, i), 0)
}

/// Position of the last `c` in `s`, or `-1` when `s` holds none.
pub open spec fn last_index_of(s: Seq<char>, c: char) -> int {
    s.len() - 1 - first_at(s.len() as int, |i: int| is_at(s, c, s.len() - 1 - i), 0)
}

/// The pieces of `s` between occurrences of `sep`; never empty, and a text
/// without `sep` is its own single piece.
pub open spec fn split(s: Seq<char>, sep: char) -> Seq<Seq<char>>
    decreases s.len(),
{
    let i = index_of(s, sep);
    if 0 <= i < s.len() {
        seq![s.take(i)] + split(s.skip(i + 1), sep)
    } else {
        seq![s]
    }
}

/// The pieces written one after another with `sep` between neighbours.
pub open spec fn join(parts: Seq<Seq<char>>, sep: char) -> Seq<char>
    decreases parts.len(),
{
    if parts.len() == 0 {
        Seq::empty()
    } else if parts.len() == 1 {
        parts[0]
    } else {
        join(parts.drop_last(), sep).push(sep) + parts.last()
    }
}

/// `s` begins with `p`.
pub open spec fn has_prefix(s: Seq<char>, p: Seq<char>) -> bool {
    p.len() <= s.len() && s.take(p.len() as int) == p
}

/// `s` ends with `p`.
pub open spec fn has_suffix(s: Seq<char>, p: Seq<char>) -> bool {
    p.len() <= s.len() && s.skip(s.len() - p.len()) == p
}

/// `needle` stands in `s` at position `i`.
pub open spec fn occurs_at(s: Seq<char>, needle: Seq<char>, i: int) -> bool {
    0 <= i && i + needle.len() <= s.len() && s.subrange(i, i + needle.len()) == needle
}

/// `needle` stands somewhere in `s`.
pub open spec fn contains(s: Seq<char>, needle: Seq<char>) -> bool {
    exists|i: int| occurs_at(s, needle, i)
}

/// White space as `char::is_whitespace` and `str::trim` take it: the
/// code points with the Unicode property `White_Space`.
pub open spec fn is_space(c: char) -> bool {
    let u = c as u32;
    ||| 0x09 <= u <= 0x0D
    ||| u == 0x20
    ||| u == 0x85
    ||| u == 0xA0
    ||| u == 0x1680
    ||| 0x2000 <= u <= 0x200A
    ||| u == 0x2028
    ||| u == 0x2029
    ||| u == 0x202F
    ||| u == 0x205F
    ||| u == 0x3000
}

/// Number of characters at the beginning of `s` that `p` holds of.
pub open spec fn leading(s: Seq<char>, p: spec_fn(char) -> bool) -> int {
    first_at(s.len() as int, |i: int| !p(s[i]), 0)
}

/// Number of characters at the end of `s` that `p` holds of.
pub open spec fn trailing(s: Seq<char>, p: spec_fn(char) -> bool) -> int {
    first_at(s.len() as int, |i: int| !p(s[s.len() - 1 - i]), 0)
}

/// `s` without the characters at its ends that `p` holds of.
pub open spec fn stripped(s: Seq<char>, p: spec_fn(char) -> bool) -> Seq<char> {
    let a = leading(s, p);
    let b = trailing(s, p);
    if a + b >= s.len() {
        Seq::empty()
    } else {
        s.subrange(a, s.len() - b)
    }
}

/// `s` without the white space at its ends.
pub open spec fn trim(s: Seq<char>) -> Seq<char> {
    stripped(s, |c: char| is_space(c))
}

/// Whether `char::is_numeric` holds of a character.
pub uninterp spec fn numeric_char(c: char) -> bool;

/// `char::is_numeric`: whether the character has one of Unicode's general
/// categories for numbers, which depends on the character alone.
#[verifier::external_body]
pub(crate) fn is_numeric(c: char) -> (b: bool)
    ensures
        b == numeric_char(c),
{
    c.is_numeric()
}

/// `s` without the ending `p`, where it has it.
pub open spec fn without_suffix(s: Seq<char>, p: Seq<char>) -> Option<Seq<char>> {
    if has_suffix(s, p) {
        Some(s.take(s.len() - p.len()))
    } else {
        None
    }
}

/// `s` without the beginning `p`, where it has it.
pub open spec fn without_prefix(s: Seq<char>, p: Seq<char>) -> Option<Seq<char>> {
    if has_prefix(s, p) {
        Some(s.skip(p.len() as int))
    } else {
        None
    }
}

/// What `str::to_lowercase` makes of a text.
pub uninterp spec fn lowercase_of(s: Seq<char>) -> Seq<char>;

/// `str::to_lowercase`: the lowercase equivalent of the text under Unicode's
/// rules, which depends on the characters alone.
#[verifier::external_body]
pub(crate) fn lowercase(s: &str) -> (out: String)
    ensures
        out@ == lowercase_of(s@),
{
    s.to_lowercase()
}

/// What is left of a text between the first and the last character of
/// which `p` does not hold.
pub proof fn lemma_stripped(s: Seq<char>, p: spec_fn(char) -> bool, a: int, b: int)
    requires
        0 <= a <= b <= s.len(),
        forall|k: int| 0 <= k < a ==> p(#[trigger] s[k]),
        forall|k: int| b <= k < s.len() ==> p(#[trigger] s[k]),
        a < b ==> !p(s[a]) && !p(s[b - 1]),
        a == b ==> a == s.len(),
    ensures
        stripped(s, p) == s.subrange(a, b),
{
    let n = s.len() as int;
    lemma_first_at(n, |i: int| !p(s[i]), 0, a);
    if a == b {
        lemma_first_at(n, |i: int| !p(s[n - 1 - i]), 0, n);
        assert(s.subrange(a, b) =~= Seq::<char>::empty());
    } else {
        lemma_first_at(n, |i: int| !p(s[n - 1 - i]), 0, n - b);
    }
}

/// Joining with a piece in front: the piece, then `sep` and the rest where
/// there is a rest.
pub proof fn lemma_join_front(a: Seq<char>, rest: Seq<Seq<char>>, sep: char)
    ensures
        join(seq![a] + rest, sep) == if rest.len() == 0 {
            a
        } else {
            a.push(sep) + join(rest, sep)
        },
    decreases rest.len(),
{
    let all = seq![a] + rest;
    if rest.len() == 0 {
        assert(all =~= seq![a]);
    } else {
        assert(all.drop_last() =~= seq![a] + rest.drop_last());
        assert(all.last() == rest.last());
        lemma_join_front(a, rest.drop_last(), sep);
        if rest.len() == 1 {
            assert(rest.drop_last() =~= Seq::<Seq<char>>::empty());
            assert(join(all, sep) =~= a.push(sep) + rest[0]);
        } else {
            assert(join(all, sep) =~= a.push(sep) + (join(rest.drop_last(), sep).push(sep)
                + rest.last()));
        }
    }
}

/// Splitting always gives at least one piece.
pub proof fn lemma_split_nonempty(s: Seq<char>, sep: char)
    ensures
        split(s, sep).len() >= 1,
    decreases s.len(),
{
    let i = index_of(s, sep);
    if 0 <= i < s.len() {
        lemma_split_nonempty(s.skip(i + 1), sep);
    }
}

/// A text that holds the separator has two pieces at least.
pub proof fn lemma_split_in_two(s: Seq<char>, sep: char, at: int)
    requires
        0 <= at < s.len(),
        s[at] == sep,
    ensures
        split(s, sep).len() >= 2,
{
    let here = |i: int| is_at(s, sep, i);
    lemma_first_at_bounds(s.len() as int, here, 0);
    let i = index_of(s, sep);
    assert(here(at));
    lemma_split_nonempty(s.skip(i + 1), sep);
}

/// Joining the pieces of a text with the separator it was split at gives
/// the text back.
pub proof fn lemma_join_split(s: Seq<char>, sep: char)
    ensures
        join(split(s, sep), sep) == s,
    decreases s.len(),
{
    lemma_first_at_bounds(s.len() as int, |i: int| is_at(s, sep, i), 0);
    let i = index_of(s, sep);
    if 0 <= i < s.len() {
        let rest = split(s.skip(i + 1), sep);
        lemma_join_split(s.skip(i + 1), sep);
        lemma_split_nonempty(s.skip(i + 1), sep);
        lemma_join_front(s.take(i), rest, sep);
        assert(s.take(i).push(sep) + s.skip(i + 1) =~= s);
    } else {
        assert(split(s, sep) =~= seq![s]);
    }
}

/// Whether `c` is white space.
pub fn is_whitespace(c: char) -> (r: bool)
    ensures
        r == is_space(c),
{
    let u: u32 = c as u32;
    (0x09 <= u && u <= 0x0D) || u == 0x20 || u == 0x85 || u == 0xA0 || u == 0x1680 || (0x2000
        <= u && u <= 0x200A) || u == 0x2028 || u == 0x2029 || u == 0x202F || u == 0x205F || u
        == 0x3000
}

/// The text without the white space at its ends.
pub fn trim_chars(s: &Vec<char>) -> (out: Vec<char>)
    ensures
        out@ == trim(s@),
{
    let mut a: usize = 0;
    while a < s.len() && is_whitespace(s[a])
        invariant
            a <= s.len(),
            forall|k: int| 0 <= k < a ==> is_space(s@[k]),
        decreases s.len() - a,
    {
        a += 1;
    }
    let mut b: usize = s.len();
    while b > a && is_whitespace(s[b - 1])
        invariant
            a <= b <= s.len(),
            forall|k: int| b <= k < s.len() ==> is_space(s@[k]),
        decreases b,
    {
        b -= 1;
    }
    proof {
        lemma_stripped(s@, |c: char| is_space(c), a as int, b as int);
    }
    slice(s, a, b)
}

/// Reads the characters of `s` into a vector.
pub fn to_chars(s: &str) -> (out: Vec<char>)
    ensures
        out@ == s@,
{
    let mut out: Vec<char> = Vec::new();
    for c in it: s.chars()
        invariant
            it.seq() == s@,
            out@ == it.seq().take(it.index() as int),
    {
        out.push(c);
    }
    out
}

/// Builds a string from a run of characters.
pub fn from_chars(v: &Vec<char>) -> (out: String)
    ensures
        out@ == v@,
{
    let mut out = String::new();
    let mut i: usize = 0;
    while i < v.len()
        invariant
            i <= v.len(),
            out@ == v@.subrange(0, i as int),
        decreases v.len() - i,
    {
        out.push(v[i]);
        i += 1;
    }
    out
}

/// Copies the characters of `s` from `from` up to `to`.
pub(crate) fn slice(s: &Vec<char>, from: usize, to: usize) -> (out: Vec<char>)
    requires
        from <= to <= s.len(),
    ensures
        out@ == s@.subrange(from as int, to as int),
{
    let mut out: Vec<char> = Vec::new();
    let mut i: usize = from;
    while i < to
        invariant
            from <= i <= to <= s.len(),
            out@ == s@.subrange(from as int, i as int),
        decreases to - i,
    {
        out.push(s[i]);
        i += 1;
    }
    out
}

/// Whether two runs of characters are the same text.
pub fn same(a: &Vec<char>, b: &Vec<char>) -> (r: bool)
    ensures
        r == (a@ == b@),
{
    if a.len() != b.len() {
        return false;
    }
    let mut i: usize = 0;
    while i < a.len()
        invariant
            a.len() == b.len(),
            i <= a.len(),
            a@.take(i as int) == b@.take(i as int),
        decreases a.len() - i,
    {
        if a[i] != b[i] {
            return false;
        }
        proof {
            assert(a@.take(i + 1) =~= a@.take(i as int).push(a@[i as int]));
            assert(b@.take(i + 1) =~= b@.take(i as int).push(b@[i as int]));
        }
        i += 1;
    }
    proof {
        assert(a@ =~= a@.take(a@.len() as int));
        assert(b@ =~= b@.take(b@.len() as int));
    }
    true
}

/// Whether `needle` stands in `s` at position `at`.
pub fn matches_at(s: &Vec<char>, needle: &Vec<char>, at: usize) -> (r: bool)
    ensures
        r == occurs_at(s@, needle@, at as int),
{
    if needle.len() > s.len() || at > s.len() - needle.len() {
        return false;
    }
    let mut i: usize = 0;
    while i < needle.len()
        invariant
            at + needle.len() <= s.len(),
            i <= needle.len(),
            s@.subrange(at as int, at + i) == needle@.take(i as int),
        decreases needle.len() - i,
    {
        if s[at + i] != needle[i] {
            proof {
                let w = s@.subrange(at as int, at + needle.len());
                assert(w[i as int] != needle@[i as int]);
            }
            return false;
        }
        proof {
            assert(s@.subrange(at as int, at + i + 1) =~= s@.subrange(at as int, at + i).push(
                s@[at + i],
            ));
            assert(needle@.take(i + 1) =~= needle@.take(i as int).push(needle@[i as int]));
        }
        i += 1;
    }
    proof {
        assert(needle@ =~= needle@.take(needle@.len() as int));
    }
    true
}

/// Whether `s` begins with `p`.
pub fn starts_with(s: &Vec<char>, p: &Vec<char>) -> (r: bool)
    ensures
        r == has_prefix(s@, p@),
{
    let r = matches_at(s, p, 0);
    proof {
        if p@.len() <= s@.len() {
            assert(s@.take(p@.len() as int) =~= s@.subrange(0int, 0int + p@.len()));
        }
    }
    r
}

/// Whether `s` ends with `p`.
pub fn ends_with(s: &Vec<char>, p: &Vec<char>) -> (r: bool)
    ensures
        r == has_suffix(s@, p@),
{
    if p.len() > s.len() {
        return false;
    }
    let at: usize = s.len() - p.len();
    let r = matches_at(s, p, at);
    proof {
        assert(s@.skip(s@.len() - p@.len()) =~= s@.subrange(at as int, at + p@.len()));
    }
    r
}

/// `s` without the beginning `p`, where it has it.
pub fn strip_prefix(s: &Vec<char>, p: &Vec<char>) -> (r: Option<Vec<char>>)
    ensures
        match r {
            Some(t) => without_prefix(s@, p@) == Some(t@),
            None => without_prefix(s@, p@) is None,
        },
{
    if starts_with(s, p) {
        let t = slice(s, p.len(), s.len());
        proof {
            assert(s@.skip(p@.len() as int) =~= t@);
        }
        Some(t)
    } else {
        None
    }
}

/// `s` without the ending `p`, where it has it.
pub fn strip_suffix(s: &Vec<char>, p: &Vec<char>) -> (r: Option<Vec<char>>)
    ensures
        match r {
            Some(t) => without_suffix(s@, p@) == Some(t@),
            None => without_suffix(s@, p@) is None,
        },
{
    if ends_with(s, p) {
        let t = slice(s, 0, s.len() - p.len());
        proof {
            assert(s@.take(s@.len() - p@.len()) =~= t@);
        }
        Some(t)
    } else {
        None
    }
}

/// The characters of `a` followed by those of `b`.
pub fn chain(a: &Vec<char>, b: &Vec<char>) -> (out: Vec<char>)
    ensures
        out@ == a@ + b@,
{
    let mut out = slice(a, 0, a.len());
    proof {
        assert(a@.subrange(0, a@.len() as int) =~= a@);
    }
    let mut i: usize = 0;
    while i < b.len()
        invariant
            i <= b.len(),
            out@ == a@ + b@.take(i as int),
        decreases b.len() - i,
    {
        out.push(b[i]);
        proof {
            assert(a@ + b@.take(i + 1) =~= (a@ + b@.take(i as int)).push(b@[i as int]));
        }
        i += 1;
    }
    proof {
        assert(b@.take(b@.len() as int) =~= b@);
    }
    out
}

/// A copy of an optional string.
pub fn copy_opt(o: &Option<String>) -> (out: Option<String>)
    ensures
        opt(out) == opt(*o),
{
    match o {
        Some(s) => Some(s.clone()),
        None => None,
    }
}

/// The texts as strings.
pub fn to_strings(v: &Vec<Vec<char>>) -> (out: Vec<String>)
    ensures
        strs(out@) == rows(v@),
{
    let ghost want = rows(v@);
    let mut out: Vec<String> = Vec::new();
    let mut k: usize = 0;
    proof {
        assert(strs(out@) =~= want.take(0));
    }
    while k < v.len()
        invariant
            k <= v.len(),
            want == rows(v@),
            strs(out@) == want.take(k as int),
        decreases v.len() - k,
    {
        let ghost before = strs(out@);
        out.push(from_chars(&v[k]));
        proof {
            assert(strs(out@) =~= before.push(v@[k as int]@));
            assert(want.take(k + 1) =~= want.take(k as int).push(want[k as int]));
        }
        k += 1;
    }
    proof {
        assert(want.take(v@.len() as int) =~= want);
    }
    out
}

/// The strings as runs of characters.
pub fn to_rows(v: &Vec<String>) -> (out: Vec<Vec<char>>)
    ensures
        rows(out@) == strs(v@),
{
    let ghost want = strs(v@);
    let mut out: Vec<Vec<char>> = Vec::new();
    let mut k: usize = 0;
    proof {
        assert(rows(out@) =~= want.take(0));
    }
    while k < v.len()
        invariant
            k <= v.len(),
            want == strs(v@),
            rows(out@) == want.take(k as int),
        decreases v.len() - k,
    {
        let ghost before = rows(out@);
        let r = to_chars(v[k].as_str());
        out.push(r);
        proof {
            assert(rows(out@) =~= before.push(v@[k as int]@));
            assert(want.take(k + 1) =~= want.take(k as int).push(want[k as int]));
        }
        k += 1;
    }
    proof {
        assert(want.take(v@.len() as int) =~= want);
    }
    out
}

/// Whether `list` holds the text `s`.
pub fn is_listed(list: &Vec<String>, s: &str) -> (r: bool)
    ensures
        r == strs(list@).contains(s@),
{
    let want = to_chars(s);
    let mut i: usize = 0;
    while i < list.len()
        invariant
            i <= list.len(),
            want@ == s@,
            forall|k: int| 0 <= k < i ==> strs(list@)[k] != s@,
        decreases list.len() - i,
    {
        if same(&to_chars(list[i].as_str()), &want) {
            proof {
                assert(strs(list@)[i as int] == s@);
            }
            return true;
        }
        i += 1;
    }
    false
}

/// Whether `needle` stands somewhere in `s`.
pub fn includes(s: &Vec<char>, needle: &Vec<char>) -> (r: bool)
    ensures
        r == contains(s@, needle@),
{
    if needle.len() > s.len() {
        return false;
    }
    let last: usize = s.len() - needle.len();
    let mut i: usize = 0;
    loop
        invariant
            last == s.len() - needle.len(),
            i <= last,
            forall|k: int| 0 <= k < i ==> !occurs_at(s@, needle@, k),
        decreases last - i,
    {
        if matches_at(s, needle, i) {
            return true;
        }
        if i == last {
            return false;
        }
        i += 1;
    }
}

/// Position of the first `c` at or after `from`, or the length of `s`.
pub(crate) fn find_from(s: &Vec<char>, c: char, from: usize) -> (at: usize)
    requires
        from <= s.len(),
    ensures
        from <= at <= s.len(),
        at - from == index_of(s@.skip(from as int), c),
{
    let mut i: usize = from;
    while i < s.len() && s[i] != c
        invariant
            from <= i <= s.len(),
            forall|k: int| from <= k < i ==> s@[k] != c,
        decreases s.len() - i,
    {
        i += 1;
    }
    proof {
        let rest = s@.skip(from as int);
        lemma_first_at(rest.len() as int, |i: int| is_at(rest, c, i), 0, i - from);
    }
    i
}

/// Position one past the last `c` in `s`, or zero when `s` holds none.
pub fn after_last(s: &Vec<char>, c: char) -> (at: usize)
    ensures
        at == last_index_of(s@, c) + 1,
        at <= s.len(),
{
    let mut i: usize = s.len();
    while i > 0 && s[i - 1] != c
        invariant
            i <= s.len(),
            forall|k: int| i <= k < s.len() ==> s@[k] != c,
        decreases i,
    {
        i -= 1;
    }
    proof {
        let text = s@;
        lemma_first_at(
            text.len() as int,
            |i: int| is_at(text, c, text.len() - 1 - i),
            0,
            text.len() - i,
        );
    }
    i
}

/// Splits `s` at every `sep`.
pub fn split_chars(s: &Vec<char>, sep: char) -> (out: Vec<Vec<char>>)
    ensures
        rows(out@) == split(s@, sep),
{
    let mut out: Vec<Vec<char>> = Vec::new();
    let mut start: usize = 0;
    proof {
        assert(s@.skip(0) =~= s@);
        assert(rows(out@) + split(s@, sep) =~= split(s@, sep));
    }
    loop
        invariant_except_break
            start <= s.len(),
            split(s@, sep) == rows(out@) + split(s@.skip(start as int), sep),
        ensures
            rows(out@) == split(s@, sep),
        decreases s.len() - start,
    {
        let at = find_from(s, sep, start);
        let piece = slice(s, start, at);
        let ghost before = rows(out@);
        let ghost rest = s@.skip(start as int);
        out.push(piece);
        proof {
            assert(rows(out@) =~= before.push(piece@));
            assert(rest.take(at - start) =~= piece@);
        }
        if at == s.len() {
            proof {
                assert(split(rest, sep) == seq![rest]);
                assert(rest =~= piece@);
                assert(before + seq![rest] =~= before.push(piece@));
            }
            break;
        }
        proof {
            assert(rest.skip(at - start + 1) =~= s@.skip(at + 1));
            assert(before + (seq![piece@] + split(s@.skip(at + 1), sep)) =~= before.push(piece@)
                + split(s@.skip(at + 1), sep));
        }
        start = at + 1;
    }
    out
}

/// Joins the pieces from position `from` up to `to` with `sep` between
/// neighbours.
pub(crate) fn join_range(parts: &Vec<Vec<char>>, from: usize, to: usize, sep: char) -> (out: Vec<char>)
    requires
        from <= to <= parts.len(),
    ensures
        out@ == join(rows(parts@).subrange(from as int, to as int), sep),
{
    let mut out: Vec<char> = Vec::new();
    let mut i: usize = from;
    let ghost all = rows(parts@);
    while i < to
        invariant
            from <= i <= to <= parts.len(),
            all == rows(parts@),
            out@ == join(all.subrange(from as int, i as int), sep),
        decreases to - i,
    {
        let ghost before = out@;
        if i > from {
            out.push(sep);
        }
        let part = &parts[i];
        let mut k: usize = 0;
        while k < part.len()
            invariant
                k <= part.len(),
                out@ == (if i > from {
                    before.push(sep)
                } else {
                    before
                }) + part@.take(k as int),
            decreases part.len() - k,
        {
            out.push(part[k]);
            proof {
                assert(part@.take(k + 1) =~= part@.take(k as int).push(part@[k as int]));
            }
            k += 1;
        }
        proof {
            let t = all.subrange(from as int, i + 1);
            assert(part@.take(part@.len() as int) =~= part@);
            assert(t.drop_last() =~= all.subrange(from as int, i as int));
            assert(t.last() == part@);
            if i == from {
                assert(before =~= Seq::<char>::empty());
                assert(out@ =~= part@);
            }
        }
        i += 1;
    }
    out
}

/// Joins the pieces with `sep` between neighbours.
pub fn join_chars(parts: &Vec<Vec<char>>, sep: char) -> (out: Vec<char>)
    ensures
        out@ == join(rows(parts@), sep),
{
    proof {
        assert(rows(parts@).subrange(0, parts@.len() as int) =~= rows(parts@));
    }
    join_range(parts, 0, parts.len(), sep)
}

} // verus!
