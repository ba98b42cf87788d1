//! Character-level text handling: line splitting, whitespace splitting,
//! trimming, prefix stripping and substring search, all over `Seq<char>`.
use vstd::prelude::*;

verus! {

/// Unicode `White_Space`, the property that `char::is_whitespace` tests.
pub open spec fn is_whitespace(c: char) -> bool {
    let v = c as u32;
    ||| (0x9 <= v && v <= 0xd)
    ||| v == 0x20
    ||| v == 0x85
    ||| v == 0xa0
    ||| v == 0x1680
    ||| (0x2000 <= v && v <= 0x200a)
    ||| v == 0x2028
    ||| v == 0x2029
    ||| v == 0x202f
    ||| v == 0x205f
    ||| v == 0x3000
}

pub fn is_whitespace_char(c: char) -> (b: bool)
    ensures
        b == is_whitespace(c),
{
    let v = c as u32;
    (0x9 <= v && v <= 0xd) || v == 0x20 || v == 0x85 || v == 0xa0 || v == 0x1680 || (0x2000 <= v
        && v <= 0x200a) || v == 0x2028 || v == 0x2029 || v == 0x202f || v == 0x205f || v == 0x3000
}

/// A line without its `\r`, where the line ended in `\r\n`.
pub open spec fn strip_cr(l: Seq<char>) -> Seq<char> {
    if l.len() > 0 && l.last() == '\r' {
        l.drop_last()
    } else {
        l
    }
}

/// The lines of `s[i..]`, where `cur` holds the part of the current line read so far:
/// lines end at `\n` (a `\r` before it is dropped), and a last line without `\n`
/// is kept as it is, when it is not empty.
pub open spec fn lines_acc(s: Seq<char>, i: int, cur: Seq<char>) -> Seq<Seq<char>>
    decreases s.len() - i,
{
    if i < 0 || i >= s.len() {
        if cur.len() == 0 {
            seq![]
        } else {
            seq![cur]
        }
    } else if s[i] == '\n' {
        seq![strip_cr(cur)] + lines_acc(s, i + 1, seq![])
    } else {
        lines_acc(s, i + 1, cur.push(s[i]))
    }
}

/// The lines of a text, as `str::lines` yields them.
pub open spec fn lines(s: Seq<char>) -> Seq<Seq<char>> {
    lines_acc(s, 0, seq![])
}

/// The maximal runs of non-whitespace characters of `s[i..]` (with `cur` read so far).
pub open spec fn words_acc(s: Seq<char>, i: int, cur: Seq<char>) -> Seq<Seq<char>>
    decreases s.len() - i,
{
    if i < 0 || i >= s.len() {
        if cur.len() == 0 {
            seq![]
        } else {
            seq![cur]
        }
    } else if is_whitespace(s[i]) {
        if cur.len() == 0 {
            words_acc(s, i + 1, seq![])
        } else {
            seq![cur] + words_acc(s, i + 1, seq![])
        }
    } else {
        words_acc(s, i + 1, cur.push(s[i]))
    }
}

/// The words of a text, as `str::split_whitespace` yields them.
pub open spec fn words(s: Seq<char>) -> Seq<Seq<char>> {
    words_acc(s, 0, seq![])
}

/// A set of characters that trimming removes.
#[derive(Clone, Copy)]
pub enum TrimSet {
    Whitespace,
    Only(char),
}

pub open spec fn in_trim_set(set: TrimSet, c: char) -> bool {
    match set {
        TrimSet::Whitespace => is_whitespace(c),
        TrimSet::Only(x) => c == x,
    }
}

pub open spec fn trim_start(s: Seq<char>, set: TrimSet) -> Seq<char>
    decreases s.len(),
{
    if s.len() > 0 && in_trim_set(set, s[0]) {
        trim_start(s.drop_first(), set)
    } else {
        s
    }
}

pub open spec fn trim_end(s: Seq<char>, set: TrimSet) -> Seq<char>
    decreases s.len(),
{
    if s.len() > 0 && in_trim_set(set, s.last()) {
        trim_end(s.drop_last(), set)
    } else {
        s
    }
}

/// `s` without the characters of `set` at either end (`str::trim_matches`).
pub open spec fn trim_by(s: Seq<char>, set: TrimSet) -> Seq<char> {
    trim_end(trim_start(s, set), set)
}

/// `s` without whitespace at either end (`str::trim`).
pub open spec fn trim(s: Seq<char>) -> Seq<char> {
    trim_by(s, TrimSet::Whitespace)
}

/// `str::strip_prefix`.
pub open spec fn strip_prefix(s: Seq<char>, p: Seq<char>) -> Option<Seq<char>> {
    if p.is_prefix_of(s) {
        Some(s.skip(p.len() as int))
    } else {
        None
    }
}

pub open spec fn matches_at(s: Seq<char>, p: Seq<char>, i: int) -> bool {
    0 <= i && i + p.len() <= s.len() && s.subrange(i, i + p.len()) == p
}

/// The first position at or after `i` where `p` occurs in `s`.
pub open spec fn find_from(s: Seq<char>, p: Seq<char>, i: int) -> Option<int>
    decreases s.len() + 1 - i,
{
    if i < 0 || i + p.len() > s.len() {
        None
    } else if matches_at(s, p, i) {
        Some(i)
    } else {
        find_from(s, p, i + 1)
    }
}

/// The first position where `p` occurs in `s` (`str::find`, counted in characters).
pub open spec fn find(s: Seq<char>, p: Seq<char>) -> Option<int> {
    find_from(s, p, 0)
}

/// `str::contains` with a string pattern.
pub open spec fn contains_seq(s: Seq<char>, p: Seq<char>) -> bool {
    find(s, p) is Some
}

pub open spec fn ascii_lower(c: char) -> char {
    if 'A' <= c && c <= 'Z' {
        ((c as u32) + 32) as char
    } else {
        c
    }
}

/// `str::eq_ignore_ascii_case`.
pub open spec fn eq_ignore_ascii_case(a: Seq<char>, b: Seq<char>) -> bool {
    a.len() == b.len() && forall|i: int| 0 <= i < a.len() ==> ascii_lower(a[i]) == ascii_lower(b[i])
}

/// A match that `find_from` reports lies at or after where the search started.
pub(crate) proof fn lemma_find_from_found(s: Seq<char>, p: Seq<char>, i: int)
    ensures
        find_from(s, p, i) matches Some(k) ==> i <= k && matches_at(s, p, k),
    decreases s.len() + 1 - i,
{
    if i < 0 || i + p.len() > s.len() {
    } else if matches_at(s, p, i) {
    } else {
        lemma_find_from_found(s, p, i + 1);
    }
}

/// The characters of a string slice.
pub fn chars_of(s: &str) -> (v: Vec<char>)
    ensures
        v@ == s@,
{
    let mut v: Vec<char> = Vec::new();
    for c in it: s.chars()
        invariant
            it.seq() == s@,
            v@ == it.seq().take(it.index() as int),
    {
        v.push(c);
        assert(it.seq().take(it.index() + 1) =~= it.seq().take(it.index() as int).push(c));
    }
    assert(v@ =~= s@);
    v
}

/// Appends a character to a string (`String::push`).
#[verifier::external_body]
pub(crate) fn string_push(s: &mut String, c: char)
    ensures
        final(s)@ == old(s)@.push(c),
{
    s.push(c);
}

/// A string made of the given characters.
pub fn string_of(v: &[char]) -> (s: String)
    ensures
        s@ == v@,
{
    let mut s = String::new();
    let mut i: usize = 0;
    while i < v.len()
        invariant
            i <= v.len(),
            s@ == v@.take(i as int),
        decreases v.len() - i,
    {
        string_push(&mut s, v[i]);
        assert(v@.take(i + 1) =~= v@.take(i as int).push(v@[i as int]));
        i = i + 1;
    }
    assert(v@.take(v.len() as int) =~= v@);
    s
}

/// Appends the characters of `v` to `out`.
pub fn push_all(out: &mut Vec<char>, v: &[char])
    ensures
        final(out)@ == old(out)@ + v@,
{
    let mut i: usize = 0;
    while i < v.len()
        invariant
            i <= v.len(),
            out@ == old(out)@ + v@.take(i as int),
        decreases v.len() - i,
    {
        out.push(v[i]);
        assert(v@.take(i + 1) =~= v@.take(i as int).push(v@[i as int]));
        i = i + 1;
    }
    assert(v@.take(v.len() as int) =~= v@);
}

/// The character sequences held by a vector of character vectors.
pub open spec fn seqs_of(r: Seq<Vec<char>>) -> Seq<Seq<char>> {
    r.map_values(|l: Vec<char>| l@)
}

pub proof fn lemma_seqs_of_push(r: Seq<Vec<char>>, x: Vec<char>)
    ensures
        seqs_of(r.push(x)) == seqs_of(r).push(x@),
{
    assert(seqs_of(r.push(x)) =~= seqs_of(r).push(x@));
}

/// Appends the bytes of `v` to `out`.
pub fn push_bytes(out: &mut Vec<u8>, v: &[u8])
    ensures
        final(out)@ == old(out)@ + v@,
{
    let mut i: usize = 0;
    while i < v.len()
        invariant
            i <= v.len(),
            out@ == old(out)@ + v@.take(i as int),
        decreases v.len() - i,
    {
        out.push(v[i]);
        assert(v@.take(i + 1) =~= v@.take(i as int).push(v@[i as int]));
        i = i + 1;
    }
    assert(v@.take(v.len() as int) =~= v@);
}

/// Splits a text into lines as `str::lines` does.
pub fn split_lines(s: &[char]) -> (r: Vec<Vec<char>>)
    ensures
        seqs_of(r@) == lines(s@),
{
    let mut r: Vec<Vec<char>> = Vec::new();
    let mut cur: Vec<char> = Vec::new();
    let mut i: usize = 0;
    assert(seqs_of(r@) =~= seq![]);
    while i < s.len()
        invariant
            i <= s.len(),
            seqs_of(r@) + lines_acc(s@, i as int, cur@) == lines(s@),
        decreases s.len() - i,
    {
        let ghost before = seqs_of(r@);
        if s[i] == '\n' {
            let ghost old_cur = cur@;
            let mut line = cur;
            let n = line.len();
            if n > 0 && line[n - 1] == '\r' {
                line.pop();
            }
            assert(line@ =~= strip_cr(old_cur));
            proof {
                lemma_seqs_of_push(r@, line);
            }
            r.push(line);
            cur = Vec::new();
            assert(seqs_of(r@) + lines_acc(s@, i + 1, cur@) =~= before + (seq![strip_cr(old_cur)]
                + lines_acc(s@, i + 1, seq![])));
        } else {
            cur.push(s[i]);
        }
        i = i + 1;
    }
    if cur.len() > 0 {
        proof {
            lemma_seqs_of_push(r@, cur);
        }
        let ghost before = seqs_of(r@);
        r.push(cur);
        assert(seqs_of(r@) =~= before + seq![cur@]);
    } else {
        assert(seqs_of(r@) + lines_acc(s@, i as int, cur@) =~= seqs_of(r@));
    }
    r
}

/// Splits a text at whitespace as `str::split_whitespace` does.
pub fn split_words(s: &[char]) -> (r: Vec<Vec<char>>)
    ensures
        seqs_of(r@) == words(s@),
{
    let mut r: Vec<Vec<char>> = Vec::new();
    let mut cur: Vec<char> = Vec::new();
    let mut i: usize = 0;
    assert(seqs_of(r@) =~= seq![]);
    while i < s.len()
        invariant
            i <= s.len(),
            seqs_of(r@) + words_acc(s@, i as int, cur@) == words(s@),
        decreases s.len() - i,
    {
        let ghost before = seqs_of(r@);
        if is_whitespace_char(s[i]) {
            if cur.len() == 0 {
                assert(cur@ =~= seq![]);
            } else {
                let ghost old_cur = cur@;
                proof {
                    lemma_seqs_of_push(r@, cur);
                }
                r.push(cur);
                cur = Vec::new();
                assert(seqs_of(r@) + words_acc(s@, i + 1, cur@) =~= before + (seq![old_cur]
                    + words_acc(s@, i + 1, seq![])));
            }
        } else {
            cur.push(s[i]);
        }
        i = i + 1;
    }
    if cur.len() > 0 {
        proof {
            lemma_seqs_of_push(r@, cur);
        }
        let ghost before = seqs_of(r@);
        r.push(cur);
        assert(seqs_of(r@) =~= before + seq![cur@]);
    } else {
        assert(seqs_of(r@) + words_acc(s@, i as int, cur@) =~= seqs_of(r@));
    }
    r
}

pub fn in_trim_set_exec(set: TrimSet, c: char) -> (b: bool)
    ensures
        b == in_trim_set(set, c),
{
    match set {
        TrimSet::Whitespace => is_whitespace_char(c),
        TrimSet::Only(x) => c == x,
    }
}

proof fn lemma_trim_start_skip(s: Seq<char>, set: TrimSet, i: int)
    requires
        0 <= i <= s.len(),
        forall|k: int| 0 <= k < i ==> in_trim_set(set, #[trigger] s[k]),
    ensures
        trim_start(s, set) == trim_start(s.skip(i), set),
    decreases i,
{
    if i > 0 {
        assert(s.drop_first().skip(i - 1) =~= s.skip(i));
        lemma_trim_start_skip(s.drop_first(), set, i - 1);
    } else {
        assert(s.skip(0) =~= s);
    }
}

proof fn lemma_trim_end_take(s: Seq<char>, set: TrimSet, j: int)
    requires
        0 <= j <= s.len(),
        forall|k: int| j <= k < s.len() ==> in_trim_set(set, #[trigger] s[k]),
    ensures
        trim_end(s, set) == trim_end(s.take(j), set),
    decreases s.len() - j,
{
    if j < s.len() {
        assert(s.drop_last().take(j) =~= s.take(j));
        lemma_trim_end_take(s.drop_last(), set, j);
    } else {
        assert(s.take(j) =~= s);
    }
}

/// `s` with the characters of `set` removed at both ends (`str::trim_matches`).
pub fn trim_chars(s: &[char], set: TrimSet) -> (r: Vec<char>)
    ensures
        r@ == trim_by(s@, set),
{
    let mut a: usize = 0;
    while a < s.len() && in_trim_set_exec(set, s[a])
        invariant
            a <= s.len(),
            forall|k: int| 0 <= k < a ==> in_trim_set(set, #[trigger] s@[k]),
        decreases s.len() - a,
    {
        a = a + 1;
    }
    proof {
        lemma_trim_start_skip(s@, set, a as int);
    }
    let ghost t = s@.skip(a as int);
    assert(a == s.len() || !in_trim_set(set, s@[a as int]));
    assert(trim_start(t, set) == t);
    let mut b: usize = s.len();
    while b > a && in_trim_set_exec(set, s[b - 1])
        invariant
            a <= b <= s.len(),
            forall|k: int| b <= k < s.len() ==> in_trim_set(set, #[trigger] s@[k]),
        decreases b,
    {
        b = b - 1;
    }
    proof {
        lemma_trim_end_take(t, set, b - a);
    }
    let mut r: Vec<char> = Vec::new();
    let mut i: usize = a;
    while i < b
        invariant
            a <= i <= b,
            b <= s.len(),
            r@ == s@.subrange(a as int, i as int),
        decreases b - i,
    {
        r.push(s[i]);
        assert(s@.subrange(a as int, i + 1) =~= s@.subrange(a as int, i as int).push(s@[i as int]));
        i = i + 1;
    }
    assert(t.take(b - a) =~= s@.subrange(a as int, b as int));
    assert(b == a || !in_trim_set(set, t.take(b - a).last()));
    r
}

/// `s` without whitespace at both ends (`str::trim`).
pub fn trim_whitespace(s: &[char]) -> (r: Vec<char>)
    ensures
        r@ == trim(s@),
{
    trim_chars(s, TrimSet::Whitespace)
}

/// `str::strip_prefix`.
pub fn strip_prefix_chars(s: &[char], p: &[char]) -> (r: Option<Vec<char>>)
    ensures
        r matches Some(v) ==> strip_prefix(s@, p@) == Some(v@),
        r is None ==> strip_prefix(s@, p@) is None,
{
    if p.len() > s.len() {
        return None;
    }
    let mut i: usize = 0;
    while i < p.len()
        invariant
            i <= p.len() <= s.len(),
            forall|k: int| 0 <= k < i ==> s@[k] == p@[k],
        decreases p.len() - i,
    {
        if s[i] != p[i] {
            return None;
        }
        i = i + 1;
    }
    let mut r: Vec<char> = Vec::new();
    let mut j: usize = p.len();
    while j < s.len()
        invariant
            p.len() <= j <= s.len(),
            r@ == s@.subrange(p.len() as int, j as int),
        decreases s.len() - j,
    {
        r.push(s[j]);
        assert(s@.subrange(p.len() as int, j + 1) =~= s@.subrange(p.len() as int, j as int).push(
            s@[j as int],
        ));
        j = j + 1;
    }
    assert(r@ =~= s@.skip(p.len() as int));
    Some(r)
}

/// Whether `p` occurs in `s` at position `i`.
pub fn matches_at_exec(s: &[char], p: &[char], i: usize) -> (b: bool)
    ensures
        b == matches_at(s@, p@, i as int),
{
    if p.len() > s.len() || i > s.len() - p.len() {
        return false;
    }
    let mut k: usize = 0;
    while k < p.len()
        invariant
            k <= p.len(),
            i + p.len() <= s.len(),
            forall|m: int| 0 <= m < k ==> s@[i + m] == p@[m],
        decreases p.len() - k,
    {
        if s[i + k] != p[k] {
            assert(s@.subrange(i as int, i + p.len())[k as int] != p@[k as int]);
            return false;
        }
        k = k + 1;
    }
    assert(s@.subrange(i as int, i + p.len()) =~= p@);
    true
}

/// The first position at or after `from` where `p` occurs in `s` (`str::find`).
pub fn find_chars_from(s: &[char], p: &[char], from: usize) -> (r: Option<usize>)
    ensures
        r matches Some(k) ==> find_from(s@, p@, from as int) == Some(k as int),
        r is None ==> find_from(s@, p@, from as int) is None,
{
    if p.len() == 0 {
        if from <= s.len() {
            assert(s@.subrange(from as int, from as int) =~= p@);
            return Some(from);
        } else {
            return None;
        }
    }
    let mut i: usize = from;
    while i <= s.len() && p.len() <= s.len() - i
        invariant
            from <= i,
            p.len() > 0,
            find_from(s@, p@, from as int) == find_from(s@, p@, i as int),
        decreases s.len() + 1 - i,
    {
        if matches_at_exec(s, p, i) {
            return Some(i);
        }
        i = i + 1;
    }
    None
}

/// Whether `p` occurs in `s` (`str::contains`).
pub fn contains_chars(s: &[char], p: &[char]) -> (b: bool)
    ensures
        b == contains_seq(s@, p@),
{
    find_chars_from(s, p, 0).is_some()
}

/// Whether `c` occurs in `s` (`str::contains` with a character).
pub fn contains_char(s: &[char], c: char) -> (b: bool)
    ensures
        b == s@.contains(c),
{
    let mut i: usize = 0;
    while i < s.len()
        invariant
            i <= s.len(),
            forall|k: int| 0 <= k < i ==> s@[k] != c,
        decreases s.len() - i,
    {
        if s[i] == c {
            return true;
        }
        i = i + 1;
    }
    false
}

pub fn ascii_lower_exec(c: char) -> (r: char)
    ensures
        r == ascii_lower(c),
{
    if 'A' <= c && c <= 'Z' {
        let v = (c as u32) + 32;
        assert(0x61 <= v && v <= 0x7a);
        char_from_ascii(v)
    } else {
        c
    }
}

/// The ASCII character whose code is `v`.
pub(crate) fn char_from_ascii(v: u32) -> (c: char)
    requires
        v < 0x80,
    ensures
        c == v as char,
{
    let b: u8 = v as u8;
    b as char
}

/// `str::eq_ignore_ascii_case`.
pub fn eq_ignore_ascii_case_chars(a: &[char], b: &[char]) -> (r: bool)
    ensures
        r == eq_ignore_ascii_case(a@, b@),
{
    if a.len() != b.len() {
        return false;
    }
    let mut i: usize = 0;
    while i < a.len()
        invariant
            i <= a.len(),
            a.len() == b.len(),
            forall|k: int| 0 <= k < i ==> ascii_lower(a@[k]) == ascii_lower(b@[k]),
        decreases a.len() - i,
    {
        if ascii_lower_exec(a[i]) != ascii_lower_exec(b[i]) {
            return false;
        }
        i = i + 1;
    }
    true
}

/// Whether two character sequences are equal.
pub fn chars_eq(a: &[char], b: &[char]) -> (r: bool)
    ensures
        r == (a@ == b@),
{
    if a.len() != b.len() {
        return false;
    }
    let mut i: usize = 0;
    while i < a.len()
        invariant
            i <= a.len(),
            a.len() == b.len(),
            forall|k: int| 0 <= k < i ==> a@[k] == b@[k],
        decreases a.len() - i,
    {
        if a[i] != b[i] {
            return false;
        }
        i = i + 1;
    }
    assert(a@ =~= b@);
    true
}

/// Whether the characters of `v` are those of the literal `lit`.
pub fn chars_equal_str(v: &[char], lit: &str) -> (b: bool)
    ensures
        b == (v@ == lit@),
{
    let l = chars_of(lit);
    if l.len() != v.len() {
        return false;
    }
    let mut i: usize = 0;
    while i < v.len()
        invariant
            i <= v.len(),
            l.len() == v.len(),
            l@ == lit@,
            forall|k: int| 0 <= k < i ==> v@[k] == l@[k],
        decreases v.len() - i,
    {
        if v[i] != l[i] {
            return false;
        }
        i = i + 1;
    }
    assert(v@ =~= l@);
    true
}

/// What `str::to_lowercase` returns for a text: its full Unicode lowercase mapping.
pub uninterp spec fn lowercase_of(s: Seq<char>) -> Seq<char>;

/// Calls `str::to_lowercase`; the result is named `lowercase_of` of the input's characters.
#[verifier::external_body]
fn str_to_lowercase(s: &str) -> (r: String)
    ensures
        r@ == lowercase_of(s@),
{
    s.to_lowercase()
}

/// The Unicode lowercase form of a text (`str::to_lowercase`).
pub fn to_lowercase_chars(s: &[char]) -> (r: Vec<char>)
    ensures
        r@ == lowercase_of(s@),
{
    let st = string_of(s);
    let low = str_to_lowercase(st.as_str());
    chars_of(low.as_str())
}

proof fn lemma_trim_start(s: Seq<char>, set: TrimSet)
    ensures
        ({
            let r = trim_start(s, set);
            let a = s.len() - r.len();
            &&& 0 <= a <= s.len()
            &&& r == s.skip(a)
            &&& forall|i: int| 0 <= i < a ==> in_trim_set(set, #[trigger] s[i])
            &&& r.len() > 0 ==> !in_trim_set(set, r[0])
        }),
    decreases s.len(),
{
    if s.len() > 0 && in_trim_set(set, s[0]) {
        let t = s.drop_first();
        lemma_trim_start(t, set);
        let r = trim_start(t, set);
        let a = s.len() - r.len();
        assert(r == t.skip(a - 1));
        assert(t.skip(a - 1) =~= s.skip(a));
        assert forall|i: int| 0 <= i < a implies in_trim_set(set, #[trigger] s[i]) by {
            if i > 0 {
                assert(s[i] == t[i - 1]);
            }
        }
    } else {
        assert(s.skip(0) =~= s);
    }
}

proof fn lemma_trim_end(s: Seq<char>, set: TrimSet)
    ensures
        ({
            let r = trim_end(s, set);
            &&& r.len() <= s.len()
            &&& r == s.take(r.len() as int)
            &&& forall|i: int| r.len() <= i < s.len() ==> in_trim_set(set, #[trigger] s[i])
            &&& r.len() > 0 ==> !in_trim_set(set, r.last())
        }),
    decreases s.len(),
{
    if s.len() > 0 && in_trim_set(set, s.last()) {
        let t = s.drop_last();
        lemma_trim_end(t, set);
        let r = trim_end(t, set);
        assert(t.take(r.len() as int) =~= s.take(r.len() as int));
        assert forall|i: int| r.len() <= i < s.len() implies in_trim_set(set, #[trigger] s[i]) by {
            if i < t.len() {
                assert(s[i] == t[i]);
            }
        }
    } else {
        assert(s.take(s.len() as int) =~= s);
    }
}

/// Trimming removes characters of the set from both ends and nothing else:
/// the result is a run of `s` with only characters of the set before and
/// after it, and it neither starts nor ends with one.
pub proof fn law_trim(s: Seq<char>, set: TrimSet)
    ensures
        exists|a: int, b: int|
            0 <= a <= b <= s.len() && trim_by(s, set) == s.subrange(a, b) && (forall|i: int|
                0 <= i < a ==> in_trim_set(set, #[trigger] s[i])) && (forall|i: int|
                b <= i < s.len() ==> in_trim_set(set, #[trigger] s[i])),
        trim_by(s, set).len() > 0 ==> !in_trim_set(set, trim_by(s, set)[0]) && !in_trim_set(
            set,
            trim_by(s, set).last(),
        ),
{
    lemma_trim_start(s, set);
    let t = trim_start(s, set);
    let a = s.len() - t.len();
    lemma_trim_end(t, set);
    let r = trim_end(t, set);
    let b = a + r.len();
    assert(r =~= s.subrange(a, b));
    assert forall|i: int| b <= i < s.len() implies in_trim_set(set, #[trigger] s[i]) by {
        assert(s[i] == t[i - a]);
    }
    if r.len() > 0 {
        assert(r[0] == t[0]);
    }
}

/// The words of a text are non-empty and hold no whitespace.
pub proof fn law_words(s: Seq<char>)
    ensures
        forall|k: int|
            0 <= k < words(s).len() ==> (#[trigger] words(s)[k]).len() > 0 && forall|i: int|
                0 <= i < words(s)[k].len() ==> !is_whitespace(#[trigger] words(s)[k][i]),
{
    lemma_words_acc(s, 0, seq![]);
}

proof fn lemma_words_acc(s: Seq<char>, i: int, cur: Seq<char>)
    requires
        forall|j: int| 0 <= j < cur.len() ==> !is_whitespace(#[trigger] cur[j]),
    ensures
        forall|k: int|
            0 <= k < words_acc(s, i, cur).len() ==> (#[trigger] words_acc(s, i, cur)[k]).len() > 0 && forall|j: int|
                0 <= j < words_acc(s, i, cur)[k].len() ==> !is_whitespace(#[trigger] words_acc(s, i, cur)[k][j]),
    decreases s.len() - i,
{
    if i < 0 || i >= s.len() {
        if cur.len() > 0 {
            assert(words_acc(s, i, cur) == seq![cur]);
            assert(words_acc(s, i, cur)[0] == cur);
        }
    } else if is_whitespace(s[i]) {
        lemma_words_acc(s, i + 1, seq![]);
        if cur.len() == 0 {
            assert(words_acc(s, i, cur) == words_acc(s, i + 1, seq![]));
        }
        if cur.len() > 0 {
            let rest = words_acc(s, i + 1, seq![]);
            let w = words_acc(s, i, cur);
            assert(w == seq![cur] + rest);
            assert forall|k: int| 0 <= k < w.len() implies (#[trigger] w[k]).len() > 0 && forall|j: int|
                0 <= j < w[k].len() ==> !is_whitespace(#[trigger] w[k][j]) by {
                if k > 0 {
                    assert(w[k] == rest[k - 1]);
                }
            }
        }
    } else {
        let c2 = cur.push(s[i]);
        assert forall|j: int| 0 <= j < c2.len() implies !is_whitespace(#[trigger] c2[j]) by {
            if j < cur.len() {
                assert(c2[j] == cur[j]);
            }
        }
        lemma_words_acc(s, i + 1, c2);
        assert(words_acc(s, i, cur) == words_acc(s, i + 1, c2));
    }
}

/// The lines of a text hold no line break.
pub proof fn law_lines(s: Seq<char>)
    ensures
        forall|k: int| 0 <= k < lines(s).len() ==> !(#[trigger] lines(s)[k]).contains('\n'),
{
    lemma_lines_acc(s, 0, seq![]);
}

proof fn lemma_lines_acc(s: Seq<char>, i: int, cur: Seq<char>)
    requires
        !cur.contains('\n'),
    ensures
        forall|k: int| 0 <= k < lines_acc(s, i, cur).len() ==> !(#[trigger] lines_acc(s, i, cur)[k]).contains('\n'),
    decreases s.len() - i,
{
    if i < 0 || i >= s.len() {
        if cur.len() > 0 {
            assert(lines_acc(s, i, cur) == seq![cur]);
            assert(lines_acc(s, i, cur)[0] == cur);
        }
    } else if s[i] == '\n' {
        lemma_lines_acc(s, i + 1, seq![]);
        let rest = lines_acc(s, i + 1, seq![]);
        let l = lines_acc(s, i, cur);
        assert(l == seq![strip_cr(cur)] + rest);
        if strip_cr(cur).contains('\n') {
            let j = choose|j: int| 0 <= j < strip_cr(cur).len() && strip_cr(cur)[j] == '\n';
            assert(cur[j] == '\n');
        }
        assert forall|k: int| 0 <= k < l.len() implies !(#[trigger] l[k]).contains('\n') by {
            if k > 0 {
                assert(l[k] == rest[k - 1]);
            }
        }
    } else {
        let c2 = cur.push(s[i]);
        if c2.contains('\n') {
            let j = choose|j: int| 0 <= j < c2.len() && c2[j] == '\n';
            if j < cur.len() {
                assert(cur[j] == '\n');
            }
        }
        lemma_lines_acc(s, i + 1, c2);
        assert(lines_acc(s, i, cur) == lines_acc(s, i + 1, c2));
    }
}

} // verus!
