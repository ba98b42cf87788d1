//! A loader for Wavefront OBJ meshes: `v` and `vt` lines, and `f` lines whose
//! polygons are fanned into triangles. Each distinct position/texture-coordinate
//! pair a face names becomes one output vertex. Coordinates stay as the text
//! written in the file; the caller turns them into numbers.
use vstd::prelude::*;

use crate::text::{
    chars_eq, find_chars_from, find_from, lemma_seqs_of_push, lines, seqs_of, split_lines,
    split_words, string_of, words, chars_of, chars_equal_str,
};

verus! {

pub open spec fn is_digit(c: char) -> bool {
    '0' <= c && c <= '9'
}

pub open spec fn digit_value(c: char) -> nat {
    ((c as u32) - 48) as nat
}

/// The number that a string of decimal digits writes.
pub open spec fn digits_value(s: Seq<char>) -> nat
    decreases s.len(),
{
    if s.len() == 0 {
        0
    } else {
        digits_value(s.drop_last()) * 10 + digit_value(s.last())
    }
}

/// `s` without one leading `+`.
pub open spec fn unsigned_digits(s: Seq<char>) -> Seq<char> {
    if s.len() > 0 && s[0] == '+' {
        s.drop_first()
    } else {
        s
    }
}

/// What `str::parse::<usize>` gives: an optional `+`, then one or more decimal
/// digits whose value fits in `usize`.
pub open spec fn parse_usize(s: Seq<char>) -> Option<usize> {
    let d = unsigned_digits(s);
    if d.len() > 0 && (forall|i: int| 0 <= i < d.len() ==> is_digit(#[trigger] d[i])) && digits_value(d)
        <= usize::MAX {
        Some(digits_value(d) as usize)
    } else {
        None
    }
}

proof fn lemma_digits_value_push(s: Seq<char>, c: char)
    ensures
        digits_value(s.push(c)) == digits_value(s) * 10 + digit_value(c),
{
    assert(s.push(c).drop_last() =~= s);
}

/// Parses a decimal `usize` as `str::parse` does.
pub fn parse_usize_chars(s: &[char]) -> (r: Option<usize>)
    ensures
        r == parse_usize(s@),
{
    let start: usize = if s.len() > 0 && s[0] == '+' { 1 } else { 0 };
    let ghost d = unsigned_digits(s@);
    assert(d =~= s@.skip(start as int));
    if start >= s.len() {
        return None;
    }
    let mut v: usize = 0;
    let mut overflow = false;
    let mut i: usize = start;
    assert(s@.subrange(start as int, start as int) =~= seq![]);
    while i < s.len()
        invariant
            start <= i <= s.len(),
            d == s@.skip(start as int),
            d == unsigned_digits(s@),
            forall|k: int| 0 <= k < i - start ==> is_digit(#[trigger] d[k]),
            !overflow ==> v == digits_value(s@.subrange(start as int, i as int)),
            overflow ==> digits_value(s@.subrange(start as int, i as int)) > usize::MAX,
        decreases s.len() - i,
    {
        let c = s[i];
        if !('0' <= c && c <= '9') {
            assert(d[i - start] == c);
            assert(!is_digit(d[i - start]));
            assert(!(forall|k: int| 0 <= k < d.len() ==> is_digit(#[trigger] d[k])));
            return None;
        }
        let dv = (c as u32 - 48) as usize;
        proof {
            lemma_digits_value_push(s@.subrange(start as int, i as int), c);
            assert(s@.subrange(start as int, i + 1) =~= s@.subrange(start as int, i as int).push(c));
        }
        if !overflow {
            match v.checked_mul(10) {
                Some(m) => match m.checked_add(dv) {
                    Some(a) => {
                        v = a;
                    },
                    None => {
                        overflow = true;
                    },
                },
                None => {
                    overflow = true;
                },
            }
        }
        i = i + 1;
    }
    assert(s@.subrange(start as int, s.len() as int) =~= d);
    if overflow {
        None
    } else {
        Some(v)
    }
}

/// The part of a face token before its first `/`.
pub open spec fn first_piece(v: Seq<char>) -> Seq<char> {
    match find_from(v, seq!['/'], 0) {
        Some(k) => v.take(k),
        None => v,
    }
}

/// The part of a face token between its first and second `/`, if it has a `/`.
pub open spec fn second_piece(v: Seq<char>) -> Option<Seq<char>> {
    match find_from(v, seq!['/'], 0) {
        Some(k) => Some(first_piece(v.skip(k + 1))),
        None => None,
    }
}

/// The texture coordinate index that a face token names: `Some(None)` for none,
/// `None` where the text after the first `/` is not a number.
pub open spec fn uv_index_of(tok: Seq<char>) -> Option<Option<usize>> {
    match second_piece(tok) {
        Some(sp) => if sp.len() > 0 {
            match parse_usize(sp) {
                Some(t) => Some(Some(t)),
                None => None,
            }
        } else {
            Some(None)
        },
        None => Some(None),
    }
}

/// A vertex of the output: a position index and an optional texture coordinate index.
pub type VertexKey = (usize, Option<usize>);

/// The first position of `k` in `keys` at or after `i`.
pub open spec fn key_index_from(keys: Seq<VertexKey>, k: VertexKey, i: int) -> Option<int>
    decreases keys.len() - i,
{
    if i < 0 || i >= keys.len() {
        None
    } else if keys[i] == k {
        Some(i)
    } else {
        key_index_from(keys, k, i + 1)
    }
}

/// What the loader holds between two lines.
pub struct ObjState {
    pub positions: Seq<Seq<Seq<char>>>,
    pub uvs: Seq<Seq<Seq<char>>>,
    pub has_uvs: bool,
    pub keys: Seq<VertexKey>,
    pub out_positions: Seq<Seq<Seq<char>>>,
    pub indices: Seq<u32>,
}

/// Positions and output positions hold three coordinates, texture coordinates two.
pub open spec fn obj_state_wf(st: ObjState) -> bool {
    &&& forall|i: int| 0 <= i < st.positions.len() ==> (#[trigger] st.positions[i]).len() == 3
    &&& forall|i: int| 0 <= i < st.uvs.len() ==> (#[trigger] st.uvs[i]).len() == 2
    &&& forall|i: int| 0 <= i < st.out_positions.len() ==> (#[trigger] st.out_positions[i]).len() == 3
}

pub open spec fn initial_obj_state() -> ObjState {
    ObjState {
        positions: seq![],
        uvs: seq![],
        has_uvs: false,
        keys: seq![],
        out_positions: seq![],
        indices: seq![],
    }
}

/// One vertex token of a face: its output index, and the state with a new
/// output vertex where the token's key was not seen before. `None` for a
/// malformed token: a bad number, or an index outside the positions or
/// texture coordinates read so far.
pub open spec fn face_vertex(st: ObjState, tok: Seq<char>) -> Option<(ObjState, u32)> {
    match parse_usize(first_piece(tok)) {
        None => None,
        Some(pi) => match uv_index_of(tok) {
            None => None,
            Some(ti) => {
                let key = (pi, ti);
                match key_index_from(st.keys, key, 0) {
                    Some(n) => Some((st, n as u32)),
                    None => if 1 <= pi <= st.positions.len() && (ti matches Some(t) ==> 1 <= t
                        <= st.uvs.len()) {
                        Some(
                            (
                                ObjState {
                                    keys: st.keys.push(key),
                                    out_positions: st.out_positions.push(st.positions[pi - 1]),
                                    ..st
                                },
                                st.out_positions.len() as u32,
                            ),
                        )
                    } else {
                        None
                    },
                }
            },
        },
    }
}

/// The vertex tokens of a face, left to right.
pub open spec fn face_fold(st: ObjState, toks: Seq<Seq<char>>) -> Option<(ObjState, Seq<u32>)>
    decreases toks.len(),
{
    if toks.len() == 0 {
        Some((st, seq![]))
    } else {
        match face_fold(st, toks.drop_last()) {
            None => None,
            Some((s1, f)) => match face_vertex(s1, toks.last()) {
                None => None,
                Some((s2, n)) => Some((s2, f.push(n))),
            },
        }
    }
}

/// The triangles `(f[0], f[i-1], f[i])` for `2 <= i < k`.
pub open spec fn fan_upto(f: Seq<u32>, k: int) -> Seq<u32>
    decreases k,
{
    if k <= 2 {
        seq![]
    } else {
        fan_upto(f, k - 1) + seq![f[0], f[k - 2], f[k - 1]]
    }
}

/// A polygon fanned into triangles around its first vertex.
pub open spec fn fan(f: Seq<u32>) -> Seq<u32> {
    fan_upto(f, f.len() as int)
}

/// What one line does to the loader; `None` for a malformed line.
pub open spec fn obj_step(st: ObjState, line: Seq<char>) -> Option<ObjState> {
    let w = words(line);
    if w.len() == 0 {
        Some(st)
    } else if w[0] == "v"@ {
        if w.len() >= 4 {
            Some(ObjState { positions: st.positions.push(seq![w[1], w[2], w[3]]), ..st })
        } else {
            None
        }
    } else if w[0] == "vt"@ {
        if w.len() >= 3 {
            Some(ObjState { has_uvs: true, uvs: st.uvs.push(seq![w[1], w[2]]), ..st })
        } else {
            None
        }
    } else if w[0] == "f"@ {
        match face_fold(st, w.skip(1)) {
            Some((s, f)) => Some(ObjState { indices: s.indices + fan(f), ..s }),
            None => None,
        }
    } else {
        Some(st)
    }
}

/// The lines of a file, left to right.
pub open spec fn obj_fold(ls: Seq<Seq<char>>) -> Option<ObjState>
    decreases ls.len(),
{
    if ls.len() == 0 {
        Some(initial_obj_state())
    } else {
        match obj_fold(ls.drop_last()) {
            None => None,
            Some(st) => obj_step(st, ls.last()),
        }
    }
}

/// What the loaded mesh holds.
pub struct ObjView {
    pub positions: Seq<Seq<Seq<char>>>,
    pub uvs: Option<Seq<Seq<Seq<char>>>>,
    pub indices: Seq<u32>,
    pub source_positions: Seq<Seq<Seq<char>>>,
}

/// The mesh that an OBJ text describes; `None` for a malformed text.
pub open spec fn parse_obj(text: Seq<char>) -> Option<ObjView> {
    match obj_fold(lines(text)) {
        Some(st) => Some(
            ObjView {
                positions: st.out_positions,
                uvs: if st.has_uvs {
                    Some(st.uvs)
                } else {
                    None
                },
                indices: st.indices,
                source_positions: st.positions,
            },
        ),
        None => None,
    }
}

/// The word lists held by a vector of word vectors.
pub open spec fn seqss_of(v: Seq<Vec<Vec<char>>>) -> Seq<Seq<Seq<char>>> {
    v.map_values(|x: Vec<Vec<char>>| seqs_of(x@))
}

proof fn lemma_seqss_of_push(r: Seq<Vec<Vec<char>>>, x: Vec<Vec<char>>)
    ensures
        seqss_of(r.push(x)) == seqss_of(r).push(seqs_of(x@)),
{
    assert(seqss_of(r.push(x)) =~= seqss_of(r).push(seqs_of(x@)));
}

fn copy_chars(v: &[char]) -> (r: Vec<char>)
    ensures
        r@ == v@,
{
    let mut r: Vec<char> = Vec::new();
    crate::text::push_all(&mut r, v);
    r
}

fn copy_words(v: &Vec<Vec<char>>) -> (r: Vec<Vec<char>>)
    ensures
        seqs_of(r@) == seqs_of(v@),
{
    let mut r: Vec<Vec<char>> = Vec::new();
    let mut i: usize = 0;
    while i < v.len()
        invariant
            i <= v.len(),
            seqs_of(r@) == seqs_of(v@).take(i as int),
        decreases v.len() - i,
    {
        let c = copy_chars(v[i].as_slice());
        proof {
            lemma_seqs_of_push(r@, c);
            assert(seqs_of(v@).take(i + 1) =~= seqs_of(v@).take(i as int).push(v@[i as int]@));
        }
        r.push(c);
        i = i + 1;
    }
    assert(seqs_of(v@).take(v.len() as int) =~= seqs_of(v@));
    r
}

fn find_key(keys: &Vec<VertexKey>, k: VertexKey) -> (r: Option<usize>)
    ensures
        r matches Some(i) ==> key_index_from(keys@, k, 0) == Some(i as int),
        r is None ==> key_index_from(keys@, k, 0) is None,
{
    let mut i: usize = 0;
    while i < keys.len()
        invariant
            i <= keys.len(),
            key_index_from(keys@, k, 0) == key_index_from(keys@, k, i as int),
        decreases keys.len() - i,
    {
        let e = keys[i];
        let same_uv = match (e.1, k.1) {
            (Some(a), Some(b)) => a == b,
            (None, None) => true,
            _ => false,
        };
        if e.0 == k.0 && same_uv {
            return Some(i);
        }
        i = i + 1;
    }
    None
}

struct ObjBuilder {
    positions: Vec<Vec<Vec<char>>>,
    uvs: Vec<Vec<Vec<char>>>,
    has_uvs: bool,
    keys: Vec<VertexKey>,
    out_positions: Vec<Vec<Vec<char>>>,
    indices: Vec<u32>,
}

impl View for ObjBuilder {
    type V = ObjState;

    closed spec fn view(&self) -> ObjState {
        ObjState {
            positions: seqss_of(self.positions@),
            uvs: seqss_of(self.uvs@),
            has_uvs: self.has_uvs,
            keys: self.keys@,
            out_positions: seqss_of(self.out_positions@),
            indices: self.indices@,
        }
    }
}

impl ObjBuilder {
    fn new() -> (b: Self)
        ensures
            b@ == initial_obj_state(),
    {
        let b = ObjBuilder {
            positions: Vec::new(),
            uvs: Vec::new(),
            has_uvs: false,
            keys: Vec::new(),
            out_positions: Vec::new(),
            indices: Vec::new(),
        };
        assert(seqss_of(b.positions@) =~= seq![]);
        assert(seqss_of(b.uvs@) =~= seq![]);
        assert(seqss_of(b.out_positions@) =~= seq![]);
        assert(b@ == initial_obj_state());
        b
    }

    fn face_vertex(&mut self, tok: &[char]) -> (r: Option<u32>)
        requires
            obj_state_wf(old(self)@),
        ensures
            obj_state_wf(final(self)@),
            r matches Some(n) ==> face_vertex(old(self)@, tok@) == Some((final(self)@, n)),
            r is None ==> face_vertex(old(self)@, tok@) is None,
    {
        let slash = vec!['/'];
        assert(slash@ =~= seq!['/']);
        let first = match find_chars_from(tok, slash.as_slice(), 0) {
            Some(k) => {
                let mut f: Vec<char> = Vec::new();
                let mut i: usize = 0;
                proof {
                    crate::text::lemma_find_from_found(tok@, seq!['/'], 0);
                }
                while i < k
                    invariant
                        i <= k <= tok.len(),
                        f@ == tok@.take(i as int),
                    decreases k - i,
                {
                    f.push(tok[i]);
                    assert(tok@.take(i + 1) =~= tok@.take(i as int).push(tok@[i as int]));
                    i = i + 1;
                }
                f
            },
            None => copy_chars(tok),
        };
        assert(first@ == first_piece(tok@));
        let pi = match parse_usize_chars(first.as_slice()) {
            Some(p) => p,
            None => {
                return None;
            },
        };
        let ti: Option<usize> = match find_chars_from(tok, slash.as_slice(), 0) {
            Some(k) => {
                proof {
                    crate::text::lemma_find_from_found(tok@, seq!['/'], 0);
                }
                let mut rest: Vec<char> = Vec::new();
                let mut i: usize = k + 1;
                while i < tok.len()
                    invariant
                        k + 1 <= i <= tok.len(),
                        rest@ == tok@.subrange(k + 1, i as int),
                    decreases tok.len() - i,
                {
                    rest.push(tok[i]);
                    assert(tok@.subrange(k + 1, i + 1) =~= tok@.subrange(k + 1, i as int).push(
                        tok@[i as int],
                    ));
                    i = i + 1;
                }
                assert(rest@ =~= tok@.skip(k + 1));
                let sp: Vec<char> = match find_chars_from(rest.as_slice(), slash.as_slice(), 0) {
                    Some(k2) => {
                        proof {
                            crate::text::lemma_find_from_found(rest@, seq!['/'], 0);
                        }
                        let mut f: Vec<char> = Vec::new();
                        let mut j: usize = 0;
                        while j < k2
                            invariant
                                j <= k2 <= rest.len(),
                                f@ == rest@.take(j as int),
                            decreases k2 - j,
                        {
                            f.push(rest[j]);
                            assert(rest@.take(j + 1) =~= rest@.take(j as int).push(rest@[j as int]));
                            j = j + 1;
                        }
                        f
                    },
                    None => rest,
                };
                assert(second_piece(tok@) == Some(sp@));
                if sp.len() > 0 {
                    match parse_usize_chars(sp.as_slice()) {
                        Some(t) => Some(t),
                        None => {
                            return None;
                        },
                    }
                } else {
                    None
                }
            },
            None => None,
        };
        assert(uv_index_of(tok@) == Some(ti));
        let key: VertexKey = (pi, ti);
        match find_key(&self.keys, key) {
            Some(n) => Some(n as u32),
            None => {
                if pi < 1 || pi > self.positions.len() {
                    return None;
                }
                match ti {
                    Some(t) => {
                        if t < 1 || t > self.uvs.len() {
                            return None;
                        }
                    },
                    None => {},
                }
                let n = self.out_positions.len() as u32;
                let p = copy_words(&self.positions[pi - 1]);
                proof {
                    lemma_seqss_of_push(self.out_positions@, p);
                }
                self.out_positions.push(p);
                self.keys.push(key);
                Some(n)
            },
        }
    }

    fn step(&mut self, line: &[char]) -> (ok: bool)
        requires
            obj_state_wf(old(self)@),
        ensures
            obj_state_wf(final(self)@),
            ok ==> obj_step(old(self)@, line@) == Some(final(self)@),
            !ok ==> obj_step(old(self)@, line@) is None,
    {
        let w = split_words(line);
        let ghost ws = seqs_of(w@);
        assert(ws == words(line@));
        if w.len() == 0 {
            return true;
        }
        assert(ws[0] == w@[0]@);
        if chars_equal_str(w[0].as_slice(), "v") {
            if w.len() < 4 {
                return false;
            }
            let mut p: Vec<Vec<char>> = Vec::new();
            p.push(copy_chars(w[1].as_slice()));
            p.push(copy_chars(w[2].as_slice()));
            p.push(copy_chars(w[3].as_slice()));
            assert(seqs_of(p@) =~= seq![ws[1], ws[2], ws[3]]);
            proof {
                lemma_seqss_of_push(self.positions@, p);
            }
            self.positions.push(p);
            return true;
        }
        if chars_equal_str(w[0].as_slice(), "vt") {
            if w.len() < 3 {
                return false;
            }
            let mut t: Vec<Vec<char>> = Vec::new();
            t.push(copy_chars(w[1].as_slice()));
            t.push(copy_chars(w[2].as_slice()));
            assert(seqs_of(t@) =~= seq![ws[1], ws[2]]);
            proof {
                lemma_seqss_of_push(self.uvs@, t);
            }
            self.uvs.push(t);
            self.has_uvs = true;
            return true;
        }
        if chars_equal_str(w[0].as_slice(), "f") {
            let ghost st0 = self@;
            let ghost toks = ws.skip(1);
            let mut face: Vec<u32> = Vec::new();
            let mut j: usize = 1;
            assert(toks.take(0) =~= seq![]);
            while j < w.len()
                invariant
                    1 <= j <= w.len(),
                    ws == seqs_of(w@),
                    toks == ws.skip(1),
                    face_fold(st0, toks.take(j - 1)) == Some((self@, face@)),
                    obj_state_wf(self@),
                    st0 == old(self)@,
                    ws == words(line@),
                    ws.len() > 0,
                    ws[0] != "v"@,
                    ws[0] != "vt"@,
                    ws[0] == "f"@,
                decreases w.len() - j,
            {
                let ghost before = self@;
                assert(ws[j as int] == w@[j as int]@);
                match self.face_vertex(w[j].as_slice()) {
                    Some(n) => {
                        face.push(n);
                        assert(toks.take(j as int).drop_last() =~= toks.take(j - 1));
                        assert(toks.take(j as int).last() == ws[j as int]);
                    },
                    None => {
                        assert(toks.take(j as int).drop_last() =~= toks.take(j - 1));
                        assert(toks.take(j as int).last() == ws[j as int]);
                        assert(face_fold(st0, toks.take(j as int)) is None);
                        proof {
                            lemma_face_fold_none_extends(st0, toks, j as int);
                        }
                        assert(face_fold(old(self)@, words(line@).skip(1)) is None);
                        return false;
                    },
                }
                j = j + 1;
            }
            assert(toks.take(w.len() - 1) =~= toks);
            let ghost s_ind = self.indices@;
            let ghost s_state = self@;
            let mut i: usize = 2;
            while i < face.len()
                invariant
                    2 <= i,
                    i <= face.len() || face.len() < 2,
                    face.len() < 2 ==> i == 2,
                    s_ind == s_state.indices,
                    self.indices@ == s_ind + fan_upto(face@, i as int),
                    self@ == (ObjState { indices: self.indices@, ..s_state }),
                decreases face.len() - i,
            {
                self.indices.push(face[0]);
                self.indices.push(face[i - 1]);
                self.indices.push(face[i]);
                assert(fan_upto(face@, i + 1) == fan_upto(face@, i as int) + seq![
                    face@[0],
                    face@[i - 1],
                    face@[i as int],
                ]);
                assert(self.indices@ =~= s_ind + fan_upto(face@, i + 1));
                i = i + 1;
            }
            assert(fan_upto(face@, i as int) == fan(face@));
            assert(self@ == (ObjState { indices: s_state.indices + fan(face@), ..s_state }));
            return true;
        }
        true
    }
}

proof fn lemma_face_fold_none_extends(st: ObjState, toks: Seq<Seq<char>>, j: int)
    requires
        0 <= j <= toks.len(),
        face_fold(st, toks.take(j)) is None,
    ensures
        face_fold(st, toks) is None,
    decreases toks.len() - j,
{
    if j < toks.len() {
        assert(toks.take(j + 1).drop_last() =~= toks.take(j));
        lemma_face_fold_none_extends(st, toks, j + 1);
    } else {
        assert(toks.take(j) =~= toks);
    }
}

proof fn lemma_obj_fold_none_extends(ls: Seq<Seq<char>>, j: int)
    requires
        0 <= j <= ls.len(),
        obj_fold(ls.take(j)) is None,
    ensures
        obj_fold(ls) is None,
    decreases ls.len() - j,
{
    if j < ls.len() {
        assert(ls.take(j + 1).drop_last() =~= ls.take(j));
        lemma_obj_fold_none_extends(ls, j + 1);
    } else {
        assert(ls.take(j) =~= ls);
    }
}

/// The coordinate texts of a vertex list.
pub open spec fn coords3(v: Seq<[String; 3]>) -> Seq<Seq<Seq<char>>> {
    v.map_values(|a: [String; 3]| seq![a@[0]@, a@[1]@, a@[2]@])
}

/// The coordinate texts of a texture coordinate list.
pub open spec fn coords2(v: Seq<[String; 2]>) -> Seq<Seq<Seq<char>>> {
    v.map_values(|a: [String; 2]| seq![a@[0]@, a@[1]@])
}

/// A loaded mesh. Coordinates are the texts of the file's numbers.
pub struct Obj {
    /// One entry per output vertex: the position it copies.
    pub positions: Vec<[String; 3]>,
    /// The file's texture coordinates, where it has `vt` lines.
    pub uvs: Option<Vec<[String; 2]>>,
    /// Three output vertex indices per triangle.
    pub indices: Vec<u32>,
    /// Every position of the file, in order.
    pub source_positions: Vec<[String; 3]>,
}

impl View for Obj {
    type V = ObjView;

    open spec fn view(&self) -> ObjView {
        ObjView {
            positions: coords3(self.positions@),
            uvs: match self.uvs {
                Some(u) => Some(coords2(u@)),
                None => None,
            },
            indices: self.indices@,
            source_positions: coords3(self.source_positions@),
        }
    }
}

fn to_coords3(v: &Vec<Vec<Vec<char>>>) -> (r: Vec<[String; 3]>)
    requires
        forall|i: int| 0 <= i < v.len() ==> (#[trigger] seqss_of(v@)[i]).len() == 3,
    ensures
        coords3(r@) == seqss_of(v@),
{
    let mut r: Vec<[String; 3]> = Vec::new();
    let mut i: usize = 0;
    while i < v.len()
        invariant
            i <= v.len(),
            forall|k: int| 0 <= k < v.len() ==> (#[trigger] seqss_of(v@)[k]).len() == 3,
            coords3(r@) == seqss_of(v@).take(i as int),
        decreases v.len() - i,
    {
        assert(seqss_of(v@)[i as int] == seqs_of(v@[i as int]@));
        let a: [String; 3] = [
            string_of(v[i][0].as_slice()),
            string_of(v[i][1].as_slice()),
            string_of(v[i][2].as_slice()),
        ];
        let ghost before = r@;
        r.push(a);
        assert(seq![a@[0]@, a@[1]@, a@[2]@] =~= seqs_of(v@[i as int]@));
        assert(coords3(r@) =~= coords3(before).push(seq![a@[0]@, a@[1]@, a@[2]@]));
        assert(seqss_of(v@).take(i + 1) =~= seqss_of(v@).take(i as int).push(seqs_of(v@[i as int]@)));
        i = i + 1;
    }
    assert(seqss_of(v@).take(v.len() as int) =~= seqss_of(v@));
    r
}

fn to_coords2(v: &Vec<Vec<Vec<char>>>) -> (r: Vec<[String; 2]>)
    requires
        forall|i: int| 0 <= i < v.len() ==> (#[trigger] seqss_of(v@)[i]).len() == 2,
    ensures
        coords2(r@) == seqss_of(v@),
{
    let mut r: Vec<[String; 2]> = Vec::new();
    let mut i: usize = 0;
    while i < v.len()
        invariant
            i <= v.len(),
            forall|k: int| 0 <= k < v.len() ==> (#[trigger] seqss_of(v@)[k]).len() == 2,
            coords2(r@) == seqss_of(v@).take(i as int),
        decreases v.len() - i,
    {
        assert(seqss_of(v@)[i as int] == seqs_of(v@[i as int]@));
        let a: [String; 2] = [string_of(v[i][0].as_slice()), string_of(v[i][1].as_slice())];
        let ghost before = r@;
        r.push(a);
        assert(seq![a@[0]@, a@[1]@] =~= seqs_of(v@[i as int]@));
        assert(coords2(r@) =~= coords2(before).push(seq![a@[0]@, a@[1]@]));
        assert(seqss_of(v@).take(i + 1) =~= seqss_of(v@).take(i as int).push(seqs_of(v@[i as int]@)));
        i = i + 1;
    }
    assert(seqss_of(v@).take(v.len() as int) =~= seqss_of(v@));
    r
}

/// Loads a mesh from OBJ text; `None` for a malformed text (a short `v`/`vt`
/// line, a bad face index, or an index out of range).
pub fn try_load_obj_from_string(file: &str) -> (r: Option<Obj>)
    ensures
        r matches Some(o) ==> parse_obj(file@) == Some(o@),
        r is None ==> parse_obj(file@) is None,
{
    let text = chars_of(file);
    let ls = split_lines(text.as_slice());
    let ghost lss = seqs_of(ls@);
    let mut b = ObjBuilder::new();
    let mut k: usize = 0;
    assert(lss.take(0) =~= seq![]);
    while k < ls.len()
        invariant
            k <= ls.len(),
            lss == seqs_of(ls@),
            lss == lines(file@),
            obj_fold(lss.take(k as int)) == Some(b@),
            obj_state_wf(b@),
        decreases ls.len() - k,
    {
        assert(lss.take(k + 1).drop_last() =~= lss.take(k as int));
        assert(lss.take(k + 1).last() == ls@[k as int]@);
        if !b.step(ls[k].as_slice()) {
            proof {
                lemma_obj_fold_none_extends(lss, k + 1);
            }
            return None;
        }
        k = k + 1;
    }
    assert(lss.take(ls.len() as int) =~= lss);
    let positions = to_coords3(&b.out_positions);
    let source_positions = to_coords3(&b.positions);
    let uvs = if b.has_uvs {
        Some(to_coords2(&b.uvs))
    } else {
        None
    };
    Some(Obj { positions, uvs, indices: b.indices, source_positions })
}

/// Loads a mesh from OBJ text.
pub fn load_obj_from_string(file: &str) -> (o: Obj)
    requires
        parse_obj(file@) is Some,
    ensures
        parse_obj(file@) == Some(o@),
{
    match try_load_obj_from_string(file) {
        Some(o) => o,
        None => {
            proof {
                assert(false);
            }
            Obj { positions: Vec::new(), uvs: None, indices: Vec::new(), source_positions: Vec::new() }
        },
    }
}

/// Every index of a state refers to one of its output vertices, three per
/// triangle, and there is one key per output vertex.
pub open spec fn indices_in_range(st: ObjState) -> bool {
    &&& st.keys.len() == st.out_positions.len()
    &&& st.indices.len() % 3 == 0
    &&& forall|k: int| 0 <= k < st.indices.len() ==> (#[trigger] st.indices[k]) < st.out_positions.len()
}

proof fn lemma_key_index_bound(keys: Seq<VertexKey>, k: VertexKey, i: int)
    requires
        0 <= i,
    ensures
        key_index_from(keys, k, i) matches Some(n) ==> 0 <= n < keys.len(),
    decreases keys.len() - i,
{
    if i < keys.len() && keys[i] != k {
        lemma_key_index_bound(keys, k, i + 1);
    }
}

proof fn lemma_u32_cast_le(x: int)
    requires
        0 <= x,
    ensures
        (x as u32) as int <= x,
{
}

proof fn lemma_face_vertex_in_range(st: ObjState, tok: Seq<char>)
    requires
        st.keys.len() == st.out_positions.len(),
    ensures
        face_vertex(st, tok) matches Some((s2, n)) ==> {
            &&& (n as int) < s2.out_positions.len()
            &&& st.out_positions.len() <= s2.out_positions.len()
            &&& s2.keys.len() == s2.out_positions.len()
            &&& s2.indices == st.indices
        },
{
    match parse_usize(first_piece(tok)) {
        None => {},
        Some(pi) => match uv_index_of(tok) {
            None => {},
            Some(ti) => {
                let key = (pi, ti);
                lemma_key_index_bound(st.keys, key, 0);
                match key_index_from(st.keys, key, 0) {
                    Some(n) => {
                        lemma_u32_cast_le(n);
                    },
                    None => {
                        lemma_u32_cast_le(st.out_positions.len() as int);
                    },
                }
            },
        },
    }
}

proof fn lemma_face_fold_in_range(st: ObjState, toks: Seq<Seq<char>>)
    requires
        st.keys.len() == st.out_positions.len(),
    ensures
        face_fold(st, toks) matches Some((s2, f)) ==> {
            &&& f.len() == toks.len()
            &&& forall|i: int| 0 <= i < f.len() ==> (#[trigger] f[i] as int) < s2.out_positions.len()
            &&& st.out_positions.len() <= s2.out_positions.len()
            &&& s2.keys.len() == s2.out_positions.len()
            &&& s2.indices == st.indices
        },
    decreases toks.len(),
{
    if toks.len() > 0 {
        lemma_face_fold_in_range(st, toks.drop_last());
        match face_fold(st, toks.drop_last()) {
            None => {},
            Some((s1, f)) => {
                lemma_face_vertex_in_range(s1, toks.last());
            },
        }
    }
}

proof fn lemma_fan_in_range(f: Seq<u32>, k: int, bound: int)
    requires
        0 <= k <= f.len(),
        forall|i: int| 0 <= i < f.len() ==> (#[trigger] f[i] as int) < bound,
    ensures
        fan_upto(f, k).len() % 3 == 0,
        forall|i: int| 0 <= i < fan_upto(f, k).len() ==> (#[trigger] fan_upto(f, k)[i] as int) < bound,
    decreases k,
{
    if k > 2 {
        lemma_fan_in_range(f, k - 1, bound);
        let a = fan_upto(f, k - 1);
        let t = seq![f[0], f[k - 2], f[k - 1]];
        assert forall|i: int| 0 <= i < (a + t).len() implies (#[trigger] (a + t)[i] as int) < bound by {
            if i >= a.len() {
                assert((a + t)[i] == t[i - a.len()]);
            }
        }
    }
}

proof fn lemma_obj_step_in_range(st: ObjState, line: Seq<char>)
    requires
        indices_in_range(st),
    ensures
        obj_step(st, line) matches Some(s2) ==> indices_in_range(s2),
{
    let w = words(line);
    if w.len() > 0 && w[0] == "f"@ {
        lemma_face_fold_in_range(st, w.skip(1));
        match face_fold(st, w.skip(1)) {
            Some((s, f)) => {
                lemma_fan_in_range(f, f.len() as int, s.out_positions.len() as int);
                let r = s.indices + fan(f);
                assert forall|k: int| 0 <= k < r.len() implies (#[trigger] r[k]) < s.out_positions.len() by {
                    if k >= s.indices.len() {
                        assert(r[k] == fan(f)[k - s.indices.len()]);
                    } else {
                        assert(r[k] == st.indices[k]);
                    }
                }
            },
            None => {},
        }
    }
}

proof fn lemma_obj_fold_in_range(ls: Seq<Seq<char>>)
    ensures
        obj_fold(ls) matches Some(st) ==> indices_in_range(st),
    decreases ls.len(),
{
    if ls.len() > 0 {
        lemma_obj_fold_in_range(ls.drop_last());
        match obj_fold(ls.drop_last()) {
            Some(st) => lemma_obj_step_in_range(st, ls.last()),
            None => {},
        }
    }
}

/// A loaded mesh is a list of triangles over its own vertices: the index
/// count is a multiple of three and every index names an output vertex.
pub proof fn law_obj_indices_in_range(text: Seq<char>)
    ensures
        parse_obj(text) matches Some(o) ==> {
            &&& o.indices.len() % 3 == 0
            &&& forall|k: int| 0 <= k < o.indices.len() ==> (#[trigger] o.indices[k]) < o.positions.len()
        },
{
    lemma_obj_fold_in_range(lines(text));
}

/// Triangle `t` of a list of indices taken three by three.
pub open spec fn triangle_at(s: Seq<u32>, t: int) -> (u32, u32, u32) {
    (s[3 * t], s[3 * t + 1], s[3 * t + 2])
}

/// A polygon of `k >= 3` vertices becomes `k - 2` triangles fanned around
/// its first vertex: triangle `t` is its first vertex, then vertices `t + 1`
/// and `t + 2`; a polygon of fewer vertices gives no triangle.
pub proof fn law_fan(f: Seq<u32>)
    ensures
        fan(f).len() == (if f.len() >= 3 {
            3 * (f.len() - 2)
        } else {
            0
        }),
        forall|t: int| 0 <= t < f.len() - 2 ==> #[trigger] triangle_at(fan(f), t) == (f[0], f[t + 1], f[t + 2]),
{
    lemma_fan_upto(f, f.len() as int);
}

proof fn lemma_fan_upto(f: Seq<u32>, k: int)
    requires
        k <= f.len(),
    ensures
        fan_upto(f, k).len() == (if k >= 3 {
            3 * (k - 2)
        } else {
            0
        }),
        forall|t: int| 0 <= t < k - 2 ==> #[trigger] triangle_at(fan_upto(f, k), t) == (f[0], f[t + 1], f[t + 2]),
    decreases k,
{
    if k > 2 {
        lemma_fan_upto(f, k - 1);
        let a = fan_upto(f, k - 1);
        let tri = seq![f[0], f[k - 2], f[k - 1]];
        let r = fan_upto(f, k);
        assert(r == a + tri);
        assert forall|t: int| 0 <= t < k - 2 implies #[trigger] triangle_at(r, t) == (f[0], f[t + 1], f[t + 2]) by {
            if t < k - 3 {
                assert(triangle_at(a, t) == (f[0], f[t + 1], f[t + 2]));
                assert(r[3 * t] == a[3 * t] && r[3 * t + 1] == a[3 * t + 1] && r[3 * t + 2] == a[3 * t + 2]);
            } else {
                assert(a.len() == 3 * t);
                assert(r[3 * t] == tri[0] && r[3 * t + 1] == tri[1] && r[3 * t + 2] == tri[2]);
            }
        }
    }
}

/// A loader state whose output vertices match their keys: one distinct key
/// per output vertex, each naming a position read so far, and each output
/// vertex at the position its key names.
pub open spec fn vertices_match_keys(st: ObjState) -> bool {
    &&& st.keys.len() == st.out_positions.len()
    &&& forall|k: int|
        0 <= k < st.keys.len() ==> 1 <= (#[trigger] st.keys[k]).0 <= st.positions.len() && st.out_positions[k]
            == st.positions[st.keys[k].0 - 1]
    &&& forall|i: int, j: int| 0 <= i < j < st.keys.len() ==> #[trigger] st.keys[i] != #[trigger] st.keys[j]
}

proof fn lemma_key_index_from(keys: Seq<VertexKey>, k: VertexKey, i: int)
    requires
        0 <= i,
    ensures
        key_index_from(keys, k, i) matches Some(n) ==> i <= n < keys.len() && keys[n] == k,
        key_index_from(keys, k, i) is None ==> forall|j: int| i <= j < keys.len() ==> #[trigger] keys[j] != k,
    decreases keys.len() - i,
{
    if i < keys.len() && keys[i] != k {
        lemma_key_index_from(keys, k, i + 1);
    }
}

/// A face vertex token `p/t` (or `p`) gives the output vertex for the key
/// (position `p`, texture coordinate `t`): the one made for that key before,
/// else a new one at position `p` (counted from one). Each key gets exactly
/// one output vertex, at the position it names (while the vertex count fits
/// in the `u32` indices).
pub proof fn law_face_vertex(st: ObjState, tok: Seq<char>)
    requires
        vertices_match_keys(st),
        st.keys.len() <= u32::MAX,
    ensures
        face_vertex(st, tok) matches Some((s2, n)) ==> {
            &&& vertices_match_keys(s2)
            &&& s2.positions == st.positions && s2.uvs == st.uvs && s2.indices == st.indices
            &&& 0 <= n < s2.keys.len()
            &&& parse_usize(first_piece(tok)) matches Some(p) && s2.keys[n as int].0 == p
                && s2.out_positions[n as int] == st.positions[p - 1]
            &&& uv_index_of(tok) matches Some(t) && s2.keys[n as int].1 == t
            &&& st.keys.contains(s2.keys[n as int]) ==> s2 == st
            &&& !st.keys.contains(s2.keys[n as int]) ==> s2.keys == st.keys.push(s2.keys[n as int]) && n
                == st.keys.len()
        },
{
    match parse_usize(first_piece(tok)) {
        None => {},
        Some(pi) => match uv_index_of(tok) {
            None => {},
            Some(ti) => {
                let key = (pi, ti);
                lemma_key_index_from(st.keys, key, 0);
                match key_index_from(st.keys, key, 0) {
                    Some(n) => {
                        assert(st.keys[n] == key);
                        assert((n as u32) as int == n);
                        assert(st.keys.contains(key));
                    },
                    None => {
                        if 1 <= pi <= st.positions.len() && (ti matches Some(t) ==> 1 <= t <= st.uvs.len()) {
                            let s2 = face_vertex(st, tok).unwrap().0;
                            let n = st.out_positions.len();
                            assert((n as u32) as int == n);
                            assert(s2.keys == st.keys.push(key));
                            assert(s2.keys[n as int] == key);
                            assert(!st.keys.contains(key));
                            assert forall|i: int, j: int| 0 <= i < j < s2.keys.len() implies #[trigger] s2.keys[i]
                                != #[trigger] s2.keys[j] by {
                                if j == n {
                                    assert(s2.keys[i] == st.keys[i]);
                                } else {
                                    assert(s2.keys[i] == st.keys[i] && s2.keys[j] == st.keys[j]);
                                }
                            }
                            assert forall|k: int| 0 <= k < s2.keys.len() implies 1 <= (#[trigger] s2.keys[k]).0
                                <= s2.positions.len() && s2.out_positions[k] == s2.positions[s2.keys[k].0 - 1] by {
                                if k < n {
                                    assert(s2.keys[k] == st.keys[k]);
                                    assert(s2.out_positions[k] == st.out_positions[k]);
                                }
                            }
                        }
                    },
                }
            },
        },
    }
}

} // verus!
