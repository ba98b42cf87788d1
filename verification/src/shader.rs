//! Linked shader programs and the locations of their uniforms.
use smallvec::SmallVec;
use smol_str::SmolStr;

use vstd::prelude::*;

use crate::storage::{smol_str_as_str, smol_str_new, smol_str_text};
use crate::text::{chars_eq, chars_of};

verus! {

/// A uniform of a program: its name and location.
pub struct UniformData {
    pub name: SmolStr,
    pub location: i32,
}

/// What loading a program's uniforms does with one active uniform, from its
/// name length and the index of the uniform block it belongs to (-1 for none).
#[derive(Clone, Copy, PartialEq, Eq, Structural, Debug)]
pub enum UniformPreload {
    /// It belongs to a uniform block, which is not supported: it is skipped
    /// with a warning.
    InBlock,
    /// It has no name: it is skipped.
    Unnamed,
    /// Its name and location are read and kept.
    Load,
}

/// Decides whether an active uniform is loaded: only one outside any uniform
/// block and with a name is.
pub fn classify_uniform(name_len: i32, block_index: i32) -> (r: UniformPreload)
    ensures
        (r == UniformPreload::InBlock) == (block_index != -1),
        (r == UniformPreload::Unnamed) == (block_index == -1 && name_len <= 0),
        (r == UniformPreload::Load) == (block_index == -1 && name_len > 0),
{
    if block_index != -1 {
        UniformPreload::InBlock
    } else if name_len <= 0 {
        UniformPreload::Unnamed
    } else {
        UniformPreload::Load
    }
}

impl UniformData {
    pub fn new(name: &str, location: i32) -> (u: Self)
        ensures
            smol_str_text(u.name) == name@,
            u.location == location,
    {
        UniformData { name: smol_str_new(name), location }
    }
}

/// The uniforms of a program, in a `SmallVec` with room for four inline.
#[verifier::external_body]
pub struct UniformDataStorage {
    inner: SmallVec<[UniformData; 4]>,
}

/// The names and locations of the uniforms that a uniform storage holds, in order.
pub uninterp spec fn uniform_items(v: UniformDataStorage) -> Seq<(Seq<char>, i32)>;

/// Calls `SmallVec::new`: no uniforms.
#[verifier::external_body]
fn uniforms_new() -> (r: UniformDataStorage)
    ensures
        uniform_items(r) == Seq::<(Seq<char>, i32)>::empty(),
{
    UniformDataStorage { inner: SmallVec::new() }
}

/// Calls `SmallVec::push`: `u` is added at the end. `push` panics on a
/// capacity overflow (a capacity whose size in bytes exceeds `isize::MAX`),
/// which the bound on the length rules out for items of up to 32 bytes; a
/// failed allocation aborts.
#[verifier::external_body]
fn uniforms_push(v: &mut UniformDataStorage, u: UniformData)
    requires
        uniform_items(*old(v)).len() < usize::MAX / 128,
    ensures
        uniform_items(*final(v)) == uniform_items(*old(v)).push((smol_str_text(u.name), u.location)),
{
    v.inner.push(u);
}

/// Calls `SmallVec::as_slice`: the uniforms, in order.
#[verifier::external_body]
fn uniforms_as_slice(v: &UniformDataStorage) -> (r: &[UniformData])
    ensures
        r@.map_values(|u: UniformData| (smol_str_text(u.name), u.location)) == uniform_items(*v),
{
    v.inner.as_slice()
}

/// The location of the first uniform called `name`.
pub open spec fn uniform_location_in(us: Seq<(Seq<char>, i32)>, name: Seq<char>) -> Option<i32>
    decreases us.len(),
{
    if us.len() == 0 {
        None
    } else if us[0].0 == name {
        Some(us[0].1)
    } else {
        uniform_location_in(us.drop_first(), name)
    }
}

/// A linked program: its OpenGL name and its uniforms outside uniform blocks.
pub struct Shader {
    id: u32,
    uniform_data_storage: UniformDataStorage,
}

impl UniformDataStorage {
    /// A storage holding `uniforms`, in order.
    pub fn from_vec(uniforms: Vec<UniformData>) -> (r: Self)
        requires
            uniforms@.len() < usize::MAX / 128,
        ensures
            uniform_items(r) == uniforms@.map_values(|u: UniformData| (smol_str_text(u.name), u.location)),
    {
        let ghost items = uniforms@.map_values(|u: UniformData| (smol_str_text(u.name), u.location));
        let ghost orig = uniforms@;
        let mut r = uniforms_new();
        let mut rest = uniforms;
        let mut i: usize = 0;
        let n = rest.len();
        while rest.len() > 0
            invariant
                n == items.len(),
                n == orig.len(),
                n < usize::MAX / 128,
                i + rest@.len() == n,
                rest@ == orig.skip(i as int),
                items == orig.map_values(|u: UniformData| (smol_str_text(u.name), u.location)),
                uniform_items(r) == items.take(i as int),
            decreases rest.len(),
        {
            let u = rest.remove(0);
            assert(u == orig[i as int]);
            uniforms_push(&mut r, u);
            assert(items.take(i + 1) =~= items.take(i as int).push(items[i as int]));
            assert(rest@ =~= orig.skip(i + 1));
            i = i + 1;
        }
        assert(items.take(n as int) =~= items);
        r
    }
}

impl Shader {
    pub closed spec fn spec_id(&self) -> u32 {
        self.id
    }

    pub closed spec fn spec_uniforms(&self) -> Seq<(Seq<char>, i32)> {
        uniform_items(self.uniform_data_storage)
    }

    /// The program with OpenGL name `id` and the uniforms read from it.
    pub fn new(id: u32, uniform_data_storage: UniformDataStorage) -> (s: Self)
        ensures
            s.spec_id() == id,
            s.spec_uniforms() == uniform_items(uniform_data_storage),
    {
        Shader { id, uniform_data_storage }
    }

    pub fn id(&self) -> (r: u32)
        ensures
            r == self.spec_id(),
    {
        self.id
    }

    /// The location of the uniform called `name`, if the program has one.
    pub fn find_uniform_location(&self, name: &str) -> (r: Option<i32>)
        ensures
            r == uniform_location_in(self.spec_uniforms(), name@),
    {
        let us = uniforms_as_slice(&self.uniform_data_storage);
        let ghost items = self.spec_uniforms();
        let key = chars_of(name);
        let mut i: usize = 0;
        assert(items.skip(0) =~= items);
        while i < us.len()
            invariant
                i <= us.len(),
                items == us@.map_values(|u: UniformData| (smol_str_text(u.name), u.location)),
                key@ == name@,
                items == self.spec_uniforms(),
                uniform_location_in(items, name@) == uniform_location_in(items.skip(i as int), name@),
            decreases us.len() - i,
        {
            let ghost rest = items.skip(i as int);
            assert(rest.drop_first() =~= items.skip(i + 1));
            assert(rest[0] == (smol_str_text(us@[i as int].name), us@[i as int].location));
            let element_name = chars_of(smol_str_as_str(&us[i].name));
            if chars_eq(element_name.as_slice(), key.as_slice()) {
                return Some(us[i].location);
            }
            i = i + 1;
        }
        assert(items.skip(i as int) =~= seq![]);
        None
    }
}

/// Looking a uniform up by name finds the first uniform of that name and
/// gives its location; it finds nothing exactly when no uniform has the name.
pub proof fn law_uniform_lookup(us: Seq<(Seq<char>, i32)>, name: Seq<char>)
    ensures
        uniform_location_in(us, name) matches Some(l) ==> exists|i: int|
            0 <= i < us.len() && (#[trigger] us[i]).0 == name && us[i].1 == l && forall|j: int|
                0 <= j < i ==> (#[trigger] us[j]).0 != name,
        uniform_location_in(us, name) is None <==> forall|i: int| 0 <= i < us.len() ==> (#[trigger] us[i]).0 != name,
    decreases us.len(),
{
    if us.len() > 0 {
        let rest = us.drop_first();
        law_uniform_lookup(rest, name);
        assert forall|i: int| 0 < i < us.len() implies us[i] == #[trigger] rest[i - 1] by {}
        if us[0].0 == name {
            assert(0 <= 0 < us.len() && us[0].0 == name);
        } else {
            if let Some(l) = uniform_location_in(rest, name) {
                let i = choose|i: int|
                    0 <= i < rest.len() && (#[trigger] rest[i]).0 == name && rest[i].1 == l && forall|j: int|
                        0 <= j < i ==> (#[trigger] rest[j]).0 != name;
                assert(us[i + 1] == rest[i]);
                assert forall|j: int| 0 <= j < i + 1 implies (#[trigger] us[j]).0 != name by {
                    if j > 0 {
                        assert(us[j] == rest[j - 1]);
                    }
                }
            } else {
                assert forall|i: int| 0 <= i < us.len() implies (#[trigger] us[i]).0 != name by {
                    if i > 0 {
                        assert(us[i] == rest[i - 1]);
                    }
                }
            }
            if forall|i: int| 0 <= i < us.len() ==> (#[trigger] us[i]).0 != name {
                assert forall|i: int| 0 <= i < rest.len() implies (#[trigger] rest[i]).0 != name by {
                    assert(us[i + 1] == rest[i]);
                }
            }
        }
    }
}

} // verus!
