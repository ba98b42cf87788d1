//! The small-string and small-vector types that scene data is stored in.
use smallvec::SmallVec;
use smol_str::SmolStr;

use vstd::prelude::*;

use crate::scene_data::{NodeID, TextureID};

verus! {

#[verifier::external_type_specification]
#[verifier::external_body]
pub struct ExSmolStr(SmolStr);

/// The text that a `SmolStr` holds.
pub uninterp spec fn smol_str_text(s: SmolStr) -> Seq<char>;

/// Calls `SmolStr::new`, which stores a copy of `text` (inline when short,
/// else on the heap); the result holds `text`.
#[verifier::external_body]
pub(crate) fn smol_str_new(text: &str) -> (r: SmolStr)
    ensures
        smol_str_text(r) == text@,
{
    SmolStr::new(text)
}

/// Calls `SmolStr::as_str`, which hands out the stored text.
#[verifier::external_body]
pub(crate) fn smol_str_as_str(s: &SmolStr) -> (r: &str)
    ensures
        r@ == smol_str_text(*s),
{
    s.as_str()
}

/// The ids of a node's children, in a `SmallVec` with room for three inline.
#[verifier::external_body]
pub struct NodeIDStorage {
    inner: SmallVec<[NodeID; 3]>,
}

/// The indices of the node ids that a node id storage holds, in order.
pub uninterp spec fn node_id_items(v: NodeIDStorage) -> Seq<usize>;

/// Calls `SmallVec::new`: no ids.
#[verifier::external_body]
pub(crate) fn node_ids_new() -> (r: NodeIDStorage)
    ensures
        node_id_items(r) == Seq::<usize>::empty(),
{
    NodeIDStorage { inner: SmallVec::new() }
}

/// Calls `SmallVec::push`: `id` is added at the end. `push` panics on a
/// capacity overflow (a capacity whose size in bytes exceeds `isize::MAX`),
/// which the bound on the length rules out for items of up to 32 bytes; a
/// failed allocation aborts.
#[verifier::external_body]
pub(crate) fn node_ids_push(v: &mut NodeIDStorage, id: NodeID)
    requires
        node_id_items(*old(v)).len() < usize::MAX / 128,
    ensures
        node_id_items(*final(v)) == node_id_items(*old(v)).push(id.index),
{
    v.inner.push(id);
}

/// Calls `SmallVec::as_slice`: the ids, in order.
#[verifier::external_body]
pub(crate) fn node_ids_as_slice(v: &NodeIDStorage) -> (r: &[NodeID])
    ensures
        r@.map_values(|x: NodeID| x.index) == node_id_items(*v),
{
    v.inner.as_slice()
}

/// The ids of a material's textures, in a `SmallVec` with room for three inline.
#[verifier::external_body]
pub struct TextureIDStorage {
    inner: SmallVec<[TextureID; 3]>,
}

/// The indices of the texture ids that a texture id storage holds, in order.
pub uninterp spec fn texture_id_items(v: TextureIDStorage) -> Seq<usize>;

/// Calls `SmallVec::new`: no ids.
#[verifier::external_body]
pub(crate) fn texture_ids_new() -> (r: TextureIDStorage)
    ensures
        texture_id_items(r) == Seq::<usize>::empty(),
{
    TextureIDStorage { inner: SmallVec::new() }
}

/// Calls `SmallVec::push`: `id` is added at the end. `push` panics on a
/// capacity overflow (a capacity whose size in bytes exceeds `isize::MAX`),
/// which the bound on the length rules out for items of up to 32 bytes; a
/// failed allocation aborts.
#[verifier::external_body]
pub(crate) fn texture_ids_push(v: &mut TextureIDStorage, id: TextureID)
    requires
        texture_id_items(*old(v)).len() < usize::MAX / 128,
    ensures
        texture_id_items(*final(v)) == texture_id_items(*old(v)).push(id.index),
{
    v.inner.push(id);
}

/// Calls `SmallVec::as_slice`: the ids, in order.
#[verifier::external_body]
pub(crate) fn texture_ids_as_slice(v: &TextureIDStorage) -> (r: &[TextureID])
    ensures
        r@.map_values(|x: TextureID| x.index) == texture_id_items(*v),
{
    v.inner.as_slice()
}

} // verus!
