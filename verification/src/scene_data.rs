//! The resources of a scene: named shaders and textures, materials, and the
//! nodes of the scene graph.
use smol_str::SmolStr;

use vstd::prelude::*;

use crate::material_properties::MaterialProperties;
use crate::mesh::Mesh;
use crate::resource_id::ResourceID;
use crate::shader::Shader;
use crate::storage::{
    node_id_items, node_ids_as_slice, node_ids_new, node_ids_push, smol_str_as_str, smol_str_new,
    smol_str_text, texture_id_items, texture_ids_as_slice, texture_ids_new, texture_ids_push,
    NodeIDStorage, TextureIDStorage,
};
use crate::texture::Texture2D;

verus! {

/// Marks the ids of scene nodes.
pub struct NodeResource;

pub type MaterialID = ResourceID<Material>;

pub type TextureID = ResourceID<NamedTexture>;

pub type ShaderID = ResourceID<NamedShader>;

pub type NodeID = ResourceID<NodeResource>;

pub type MeshID = ResourceID<Mesh>;

pub struct NamedShader {
    pub shader: Shader,
    pub name: SmolStr,
}

pub struct NamedTexture {
    pub texture: Texture2D,
    pub name: SmolStr,
}

pub struct Material {
    pub texture_ids: TextureIDStorage,
    pub name: SmolStr,
    pub material_properties: MaterialProperties,
    pub shader_id: ShaderID,
}

/// A node of the scene graph; `X` is its transform.
pub struct Node<X> {
    pub transform: X,
    pub children_ids: NodeIDStorage,
    pub mesh_id: MeshID,
    pub material_id: MaterialID,
}

impl NodeIDStorage {
    /// A storage holding `ids`, in order.
    pub fn from_ids(ids: &[NodeID]) -> (r: Self)
        requires
            ids@.len() < usize::MAX / 128,
        ensures
            node_id_items(r) == ids@.map_values(|x: NodeID| x.index),
    {
        let mut r = node_ids_new();
        let mut i: usize = 0;
        while i < ids.len()
            invariant
                i <= ids.len(),
                ids@.len() < usize::MAX / 128,
                node_id_items(r) == ids@.map_values(|x: NodeID| x.index).take(i as int),
            decreases ids.len() - i,
        {
            node_ids_push(&mut r, ids[i]);
            assert(ids@.map_values(|x: NodeID| x.index).take(i + 1) =~= ids@.map_values(
                |x: NodeID| x.index,
            ).take(i as int).push(ids@[i as int].index));
            i = i + 1;
        }
        assert(ids@.map_values(|x: NodeID| x.index).take(ids.len() as int) =~= ids@.map_values(
            |x: NodeID| x.index,
        ));
        r
    }
}

impl TextureIDStorage {
    /// An empty storage.
    pub fn new() -> (r: Self)
        ensures
            texture_id_items(r) == Seq::<usize>::empty(),
    {
        texture_ids_new()
    }
}

impl<X> Node<X> {
    /// The indices of the node's children, in order.
    pub closed spec fn children_spec(&self) -> Seq<usize> {
        node_id_items(self.children_ids)
    }

    pub fn new(transform: X, children_ids: NodeIDStorage, mesh_id: MeshID, material_id: MaterialID) -> (n: Self)
        ensures
            n.transform == transform,
            n.children_spec() == node_id_items(children_ids),
            n.mesh_id == mesh_id,
            n.material_id == material_id,
    {
        Self { transform, children_ids, mesh_id, material_id }
    }

    /// The ids of the node's children, in order.
    pub fn children_iter(&self) -> (r: &[NodeID])
        ensures
            r@.map_values(|x: NodeID| x.index) == self.children_spec(),
    {
        node_ids_as_slice(&self.children_ids)
    }
}

impl Material {
    pub fn new(shader_id: ShaderID, mat_props: &MaterialProperties, name: &str, texture_ids: TextureIDStorage) -> (m: Self)
        ensures
            m.material_properties == *mat_props,
            m.shader_id == shader_id,
            smol_str_text(m.name) == name@,
            texture_id_items(m.texture_ids) == texture_id_items(texture_ids),
    {
        Self { material_properties: *mat_props, shader_id: shader_id, name: smol_str_new(name), texture_ids: texture_ids }
    }

    /// The ids of the material's textures, in order.
    pub fn texture_iter(&self) -> (r: &[TextureID])
        ensures
            r@.map_values(|x: TextureID| x.index) == texture_id_items(self.texture_ids),
    {
        texture_ids_as_slice(&self.texture_ids)
    }

    /// Adds a texture to the material.
    pub fn push_texture(&mut self, id: TextureID)
        requires
            texture_id_items(old(self).texture_ids).len() < usize::MAX / 128,
        ensures
            texture_id_items(final(self).texture_ids) == texture_id_items(old(self).texture_ids).push(id.index),
            final(self).name == old(self).name,
            final(self).material_properties == old(self).material_properties,
            final(self).shader_id == old(self).shader_id,
    {
        texture_ids_push(&mut self.texture_ids, id);
    }

    /// The material's name.
    pub fn name(&self) -> (r: &str)
        ensures
            r@ == smol_str_text(self.name),
    {
        smol_str_as_str(&self.name)
    }
}

impl NamedShader {
    pub fn new(shader: Shader, name: &str) -> (s: Self)
        ensures
            s.shader == shader,
            smol_str_text(s.name) == name@,
    {
        NamedShader { shader, name: smol_str_new(name) }
    }

    pub fn name(&self) -> (r: &str)
        ensures
            r@ == smol_str_text(self.name),
    {
        smol_str_as_str(&self.name)
    }
}

impl NamedTexture {
    pub fn new(texture: Texture2D, name: &str) -> (t: Self)
        ensures
            t.texture == texture,
            smol_str_text(t.name) == name@,
    {
        NamedTexture { texture, name: smol_str_new(name) }
    }

    pub fn name(&self) -> (r: &str)
        ensures
            r@ == smol_str_text(self.name),
    {
        smol_str_as_str(&self.name)
    }
}

} // verus!
