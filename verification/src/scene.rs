//! The scene: arrays of meshes, shaders, textures, materials and nodes that
//! refer to each other by typed index, the root nodes of the scene graph,
//! and the rules that pick a shader and render state for an imported material.
use std::collections::HashMap;

use vstd::prelude::*;

use crate::material_properties::{CullMode, DepthTestMode, MaterialProperties, SurfaceType};
use crate::mesh::Mesh;
use crate::scene_data::{
    Material, MaterialID, MeshID, NamedShader, NamedTexture, Node, NodeID, ShaderID, TextureID,
};
use crate::shader::{uniform_location_in, Shader};
use crate::shader_source::ShaderSource;
use crate::storage::{smol_str_as_str, smol_str_new, smol_str_text, texture_id_items};
use crate::text::{chars_eq, chars_of, string_of};
use crate::texture::{StorageFormat, Texture2D};

verus! {

/// A shader file's name and the names of the materials that use that shader.
pub struct ShaderMaterialMapping {
    pub shader_name: String,
    pub associated_materials: Vec<String>,
}

/// Shaders that a scene loads besides its built-in ones: the paths of their
/// source files, and which materials use which of them.
pub struct CustomShaders<'a> {
    pub shader_file_paths: &'a [String],
    pub mapping: &'a [ShaderMaterialMapping],
}

/// What a shader/material mapping holds.
pub struct MappingView {
    pub shader_name: Seq<char>,
    pub materials: Seq<Seq<char>>,
}

impl ShaderMaterialMapping {
    pub open spec fn mapping_view(&self) -> MappingView {
        MappingView {
            shader_name: self.shader_name@,
            materials: self.associated_materials@.map_values(|s: String| s@),
        }
    }

    pub fn new(shader_name: &str, associated_materials: &[&str]) -> (m: Self)
        ensures
            m.shader_name@ == shader_name@,
            m.associated_materials@.map_values(|s: String| s@) == associated_materials@.map_values(
                |s: &str| s@,
            ),
    {
        let mut v: Vec<String> = Vec::new();
        let mut i: usize = 0;
        while i < associated_materials.len()
            invariant
                i <= associated_materials.len(),
                v@.map_values(|s: String| s@) == associated_materials@.map_values(|s: &str| s@).take(
                    i as int,
                ),
            decreases associated_materials.len() - i,
        {
            let s = string_of(chars_of(associated_materials[i]).as_slice());
            let ghost before = v@;
            v.push(s);
            assert(v@.map_values(|s: String| s@) =~= before.map_values(|s: String| s@).push(
                associated_materials@[i as int]@,
            ));
            assert(associated_materials@.map_values(|s: &str| s@).take(i + 1)
                =~= associated_materials@.map_values(|s: &str| s@).take(i as int).push(
                associated_materials@[i as int]@,
            ));
            i = i + 1;
        }
        assert(associated_materials@.map_values(|s: &str| s@).take(associated_materials.len() as int)
            =~= associated_materials@.map_values(|s: &str| s@));
        Self { shader_name: string_of(chars_of(shader_name).as_slice()), associated_materials: v }
    }

    /// A copy of the mapping.
    pub fn copy(&self) -> (m: Self)
        ensures
            m.mapping_view() == self.mapping_view(),
    {
        let mut v: Vec<String> = Vec::new();
        let mut i: usize = 0;
        while i < self.associated_materials.len()
            invariant
                i <= self.associated_materials.len(),
                v@.map_values(|s: String| s@) == self.associated_materials@.map_values(
                    |s: String| s@,
                ).take(i as int),
            decreases self.associated_materials.len() - i,
        {
            let s = self.associated_materials[i].clone();
            let ghost before = v@;
            v.push(s);
            assert(v@.map_values(|s: String| s@) =~= before.map_values(|s: String| s@).push(
                self.associated_materials@[i as int]@,
            ));
            assert(self.associated_materials@.map_values(|s: String| s@).take(i + 1)
                =~= self.associated_materials@.map_values(|s: String| s@).take(i as int).push(
                self.associated_materials@[i as int]@,
            ));
            i = i + 1;
        }
        assert(self.associated_materials@.map_values(|s: String| s@).take(
            self.associated_materials.len() as int,
        ) =~= self.associated_materials@.map_values(|s: String| s@));
        assert(v@.map_values(|s: String| s@) =~= self.mapping_view().materials);
        Self { shader_name: self.shader_name.clone(), associated_materials: v }
    }
}

/// The textures that every material starts from, where its shader samples them.
#[derive(Clone, Copy)]
pub struct DefaultTextures {
    pub albedo: TextureID,
    pub normal: TextureID,
    pub metallic_roughness: TextureID,
}

impl DefaultTextures {
    pub fn new(albedo: TextureID, normal: TextureID, metallic_roughness: TextureID) -> (d: Self)
        ensures
            d.albedo == albedo,
            d.normal == normal,
            d.metallic_roughness == metallic_roughness,
    {
        Self { albedo, normal, metallic_roughness }
    }

    /// The three ids in order: albedo, normal, metallic-roughness.
    pub open spec fn id_seq(&self) -> Seq<TextureID> {
        seq![self.albedo, self.normal, self.metallic_roughness]
    }

    pub fn iter(&self) -> (r: [TextureID; 3])
        ensures
            r@ == self.id_seq(),
    {
        let r = [self.albedo, self.normal, self.metallic_roughness];
        assert(r@ =~= self.id_seq());
        r
    }
}

/// How a glTF material blends.
#[derive(Clone, Copy, PartialEq, Eq, Structural, Debug)]
pub enum AlphaMode {
    Opaque,
    Mask,
    Blend,
}

/// The name of the default albedo texture, and of the sampler it is bound to.
pub open spec fn albedo_texture_name() -> Seq<char> {
    "albedo_map"@
}

/// The name of the default normal texture, and of the sampler it is bound to.
pub open spec fn normal_texture_name() -> Seq<char> {
    "normal_map"@
}

/// The name of the default metallic-roughness texture (green holds roughness,
/// blue metalness), and of the sampler it is bound to.
pub open spec fn metallic_roughness_texture_name() -> Seq<char> {
    "mettalic_roughness_map"@
}

/// A sampler of the scene shaders that an imported material can supply a
/// texture of its own for.
#[derive(Clone, Copy, PartialEq, Eq, Structural, Debug)]
pub enum MaterialTextureSlot {
    Albedo,
    Normal,
    MetallicRoughness,
}

impl MaterialTextureSlot {
    /// The sampler's name, which is also the name the texture is stored under.
    pub open spec fn spec_name(self) -> Seq<char> {
        match self {
            MaterialTextureSlot::Albedo => albedo_texture_name(),
            MaterialTextureSlot::Normal => normal_texture_name(),
            MaterialTextureSlot::MetallicRoughness => metallic_roughness_texture_name(),
        }
    }

    /// The storage format an imported texture for the sampler gets: RGBA for
    /// albedo, RGB for the others.
    pub open spec fn spec_storage_format(self) -> StorageFormat {
        match self {
            MaterialTextureSlot::Albedo => StorageFormat::RGBA,
            _ => StorageFormat::RGB,
        }
    }

    pub fn name(&self) -> (r: &'static str)
        ensures
            r@ == self.spec_name(),
    {
        match self {
            MaterialTextureSlot::Albedo => "albedo_map",
            MaterialTextureSlot::Normal => "normal_map",
            MaterialTextureSlot::MetallicRoughness => "mettalic_roughness_map",
        }
    }

    pub fn storage_format(&self) -> (r: StorageFormat)
        ensures
            r == self.spec_storage_format(),
    {
        match self {
            MaterialTextureSlot::Albedo => StorageFormat::RGBA,
            _ => StorageFormat::RGB,
        }
    }
}

/// `slot` alone where the shader samples it and the material has a texture for it.
pub open spec fn slot_if(slot: MaterialTextureSlot, sampled: bool, present: bool) -> Seq<MaterialTextureSlot> {
    if sampled && present {
        seq![slot]
    } else {
        seq![]
    }
}

/// The samplers that an imported material gets textures of its own for, in
/// the order albedo, normal, metallic-roughness: those that the material's
/// shader samples and that the material has a texture for.
pub open spec fn material_texture_slots(
    sampled: (bool, bool, bool),
    present: (bool, bool, bool),
) -> Seq<MaterialTextureSlot> {
    slot_if(MaterialTextureSlot::Albedo, sampled.0, present.0)
        + slot_if(MaterialTextureSlot::Normal, sampled.1, present.1)
        + slot_if(MaterialTextureSlot::MetallicRoughness, sampled.2, present.2)
}

/// Chooses which of an imported material's textures it gets, from whether its
/// shader samples each slot (`sampled`) and whether the material has a
/// texture for it (`present`).
pub fn choose_material_textures(sampled: (bool, bool, bool), present: (bool, bool, bool)) -> (r: Vec<
    MaterialTextureSlot,
>)
    ensures
        r@ == material_texture_slots(sampled, present),
{
    let mut r: Vec<MaterialTextureSlot> = Vec::new();
    if sampled.0 && present.0 {
        r.push(MaterialTextureSlot::Albedo);
    }
    if sampled.1 && present.1 {
        r.push(MaterialTextureSlot::Normal);
    }
    if sampled.2 && present.2 {
        r.push(MaterialTextureSlot::MetallicRoughness);
    }
    assert(r@ =~= material_texture_slots(sampled, present));
    r
}

pub struct Scene<X> {
    nodes: Vec<Node<X>>,
    meshes: Vec<Mesh>,
    shaders: Vec<NamedShader>,
    textures: Vec<NamedTexture>,
    materials: Vec<Material>,
    node_roots: Vec<NodeID>,
    shader_mat_props: Vec<(smol_str::SmolStr, MaterialProperties)>,
    default_texture_ids: DefaultTextures,
    shader_name_mapping: Vec<ShaderMaterialMapping>,
    default_opaque_shader: (ShaderID, MaterialProperties),
    default_transparent_shader: (ShaderID, MaterialProperties),
}

/// The render state of the first entry named `name`.
pub open spec fn props_lookup(entries: Seq<(Seq<char>, MaterialProperties)>, name: Seq<char>) -> Option<
    MaterialProperties,
>
    decreases entries.len(),
{
    if entries.len() == 0 {
        None
    } else if entries[0].0 == name {
        Some(entries[0].1)
    } else {
        props_lookup(entries.drop_first(), name)
    }
}

/// The first position at or after `i` of a name in a list of names.
pub open spec fn name_position(names: Seq<Seq<char>>, name: Seq<char>, i: int) -> Option<int>
    decreases names.len() - i,
{
    if i < 0 || i >= names.len() {
        None
    } else if names[i] == name {
        Some(i)
    } else {
        name_position(names, name, i + 1)
    }
}

/// The first mapping at or after `i` that lists `material` among its materials.
pub open spec fn mapping_for(maps: Seq<MappingView>, material: Seq<char>, i: int) -> Option<int>
    decreases maps.len() - i,
{
    if i < 0 || i >= maps.len() {
        None
    } else if maps[i].materials.contains(material) {
        Some(i)
    } else {
        mapping_for(maps, material, i + 1)
    }
}

/// The ids among `ids` whose texture name the shader has a uniform for, in order.
pub open spec fn required_textures(ids: Seq<TextureID>, names: Seq<Seq<char>>, uniforms: Seq<(Seq<char>, i32)>) -> Seq<usize>
    decreases ids.len(),
{
    if ids.len() == 0 {
        seq![]
    } else {
        let rest = required_textures(ids.drop_last(), names, uniforms);
        let id = ids.last();
        if 0 <= id.index < names.len() && uniform_location_in(uniforms, names[id.index as int]) is Some {
            rest.push(id.index)
        } else {
            rest
        }
    }
}

/// The render state of a material drawn with one of the default scene
/// shaders: its surface type follows its alpha mode and it is culled unless
/// it is double sided.
pub open spec fn gltf_material_props(p: MaterialProperties, alpha: AlphaMode, double_sided: bool) -> MaterialProperties {
    MaterialProperties {
        surface_type: if alpha == AlphaMode::Opaque {
            SurfaceType::Opaque
        } else {
            SurfaceType::Transparent
        },
        cull_mode: if double_sided {
            CullMode::Disabled
        } else {
            CullMode::Back
        },
        ..p
    }
}

/// The render state of the default transparent shader: that of the scene
/// shader, transparent, without depth writes, with a `LessEqual` depth test.
pub open spec fn transparent_props(p: MaterialProperties) -> MaterialProperties {
    MaterialProperties {
        surface_type: SurfaceType::Transparent,
        depth_writing_enabled: false,
        depth_test_mode: DepthTestMode::LessEqual,
        ..p
    }
}

/// The render state recorded for `name` after recording `entries` in order
/// (later ones replace earlier ones) on top of `base`.
pub open spec fn custom_props_lookup(entries: Seq<(Seq<char>, MaterialProperties)>, name: Seq<char>, base: Seq<(Seq<char>, MaterialProperties)>) -> Option<MaterialProperties>
    decreases entries.len(),
{
    if entries.len() == 0 {
        props_lookup(base, name)
    } else if entries.last().0 == name {
        Some(entries.last().1)
    } else {
        custom_props_lookup(entries.drop_last(), name, base)
    }
}

proof fn lemma_mapping_for_bounds(maps: Seq<MappingView>, material: Seq<char>, i: int)
    ensures
        mapping_for(maps, material, i) matches Some(m) ==> i <= m < maps.len(),
    decreases maps.len() - i,
{
    if i < 0 || i >= maps.len() {
    } else if maps[i].materials.contains(material) {
    } else {
        lemma_mapping_for_bounds(maps, material, i + 1);
    }
}

proof fn lemma_name_position_bounds(names: Seq<Seq<char>>, name: Seq<char>, i: int)
    ensures
        name_position(names, name, i) matches Some(p) ==> i <= p < names.len() && names[p] == name,
    decreases names.len() - i,
{
    if i < 0 || i >= names.len() {
    } else if names[i] == name {
    } else {
        lemma_name_position_bounds(names, name, i + 1);
    }
}

impl<X> Scene<X> {
    pub closed spec fn spec_nodes(&self) -> Seq<Node<X>> {
        self.nodes@
    }

    pub closed spec fn spec_meshes(&self) -> Seq<Mesh> {
        self.meshes@
    }

    pub closed spec fn spec_shaders(&self) -> Seq<NamedShader> {
        self.shaders@
    }

    pub closed spec fn spec_textures(&self) -> Seq<NamedTexture> {
        self.textures@
    }

    pub closed spec fn spec_materials(&self) -> Seq<Material> {
        self.materials@
    }

    pub closed spec fn spec_roots(&self) -> Seq<NodeID> {
        self.node_roots@
    }

    /// The names of the shaders, in order.
    pub open spec fn shader_names(&self) -> Seq<Seq<char>> {
        self.spec_shaders().map_values(|s: NamedShader| smol_str_text(s.name))
    }

    /// The names of the textures, in order.
    pub open spec fn texture_names(&self) -> Seq<Seq<char>> {
        self.spec_textures().map_values(|t: NamedTexture| smol_str_text(t.name))
    }

    /// The render state recorded for each custom shader, by shader name.
    pub closed spec fn spec_shader_props(&self) -> Seq<(Seq<char>, MaterialProperties)> {
        self.shader_mat_props@.map_values(
            |e: (smol_str::SmolStr, MaterialProperties)| (smol_str_text(e.0), e.1),
        )
    }

    pub closed spec fn spec_mappings(&self) -> Seq<MappingView> {
        self.shader_name_mapping@.map_values(|m: ShaderMaterialMapping| m.mapping_view())
    }

    pub closed spec fn spec_default_textures(&self) -> DefaultTextures {
        self.default_texture_ids
    }

    pub closed spec fn spec_default_opaque(&self) -> (ShaderID, MaterialProperties) {
        self.default_opaque_shader
    }

    pub closed spec fn spec_default_transparent(&self) -> (ShaderID, MaterialProperties) {
        self.default_transparent_shader
    }

    /// The default shaders and textures are in the scene.
    pub open spec fn wf(&self) -> bool {
        &&& self.spec_default_opaque().0.index < self.spec_shaders().len()
        &&& self.spec_default_transparent().0.index < self.spec_shaders().len()
        &&& self.spec_default_textures().albedo.index < self.spec_textures().len()
        &&& self.spec_default_textures().normal.index < self.spec_textures().len()
        &&& self.spec_default_textures().metallic_roughness.index < self.spec_textures().len()
    }

    /// Nothing but the arrays that `pred` names changed from `old` to `self`.
    pub open spec fn same_except(&self, old: &Self, nodes: bool, meshes: bool, shaders: bool, textures: bool, materials: bool, roots: bool) -> bool {
        &&& (!nodes ==> self.spec_nodes() == old.spec_nodes())
        &&& (!meshes ==> self.spec_meshes() == old.spec_meshes())
        &&& (!shaders ==> self.spec_shaders() == old.spec_shaders())
        &&& (!textures ==> self.spec_textures() == old.spec_textures())
        &&& (!materials ==> self.spec_materials() == old.spec_materials())
        &&& (!roots ==> self.spec_roots() == old.spec_roots())
        &&& self.spec_shader_props() == old.spec_shader_props()
        &&& self.spec_mappings() == old.spec_mappings()
        &&& self.spec_default_textures() == old.spec_default_textures()
        &&& self.spec_default_opaque() == old.spec_default_opaque()
        &&& self.spec_default_transparent() == old.spec_default_transparent()
    }

    /// A scene with the default textures (ids `0`, `1`, `2`, named
    /// `albedo_map`, `normal_map` and `mettalic_roughness_map`) and the scene shader compiled twice: as the default
    /// opaque shader (id `0`) with the scene shader's render state, and as the
    /// default transparent shader (id `1`) with `transparent_props` of it.
    pub fn new(
        albedo: Texture2D,
        normal: Texture2D,
        metallic_roughness: Texture2D,
        opaque_shader: Shader,
        transparent_shader: Shader,
        scene_shader_props: MaterialProperties,
    ) -> (s: Self)
        ensures
            s.wf(),
            s.spec_nodes().len() == 0,
            s.spec_meshes().len() == 0,
            s.spec_materials().len() == 0,
            s.spec_roots().len() == 0,
            s.spec_textures().len() == 3,
            s.spec_textures()[0].texture == albedo,
            s.spec_textures()[1].texture == normal,
            s.spec_textures()[2].texture == metallic_roughness,
            s.texture_names() == seq![albedo_texture_name(), normal_texture_name(), metallic_roughness_texture_name()],
            s.spec_shaders().len() == 2,
            s.spec_shaders()[0].shader == opaque_shader,
            s.spec_shaders()[1].shader == transparent_shader,
            smol_str_text(s.spec_shaders()[0].name) == "Default opaque scene shader"@,
            smol_str_text(s.spec_shaders()[1].name) == "Default transparent scene shader"@,
            s.spec_default_textures().albedo.index == 0,
            s.spec_default_textures().normal.index == 1,
            s.spec_default_textures().metallic_roughness.index == 2,
            s.spec_default_opaque() == (ShaderID::spec_new(0), scene_shader_props),
            s.spec_default_transparent() == (ShaderID::spec_new(1), transparent_props(scene_shader_props)),
            s.spec_shader_props().len() == 0,
            s.spec_mappings().len() == 0,
    {
        let mut transparent_mat_props = scene_shader_props;
        transparent_mat_props.surface_type = SurfaceType::Transparent;
        transparent_mat_props.depth_writing_enabled = false;
        transparent_mat_props.depth_test_mode = DepthTestMode::LessEqual;
        let mut textures: Vec<NamedTexture> = Vec::new();
        textures.push(NamedTexture::new(albedo, "albedo_map"));
        textures.push(NamedTexture::new(normal, "normal_map"));
        textures.push(NamedTexture::new(metallic_roughness, "mettalic_roughness_map"));
        let mut scene = Scene {
            meshes: Vec::new(),
            shaders: Vec::new(),
            textures,
            materials: Vec::new(),
            nodes: Vec::new(),
            node_roots: Vec::new(),
            shader_mat_props: Vec::new(),
            default_texture_ids: DefaultTextures::new(TextureID::new(0), TextureID::new(1), TextureID::new(2)),
            shader_name_mapping: Vec::new(),
            default_opaque_shader: (ShaderID::new(0), scene_shader_props),
            default_transparent_shader: (ShaderID::new(1), transparent_mat_props),
        };
        scene.default_opaque_shader.0 = scene.add_shader(
            NamedShader::new(opaque_shader, "Default opaque scene shader"),
        );
        scene.default_transparent_shader.0 = scene.add_shader(
            NamedShader::new(transparent_shader, "Default transparent scene shader"),
        );
        assert(scene.texture_names() =~= seq![albedo_texture_name(), normal_texture_name(), metallic_roughness_texture_name()]);
        assert(scene.spec_shader_props() =~= seq![]);
        assert(scene.spec_mappings() =~= seq![]);
        scene
    }

    pub fn add_shader(&mut self, shader: NamedShader) -> (id: ShaderID)
        ensures
            id.index == old(self).spec_shaders().len(),
            final(self).spec_shaders() == old(self).spec_shaders().push(shader),
            final(self).same_except(old(self), false, false, true, false, false, false),
    {
        self.shaders.push(shader);
        ShaderID::new(self.shaders.len() - 1)
    }

    pub fn add_texture(&mut self, texture: NamedTexture) -> (id: TextureID)
        ensures
            id.index == old(self).spec_textures().len(),
            final(self).spec_textures() == old(self).spec_textures().push(texture),
            final(self).same_except(old(self), false, false, false, true, false, false),
    {
        self.textures.push(texture);
        TextureID::new(self.textures.len() - 1)
    }

    pub fn add_root_node(&mut self, node: NodeID)
        ensures
            final(self).spec_roots() == old(self).spec_roots().push(node),
            final(self).same_except(old(self), false, false, false, false, false, true),
    {
        self.node_roots.push(node);
    }

    pub fn add_node(&mut self, node: Node<X>) -> (id: NodeID)
        ensures
            id.index == old(self).spec_nodes().len(),
            final(self).spec_nodes() == old(self).spec_nodes().push(node),
            final(self).same_except(old(self), true, false, false, false, false, false),
    {
        self.nodes.push(node);
        NodeID::new(self.nodes.len() - 1)
    }

    pub fn add_material(&mut self, material: Material) -> (id: MaterialID)
        ensures
            id.index == old(self).spec_materials().len(),
            final(self).spec_materials() == old(self).spec_materials().push(material),
            final(self).same_except(old(self), false, false, false, false, true, false),
    {
        self.materials.push(material);
        MaterialID::new(self.materials.len() - 1)
    }

    pub fn add_mesh(&mut self, mesh: Mesh) -> (id: MeshID)
        ensures
            id.index == old(self).spec_meshes().len(),
            final(self).spec_meshes() == old(self).spec_meshes().push(mesh),
            final(self).same_except(old(self), false, true, false, false, false, false),
    {
        self.meshes.push(mesh);
        MeshID::new(self.meshes.len() - 1)
    }

    pub fn get_mesh(&self, id: MeshID) -> (r: &Mesh)
        requires
            id.index < self.spec_meshes().len(),
        ensures
            *r == self.spec_meshes()[id.index as int],
    {
        &self.meshes[id.index]
    }

    pub fn get_shader(&self, id: ShaderID) -> (r: &Shader)
        requires
            id.index < self.spec_shaders().len(),
        ensures
            *r == self.spec_shaders()[id.index as int].shader,
    {
        &self.shaders[id.index].shader
    }

    pub fn get_shader_name(&self, id: ShaderID) -> (r: &str)
        requires
            id.index < self.spec_shaders().len(),
        ensures
            r@ == self.shader_names()[id.index as int],
    {
        smol_str_as_str(&self.shaders[id.index].name)
    }

    pub fn get_texture(&self, id: TextureID) -> (r: &Texture2D)
        requires
            id.index < self.spec_textures().len(),
        ensures
            *r == self.spec_textures()[id.index as int].texture,
    {
        &self.textures[id.index].texture
    }

    pub fn get_texture_name(&self, id: TextureID) -> (r: &str)
        requires
            id.index < self.spec_textures().len(),
        ensures
            r@ == self.texture_names()[id.index as int],
    {
        smol_str_as_str(&self.textures[id.index].name)
    }

    pub fn get_material(&self, id: MaterialID) -> (r: &Material)
        requires
            id.index < self.spec_materials().len(),
        ensures
            *r == self.spec_materials()[id.index as int],
    {
        &self.materials[id.index]
    }

    pub fn get_node(&self, id: NodeID) -> (r: &Node<X>)
        requires
            id.index < self.spec_nodes().len(),
        ensures
            *r == self.spec_nodes()[id.index as int],
    {
        &self.nodes[id.index]
    }

    /// Replaces the transform of a node.
    pub fn set_node_transform(&mut self, id: NodeID, transform: X)
        requires
            id.index < old(self).spec_nodes().len(),
        ensures
            final(self).spec_nodes().len() == old(self).spec_nodes().len(),
            final(self).spec_nodes()[id.index as int].transform == transform,
            final(self).spec_nodes()[id.index as int].children_ids == old(self).spec_nodes()[id.index as int].children_ids,
            final(self).spec_nodes()[id.index as int].mesh_id == old(self).spec_nodes()[id.index as int].mesh_id,
            final(self).spec_nodes()[id.index as int].material_id == old(self).spec_nodes()[id.index as int].material_id,
            forall|i: int| 0 <= i < old(self).spec_nodes().len() && i != id.index ==> #[trigger] final(self).spec_nodes()[i] == old(self).spec_nodes()[i],
            final(self).same_except(old(self), true, false, false, false, false, false),
    {
        let mut n = self.nodes.remove(id.index);
        n.transform = transform;
        self.nodes.insert(id.index, n);
    }


    /// The shader that an imported material is drawn with: the first custom
    /// shader named by the first mapping that lists the material, else the
    /// default shader for its alpha mode.
    pub open spec fn resolved_shader_index(&self, material_name: Seq<char>, alpha: AlphaMode) -> int {
        let def = if alpha == AlphaMode::Opaque {
            self.spec_default_opaque().0
        } else {
            self.spec_default_transparent().0
        };
        match mapping_for(self.spec_mappings(), material_name, 0) {
            Some(m) => match name_position(self.shader_names(), self.spec_mappings()[m].shader_name, 0) {
                Some(p) => p,
                None => def.index as int,
            },
            None => def.index as int,
        }
    }

    /// The render state of an imported material: the state recorded for its
    /// shader's name, else that of the default shader for its alpha mode;
    /// with a default shader, its surface type and culling follow the glTF material.
    pub open spec fn resolved_props(&self, material_name: Seq<char>, alpha: AlphaMode, double_sided: bool) -> MaterialProperties {
        let sid = self.resolved_shader_index(material_name, alpha);
        let def_props = if alpha == AlphaMode::Opaque {
            self.spec_default_opaque().1
        } else {
            self.spec_default_transparent().1
        };
        let p0 = match props_lookup(self.spec_shader_props(), self.shader_names()[sid]) {
            Some(p) => p,
            None => def_props,
        };
        if sid == self.spec_default_opaque().0.index || sid == self.spec_default_transparent().0.index {
            gltf_material_props(p0, alpha, double_sided)
        } else {
            p0
        }
    }

    fn shader_position(&self, name: &[char]) -> (r: Option<usize>)
        ensures
            r matches Some(p) ==> name_position(self.shader_names(), name@, 0) == Some(p as int),
            r is None ==> name_position(self.shader_names(), name@, 0) is None,
    {
        let mut i: usize = 0;
        while i < self.shaders.len()
            invariant
                i <= self.shaders.len(),
                name_position(self.shader_names(), name@, 0) == name_position(self.shader_names(), name@, i as int),
            decreases self.shaders.len() - i,
        {
            assert(self.shader_names()[i as int] == smol_str_text(self.shaders@[i as int].name));
            let n = chars_of(smol_str_as_str(&self.shaders[i].name));
            if chars_eq(n.as_slice(), name) {
                return Some(i);
            }
            i = i + 1;
        }
        None
    }

    fn mapping_index(&self, material: &[char]) -> (r: Option<usize>)
        ensures
            r matches Some(m) ==> mapping_for(self.spec_mappings(), material@, 0) == Some(m as int),
            r is None ==> mapping_for(self.spec_mappings(), material@, 0) is None,
    {
        let mut i: usize = 0;
        while i < self.shader_name_mapping.len()
            invariant
                i <= self.shader_name_mapping.len(),
                mapping_for(self.spec_mappings(), material@, 0) == mapping_for(self.spec_mappings(), material@, i as int),
            decreases self.shader_name_mapping.len() - i,
        {
            let ghost mats = self.spec_mappings()[i as int].materials;
            assert(mats == self.shader_name_mapping@[i as int].associated_materials@.map_values(|s: String| s@));
            let list = &self.shader_name_mapping[i].associated_materials;
            let mut j: usize = 0;
            let mut found = false;
            while j < list.len()
                invariant
                    j <= list.len(),
                    mats == list@.map_values(|s: String| s@),
                    found ==> mats.contains(material@),
                    !found ==> forall|k: int| 0 <= k < j ==> mats[k] != material@,
                decreases list.len() - j,
            {
                let c = chars_of(list[j].as_str());
                if chars_eq(c.as_slice(), material) {
                    assert(mats[j as int] == material@);
                    found = true;
                }
                j = j + 1;
            }
            if found {
                return Some(i);
            }
            assert(!mats.contains(material@));
            i = i + 1;
        }
        None
    }

    fn shader_props_for(&self, name: &[char]) -> (r: Option<MaterialProperties>)
        ensures
            r == props_lookup(self.spec_shader_props(), name@),
    {
        let ghost es = self.spec_shader_props();
        let mut i: usize = 0;
        assert(es.skip(0) =~= es);
        while i < self.shader_mat_props.len()
            invariant
                i <= self.shader_mat_props.len(),
                es == self.spec_shader_props(),
                props_lookup(es, name@) == props_lookup(es.skip(i as int), name@),
            decreases self.shader_mat_props.len() - i,
        {
            let ghost rest = es.skip(i as int);
            assert(rest.drop_first() =~= es.skip(i + 1));
            assert(rest[0] == (smol_str_text(self.shader_mat_props@[i as int].0), self.shader_mat_props@[i as int].1));
            let n = chars_of(smol_str_as_str(&self.shader_mat_props[i].0));
            if chars_eq(n.as_slice(), name) {
                return Some(self.shader_mat_props[i].1);
            }
            i = i + 1;
        }
        assert(es.skip(i as int) =~= seq![]);
        None
    }

    /// The shader that an imported material is drawn with (see `resolved_shader_index`).
    pub fn resolve_material_shader(&self, material_name: &str, alpha: AlphaMode) -> (id: ShaderID)
        requires
            self.wf(),
        ensures
            id.index == self.resolved_shader_index(material_name@, alpha),
            id.index < self.spec_shaders().len(),
    {
        let name = chars_of(material_name);
        let def = if alpha == AlphaMode::Opaque {
            self.default_opaque_shader.0
        } else {
            self.default_transparent_shader.0
        };
        match self.mapping_index(name.as_slice()) {
            Some(m) => {
                proof {
                    lemma_mapping_for_bounds(self.spec_mappings(), name@, 0);
                }
                assert(self.spec_mappings()[m as int] == self.shader_name_mapping@[m as int].mapping_view());
                let sn = chars_of(self.shader_name_mapping[m].shader_name.as_str());
                match self.shader_position(sn.as_slice()) {
                    Some(p) => {
                        proof {
                            lemma_name_position_bounds(self.shader_names(), sn@, 0);
                        }
                        ShaderID::new(p)
                    },
                    None => ShaderID::new(def.index),
                }
            },
            None => ShaderID::new(def.index),
        }
    }

    /// Whether the shader has a uniform called `name`.
    pub fn shader_has_uniform(&self, shader_id: ShaderID, name: &str) -> (b: bool)
        requires
            shader_id.index < self.spec_shaders().len(),
        ensures
            b == (uniform_location_in(self.spec_shaders()[shader_id.index as int].shader.spec_uniforms(), name@) is Some),
    {
        self.shaders[shader_id.index].shader.find_uniform_location(name).is_some()
    }

    /// Which of an imported material's textures it gets: the slots that the
    /// shader samples (it has a uniform of the slot's name) and for which the
    /// material has a texture (`present`, in the order albedo, normal,
    /// metallic-roughness).
    pub fn material_texture_slots(&self, shader_id: ShaderID, present: (bool, bool, bool)) -> (r: Vec<
        MaterialTextureSlot,
    >)
        requires
            shader_id.index < self.spec_shaders().len(),
        ensures
            r@ == material_texture_slots(
                (
                    uniform_location_in(self.spec_shaders()[shader_id.index as int].shader.spec_uniforms(), albedo_texture_name()) is Some,
                    uniform_location_in(self.spec_shaders()[shader_id.index as int].shader.spec_uniforms(), normal_texture_name()) is Some,
                    uniform_location_in(self.spec_shaders()[shader_id.index as int].shader.spec_uniforms(), metallic_roughness_texture_name()) is Some,
                ),
                present,
            ),
    {
        let albedo = self.shader_has_uniform(shader_id, MaterialTextureSlot::Albedo.name());
        let normal = self.shader_has_uniform(shader_id, MaterialTextureSlot::Normal.name());
        let metallic_roughness = self.shader_has_uniform(shader_id, MaterialTextureSlot::MetallicRoughness.name());
        choose_material_textures((albedo, normal, metallic_roughness), present)
    }

    /// Adds a material for an imported material called `material_name`: its
    /// shader and render state follow `resolved_shader_index` and
    /// `resolved_props`, it is named after its shader, and it starts with the
    /// default textures that its shader samples.
    pub fn create_material(&mut self, material_name: &str, alpha: AlphaMode, double_sided: bool) -> (id: MaterialID)
        requires
            old(self).wf(),
        ensures
            final(self).wf(),
            id.index == old(self).spec_materials().len(),
            final(self).spec_materials().len() == old(self).spec_materials().len() + 1,
            forall|i: int| 0 <= i < old(self).spec_materials().len() ==> #[trigger] final(self).spec_materials()[i] == old(self).spec_materials()[i],
            final(self).spec_materials()[id.index as int].shader_id.index == old(self).resolved_shader_index(material_name@, alpha),
            final(self).spec_materials()[id.index as int].material_properties == old(self).resolved_props(material_name@, alpha, double_sided),
            smol_str_text(final(self).spec_materials()[id.index as int].name) == old(self).shader_names()[old(self).resolved_shader_index(material_name@, alpha)],
            texture_id_items(final(self).spec_materials()[id.index as int].texture_ids) == required_textures(
                old(self).spec_default_textures().id_seq(),
                old(self).texture_names(),
                old(self).spec_shaders()[old(self).resolved_shader_index(material_name@, alpha)].shader.spec_uniforms(),
            ),
            final(self).same_except(old(self), false, false, false, false, true, false),
    {
        let shader_id = self.resolve_material_shader(material_name, alpha);
        let default_props = if alpha == AlphaMode::Opaque {
            self.default_opaque_shader.1
        } else {
            self.default_transparent_shader.1
        };
        let shader_name = chars_of(smol_str_as_str(&self.shaders[shader_id.index].name));
        assert(shader_name@ == self.shader_names()[shader_id.index as int]);
        let mut mat_props = match self.shader_props_for(shader_name.as_slice()) {
            Some(p) => p,
            None => default_props,
        };
        if shader_id.index == self.default_opaque_shader.0.index || shader_id.index == self.default_transparent_shader.0.index {
            mat_props.surface_type = if alpha == AlphaMode::Opaque {
                SurfaceType::Opaque
            } else {
                SurfaceType::Transparent
            };
            mat_props.cull_mode = if double_sided {
                CullMode::Disabled
            } else {
                CullMode::Back
            };
        }
        let texture_ids = self.required_default_textures(shader_id);
        let name_string = string_of(shader_name.as_slice());
        let material = Material::new(shader_id, &mat_props, name_string.as_str(), texture_ids);
        self.add_material(material)
    }

    /// The default texture ids whose texture the shader samples, in order.
    fn required_default_textures(&self, shader_id: ShaderID) -> (r: crate::storage::TextureIDStorage)
        requires
            self.wf(),
            shader_id.index < self.spec_shaders().len(),
        ensures
            texture_id_items(r) == required_textures(
                self.spec_default_textures().id_seq(),
                self.texture_names(),
                self.spec_shaders()[shader_id.index as int].shader.spec_uniforms(),
            ),
    {
        let ids = self.default_texture_ids.iter();
        let ghost us = self.spec_shaders()[shader_id.index as int].shader.spec_uniforms();
        let ghost names = self.texture_names();
        let mut r = crate::storage::TextureIDStorage::new();
        let mut k: usize = 0;
        assert(ids@.take(0) =~= seq![]);
        while k < 3
            invariant
                k <= 3,
                ids@ == self.spec_default_textures().id_seq(),
                self.wf(),
                shader_id.index < self.spec_shaders().len(),
                us == self.spec_shaders()[shader_id.index as int].shader.spec_uniforms(),
                names == self.texture_names(),
                texture_id_items(r) == required_textures(ids@.take(k as int), names, us),
                texture_id_items(r).len() <= k,
            decreases 3 - k,
        {
            let id = ids[k];
            assert(ids@.take(k + 1).drop_last() =~= ids@.take(k as int));
            assert(ids@.take(k + 1).last() == id);
            assert(names[id.index as int] == smol_str_text(self.spec_textures()[id.index as int].name));
            let tname = smol_str_as_str(&self.textures[id.index].name);
            if self.shaders[shader_id.index].shader.find_uniform_location(tname).is_some() {
                crate::storage::texture_ids_push(&mut r, id);
            }
            k = k + 1;
        }
        assert(ids@.take(3) =~= ids@);
        r
    }

    /// Adds a texture to the scene and to a material's textures.
    pub fn add_material_texture(&mut self, material_id: MaterialID, texture: NamedTexture) -> (id: TextureID)
        requires
            material_id.index < old(self).spec_materials().len(),
            texture_id_items(old(self).spec_materials()[material_id.index as int].texture_ids).len() < usize::MAX / 128,
        ensures
            id.index == old(self).spec_textures().len(),
            final(self).spec_textures() == old(self).spec_textures().push(texture),
            final(self).spec_materials().len() == old(self).spec_materials().len(),
            texture_id_items(final(self).spec_materials()[material_id.index as int].texture_ids)
                == texture_id_items(old(self).spec_materials()[material_id.index as int].texture_ids).push(id.index),
            final(self).spec_materials()[material_id.index as int].shader_id == old(self).spec_materials()[material_id.index as int].shader_id,
            final(self).spec_materials()[material_id.index as int].material_properties == old(self).spec_materials()[material_id.index as int].material_properties,
            final(self).spec_materials()[material_id.index as int].name == old(self).spec_materials()[material_id.index as int].name,
            forall|i: int| 0 <= i < old(self).spec_materials().len() && i != material_id.index ==> #[trigger] final(self).spec_materials()[i] == old(self).spec_materials()[i],
            final(self).same_except(old(self), false, false, false, true, true, false),
    {
        let id = self.add_texture(texture);
        let mut m = self.materials.remove(material_id.index);
        m.push_texture(id);
        self.materials.insert(material_id.index, m);
        id
    }

    /// Records the custom shaders and which materials use them: each shader
    /// is added under its source's name, and its source's render state is
    /// recorded for that name (a later shader of the same name wins).
    pub fn load_custom_shaders(&mut self, shaders: Vec<(Shader, ShaderSource)>, mapping: &[ShaderMaterialMapping])
        requires
            old(self).wf(),
        ensures
            final(self).wf(),
            final(self).spec_shaders().len() == old(self).spec_shaders().len() + shaders@.len(),
            forall|i: int| 0 <= i < old(self).spec_shaders().len() ==> #[trigger] final(self).spec_shaders()[i] == old(self).spec_shaders()[i],
            forall|k: int| 0 <= k < shaders@.len() ==> {
                &&& #[trigger] final(self).spec_shaders()[old(self).spec_shaders().len() + k].shader == shaders@[k].0
                &&& smol_str_text(final(self).spec_shaders()[old(self).spec_shaders().len() + k].name) == shaders@[k].1@.name
            },
            forall|name: Seq<char>| #[trigger] props_lookup(final(self).spec_shader_props(), name)
                == custom_props_lookup(shaders@.map_values(|e: (Shader, ShaderSource)| (e.1@.name, e.1@.props)), name, old(self).spec_shader_props()),
            final(self).spec_mappings() == mapping@.map_values(|m: ShaderMaterialMapping| m.mapping_view()),
            final(self).spec_nodes() == old(self).spec_nodes(),
            final(self).spec_meshes() == old(self).spec_meshes(),
            final(self).spec_textures() == old(self).spec_textures(),
            final(self).spec_materials() == old(self).spec_materials(),
            final(self).spec_roots() == old(self).spec_roots(),
            final(self).spec_default_textures() == old(self).spec_default_textures(),
            final(self).spec_default_opaque() == old(self).spec_default_opaque(),
            final(self).spec_default_transparent() == old(self).spec_default_transparent(),
    {
        let mut maps: Vec<ShaderMaterialMapping> = Vec::new();
        let mut i: usize = 0;
        while i < mapping.len()
            invariant
                i <= mapping.len(),
                maps@.map_values(|m: ShaderMaterialMapping| m.mapping_view()) == mapping@.map_values(|m: ShaderMaterialMapping| m.mapping_view()).take(i as int),
            decreases mapping.len() - i,
        {
            let m = mapping[i].copy();
            let ghost before = maps@;
            maps.push(m);
            assert(maps@.map_values(|m: ShaderMaterialMapping| m.mapping_view()) =~= before.map_values(|m: ShaderMaterialMapping| m.mapping_view()).push(mapping@[i as int].mapping_view()));
            assert(mapping@.map_values(|m: ShaderMaterialMapping| m.mapping_view()).take(i + 1) =~= mapping@.map_values(|m: ShaderMaterialMapping| m.mapping_view()).take(i as int).push(mapping@[i as int].mapping_view()));
            i = i + 1;
        }
        assert(mapping@.map_values(|m: ShaderMaterialMapping| m.mapping_view()).take(mapping.len() as int) =~= mapping@.map_values(|m: ShaderMaterialMapping| m.mapping_view()));
        self.shader_name_mapping = maps;
        let ghost entries = shaders@.map_values(|e: (Shader, ShaderSource)| (e.1@.name, e.1@.props));
        let ghost old_props = self.spec_shader_props();
        let ghost old_shaders = self.spec_shaders();
        let ghost orig = shaders@;
        let mut rest = shaders;
        let n = rest.len();
        let mut k: usize = 0;
        while rest.len() > 0
            invariant
                k + rest@.len() == n,
                n == orig.len(),
                rest@ == orig.skip(k as int),
                entries == orig.map_values(|e: (Shader, ShaderSource)| (e.1@.name, e.1@.props)),
                self.wf(),
                self.spec_shaders().len() == old_shaders.len() + k,
                forall|i: int| 0 <= i < old_shaders.len() ==> #[trigger] self.spec_shaders()[i] == old_shaders[i],
                forall|j: int| 0 <= j < k ==> {
                    &&& #[trigger] self.spec_shaders()[old_shaders.len() + j].shader == orig[j].0
                    &&& smol_str_text(self.spec_shaders()[old_shaders.len() + j].name) == orig[j].1@.name
                },
                forall|name: Seq<char>| #[trigger] props_lookup(self.spec_shader_props(), name)
                    == custom_props_lookup(entries.take(k as int), name, old_props),
                self.spec_mappings() == mapping@.map_values(|m: ShaderMaterialMapping| m.mapping_view()),
                self.spec_nodes() == old(self).spec_nodes(),
                self.spec_meshes() == old(self).spec_meshes(),
                self.spec_textures() == old(self).spec_textures(),
                self.spec_materials() == old(self).spec_materials(),
                self.spec_roots() == old(self).spec_roots(),
                self.spec_default_textures() == old(self).spec_default_textures(),
                self.spec_default_opaque() == old(self).spec_default_opaque(),
                self.spec_default_transparent() == old(self).spec_default_transparent(),
            decreases rest.len(),
        {
            let (shader, source) = rest.remove(0);
            assert((shader, source) == orig[k as int]);
            let name = source.name();
            let props = *source.mat_props();
            let ghost before_props = self.spec_shader_props();
            self.shader_mat_props.insert(0, (smol_str_new(name), props));
            assert(self.spec_shader_props().drop_first() =~= before_props);
            assert forall|nm: Seq<char>| #[trigger] props_lookup(self.spec_shader_props(), nm)
                == custom_props_lookup(entries.take(k + 1), nm, old_props) by {
                assert(entries.take(k + 1).drop_last() =~= entries.take(k as int));
                assert(entries.take(k + 1).last() == entries[k as int]);
                assert(entries[k as int] == (orig[k as int].1@.name, orig[k as int].1@.props));
                assert(self.spec_shader_props()[0] == (name@, props));
                assert(props_lookup(before_props, nm) == custom_props_lookup(entries.take(k as int), nm, old_props));
            }
            let named = NamedShader::new(shader, name);
            self.shaders.push(named);
            assert(rest@ =~= orig.skip(k + 1));
            k = k + 1;
        }
        assert(entries.take(n as int) =~= entries);
    }

    /// Forgets the custom shader render states and material mappings.
    pub fn clear_material_rules(&mut self)
        ensures
            final(self).spec_shader_props().len() == 0,
            final(self).spec_mappings().len() == 0,
            final(self).spec_nodes() == old(self).spec_nodes(),
            final(self).spec_meshes() == old(self).spec_meshes(),
            final(self).spec_shaders() == old(self).spec_shaders(),
            final(self).spec_textures() == old(self).spec_textures(),
            final(self).spec_materials() == old(self).spec_materials(),
            final(self).spec_roots() == old(self).spec_roots(),
            final(self).spec_default_textures() == old(self).spec_default_textures(),
            final(self).spec_default_opaque() == old(self).spec_default_opaque(),
            final(self).spec_default_transparent() == old(self).spec_default_transparent(),
    {
        self.shader_mat_props = Vec::new();
        self.shader_name_mapping = Vec::new();
        assert(self.spec_shader_props() =~= seq![]);
        assert(self.spec_mappings() =~= seq![]);
    }

    /// The position of the first material called `name`.
    pub fn find_material_index(&self, name: &str) -> (r: Option<usize>)
        ensures
            r matches Some(p) ==> name_position(self.spec_materials().map_values(|m: Material| smol_str_text(m.name)), name@, 0) == Some(p as int),
            r is None ==> name_position(self.spec_materials().map_values(|m: Material| smol_str_text(m.name)), name@, 0) is None,
    {
        let ghost names = self.spec_materials().map_values(|m: Material| smol_str_text(m.name));
        let key = chars_of(name);
        let mut i: usize = 0;
        while i < self.materials.len()
            invariant
                i <= self.materials.len(),
                names == self.spec_materials().map_values(|m: Material| smol_str_text(m.name)),
                key@ == name@,
                name_position(names, name@, 0) == name_position(names, name@, i as int),
            decreases self.materials.len() - i,
        {
            assert(names[i as int] == smol_str_text(self.materials@[i as int].name));
            let n = chars_of(self.materials[i].name());
            if chars_eq(n.as_slice(), key.as_slice()) {
                return Some(i);
            }
            i = i + 1;
        }
        None
    }

    /// The number of nodes in the scene.
    pub fn node_count(&self) -> (r: usize)
        ensures
            r == self.spec_nodes().len(),
    {
        self.nodes.len()
    }

    pub fn root_node_iter(&self) -> (r: &[NodeID])
        ensures
            r@ == self.spec_roots(),
    {
        self.node_roots.as_slice()
    }

    pub fn root_nodes(&self) -> (r: &[NodeID])
        ensures
            r@ == self.spec_roots(),
    {
        self.node_roots.as_slice()
    }
}

/// Where the index at position `k` of a triangle list comes from when each
/// triangle's first and third corner trade places.
pub open spec fn flipped_position(k: int) -> int {
    if k % 3 == 0 {
        k + 2
    } else if k % 3 == 2 {
        k - 2
    } else {
        k
    }
}

/// A triangle list with the winding of every triangle reversed.
pub open spec fn flipped_winding(s: Seq<u32>) -> Seq<u32> {
    Seq::new(s.len(), |k: int| s[flipped_position(k)])
}

/// Reverses the winding of every triangle of an index list by swapping the
/// first and third index of each triangle.
pub fn flip_triangle_winding(indices: &mut [u32])
    requires
        old(indices)@.len() % 3 == 0,
    ensures
        final(indices)@ == flipped_winding(old(indices)@),
{
    let n = indices.len();
    let mut i: usize = 0;
    while i < n
        invariant
            n == indices@.len(),
            n % 3 == 0,
            i % 3 == 0,
            i <= n,
            forall|k: int| 0 <= k < i ==> #[trigger] indices@[k] == old(indices)@[flipped_position(k)],
            forall|k: int| i <= k < n ==> #[trigger] indices@[k] == old(indices)@[k],
            indices@.len() == old(indices)@.len(),
        decreases n - i,
    {
        let tmp = indices[i];
        indices[i] = indices[i + 2];
        indices[i + 2] = tmp;
        i = i + 3;
    }
    assert(indices@ =~= flipped_winding(old(indices)@));
}

/// Flipping the winding twice gives back the triangle list.
pub proof fn law_flip_winding_twice(s: Seq<u32>)
    requires
        s.len() % 3 == 0,
    ensures
        flipped_winding(flipped_winding(s)) == s,
{
    assert forall|k: int| 0 <= k < s.len() implies #[trigger] flipped_winding(flipped_winding(s))[k] == s[k] by {
        assert(0 <= flipped_position(k) < s.len());
        assert(flipped_position(flipped_position(k)) == k);
    }
    assert(flipped_winding(flipped_winding(s)) =~= s);
}

/// Flipping the winding keeps the corners of each triangle: the same three
/// indices, the middle one in place.
pub proof fn law_flip_winding_keeps_triangles(s: Seq<u32>, t: int)
    requires
        s.len() % 3 == 0,
        0 <= t < s.len() / 3,
    ensures
        flipped_winding(s)[3 * t] == s[3 * t + 2],
        flipped_winding(s)[3 * t + 1] == s[3 * t + 1],
        flipped_winding(s)[3 * t + 2] == s[3 * t],
{
    assert(3 * t + 2 < s.len());
    assert((3 * t) % 3 == 0);
    assert((3 * t + 1) % 3 == 1);
    assert((3 * t + 2) % 3 == 2);
}

/// The materials already made for imported materials, by the imported
/// material's index in its document.
pub struct ImportedMaterials {
    by_index: HashMap<usize, MaterialID>,
}

impl ImportedMaterials {
    pub closed spec fn spec_map(&self) -> Map<usize, MaterialID> {
        self.by_index@
    }

    pub fn new() -> (m: Self)
        ensures
            m.spec_map() == Map::<usize, MaterialID>::empty(),
    {
        ImportedMaterials { by_index: HashMap::new() }
    }

    /// The material made earlier for the imported material with this index;
    /// an imported material without an index always gets a new one.
    pub fn lookup(&self, index: Option<usize>) -> (r: Option<MaterialID>)
        ensures
            r == (match index {
                Some(i) => if self.spec_map().contains_key(i) {
                    Some(self.spec_map()[i])
                } else {
                    None
                },
                None => None,
            }),
    {
        match index {
            Some(i) => match self.by_index.get(&i) {
                Some(id) => Some(*id),
                None => None,
            },
            None => None,
        }
    }

    /// Records the material made for the imported material with this index;
    /// one without an index is not recorded.
    pub fn remember(&mut self, index: Option<usize>, id: MaterialID)
        ensures
            final(self).spec_map() == (match index {
                Some(i) => old(self).spec_map().insert(i, id),
                None => old(self).spec_map(),
            }),
    {
        if let Some(i) = index {
            self.by_index.insert(i, id);
        }
    }
}

/// After a material is recorded for an imported material's index, looking
/// that index up gives it; other indices keep what they gave.
pub proof fn law_imported_lookup_after_remember(
    before: ImportedMaterials,
    after: ImportedMaterials,
    index: usize,
    id: MaterialID,
    other: usize,
)
    requires
        after.spec_map() == before.spec_map().insert(index, id),
    ensures
        after.spec_map().contains_key(index) && after.spec_map()[index] == id,
        other != index ==> (after.spec_map().contains_key(other) == before.spec_map().contains_key(other)),
        other != index && before.spec_map().contains_key(other) ==> after.spec_map()[other] == before.spec_map()[other],
{
}

/// The render state of an imported material. Where no mapping names the
/// material, its shader is the default opaque shader for an opaque material
/// and the default transparent one for a masked or blended one. With a
/// default shader, whatever its alpha mode, the material culls nothing
/// exactly when it is double sided and culls back faces otherwise, and it is
/// transparent exactly when its alpha mode is not opaque. With a custom
/// shader, the glTF material's double-sidedness changes nothing.
pub proof fn law_imported_material_state<X>(scene: Scene<X>, name: Seq<char>, alpha: AlphaMode, double_sided: bool)
    ensures
        mapping_for(scene.spec_mappings(), name, 0) is None ==> scene.resolved_shader_index(name, alpha) == (if alpha
            == AlphaMode::Opaque {
            scene.spec_default_opaque().0.index as int
        } else {
            scene.spec_default_transparent().0.index as int
        }),
        ({
            let sid = scene.resolved_shader_index(name, alpha);
            let p = scene.resolved_props(name, alpha, double_sided);
            (sid == scene.spec_default_opaque().0.index || sid == scene.spec_default_transparent().0.index) ==> {
                &&& (p.cull_mode == CullMode::Disabled) <==> double_sided
                &&& !double_sided ==> p.cull_mode == CullMode::Back
                &&& (p.surface_type == SurfaceType::Transparent) <==> alpha != AlphaMode::Opaque
                &&& alpha == AlphaMode::Opaque ==> p.surface_type == SurfaceType::Opaque
                &&& p.depth_writing_enabled == scene.resolved_props(name, alpha, !double_sided).depth_writing_enabled
                &&& p.depth_test_mode == scene.resolved_props(name, alpha, !double_sided).depth_test_mode
            }
        }),
        ({
            let sid = scene.resolved_shader_index(name, alpha);
            (sid != scene.spec_default_opaque().0.index && sid != scene.spec_default_transparent().0.index)
                ==> scene.resolved_props(name, alpha, double_sided) == scene.resolved_props(name, alpha, !double_sided)
        }),
{
}

/// Some id among `ids` is `x`, names a texture, and the shader has a uniform
/// for that texture's name.
pub open spec fn sampled_default(ids: Seq<TextureID>, names: Seq<Seq<char>>, uniforms: Seq<(Seq<char>, i32)>, x: usize) -> bool {
    exists|k: int|
        0 <= k < ids.len() && (#[trigger] ids[k]).index == x && 0 <= x < names.len() && uniform_location_in(
            uniforms,
            names[x as int],
        ) is Some
}

/// The default textures a material starts with: an id is among them exactly
/// when it names a texture whose name the shader has a uniform for.
pub proof fn law_required_textures(ids: Seq<TextureID>, names: Seq<Seq<char>>, uniforms: Seq<(Seq<char>, i32)>)
    ensures
        required_textures(ids, names, uniforms).len() <= ids.len(),
        forall|x: usize| #[trigger] sampled_default(ids, names, uniforms, x) ==> required_textures(ids, names, uniforms).contains(x),
        forall|r: int|
            0 <= r < required_textures(ids, names, uniforms).len() ==> #[trigger] sampled_default(
                ids,
                names,
                uniforms,
                required_textures(ids, names, uniforms)[r],
            ),
    decreases ids.len(),
{
    if ids.len() > 0 {
        let prev = ids.drop_last();
        law_required_textures(prev, names, uniforms);
        let rest = required_textures(prev, names, uniforms);
        let res = required_textures(ids, names, uniforms);
        assert forall|k: int| 0 <= k < prev.len() implies #[trigger] ids[k] == prev[k] by {}
        let id = ids.last();
        let take = 0 <= id.index < names.len() && uniform_location_in(uniforms, names[id.index as int]) is Some;
        assert forall|x: usize| #[trigger] sampled_default(prev, names, uniforms, x) implies sampled_default(ids, names, uniforms, x) by {
            let k = choose|k: int| 0 <= k < prev.len() && (#[trigger] prev[k]).index == x;
            assert(ids[k] == prev[k]);
        }
        assert forall|x: usize| #[trigger] sampled_default(ids, names, uniforms, x) implies res.contains(x) by {
            let k = choose|k: int| 0 <= k < ids.len() && (#[trigger] ids[k]).index == x && 0 <= x < names.len()
                && uniform_location_in(uniforms, names[x as int]) is Some;
            if k < prev.len() {
                assert(prev[k] == ids[k]);
                assert(sampled_default(prev, names, uniforms, x));
                let i = choose|i: int| 0 <= i < rest.len() && rest[i] == x;
                if take {
                    assert(res == rest.push(id.index));
                    assert(res[i] == rest[i]);
                } else {
                    assert(res == rest);
                }
            } else {
                assert(take);
                assert(res == rest.push(id.index));
                assert(res[rest.len() as int] == x);
            }
        }
        assert forall|r: int| 0 <= r < res.len() implies #[trigger] sampled_default(ids, names, uniforms, res[r]) by {
            if take {
                assert(res == rest.push(id.index));
                if r < rest.len() {
                    assert(res[r] == rest[r]);
                    assert(sampled_default(prev, names, uniforms, rest[r]));
                } else {
                    assert(ids[ids.len() - 1] == id);
                }
            } else {
                assert(res == rest);
                assert(sampled_default(prev, names, uniforms, rest[r]));
            }
        }
    }
}

/// The place of a slot in the order albedo, normal, metallic-roughness.
pub open spec fn slot_rank(slot: MaterialTextureSlot) -> int {
    match slot {
        MaterialTextureSlot::Albedo => 0,
        MaterialTextureSlot::Normal => 1,
        MaterialTextureSlot::MetallicRoughness => 2,
    }
}

/// An imported material gets a texture of its own for a slot exactly when
/// its shader samples the slot and the material has a texture for it, each
/// slot at most once and in the order albedo, normal, metallic-roughness.
/// The albedo texture is stored as RGBA and the others as RGB, and each slot
/// is named after the default texture it replaces.
pub proof fn law_material_texture_slots(sampled: (bool, bool, bool), present: (bool, bool, bool), slot: MaterialTextureSlot)
    ensures
        material_texture_slots(sampled, present).contains(MaterialTextureSlot::Albedo) <==> (sampled.0 && present.0),
        material_texture_slots(sampled, present).contains(MaterialTextureSlot::Normal) <==> (sampled.1 && present.1),
        material_texture_slots(sampled, present).contains(MaterialTextureSlot::MetallicRoughness) <==> (sampled.2
            && present.2),
        forall|i: int, j: int|
            0 <= i < j < material_texture_slots(sampled, present).len() ==> slot_rank(
                #[trigger] material_texture_slots(sampled, present)[i],
            ) < slot_rank(#[trigger] material_texture_slots(sampled, present)[j]),
        slot.spec_storage_format() == (if slot == MaterialTextureSlot::Albedo {
            StorageFormat::RGBA
        } else {
            StorageFormat::RGB
        }),
        slot == MaterialTextureSlot::Albedo ==> slot.spec_name() == albedo_texture_name(),
        slot == MaterialTextureSlot::Normal ==> slot.spec_name() == normal_texture_name(),
        slot == MaterialTextureSlot::MetallicRoughness ==> slot.spec_name() == metallic_roughness_texture_name(),
{
    let a = slot_if(MaterialTextureSlot::Albedo, sampled.0, present.0);
    let b = slot_if(MaterialTextureSlot::Normal, sampled.1, present.1);
    let c = slot_if(MaterialTextureSlot::MetallicRoughness, sampled.2, present.2);
    let r = material_texture_slots(sampled, present);
    assert(r == a + b + c);
    assert forall|i: int| 0 <= i < r.len() implies #[trigger] r[i] == (if i < a.len() {
        a[i]
    } else if i < a.len() + b.len() {
        b[i - a.len()]
    } else {
        c[i - a.len() - b.len()]
    }) by {}
    assert forall|i: int| 0 <= i < r.len() implies slot_rank(#[trigger] r[i]) == (if i < a.len() {
        0int
    } else if i < a.len() + b.len() {
        1int
    } else {
        2int
    }) by {}
    if sampled.0 && present.0 {
        assert(r[0] == MaterialTextureSlot::Albedo);
    }
    if sampled.1 && present.1 {
        assert(r[a.len() as int] == MaterialTextureSlot::Normal);
    }
    if sampled.2 && present.2 {
        assert(r[(a.len() + b.len()) as int] == MaterialTextureSlot::MetallicRoughness);
    }
}

/// Finding a shader by name gives the first shader of that name, and nothing
/// exactly when no shader has it.
pub proof fn law_name_position(names: Seq<Seq<char>>, name: Seq<char>, i: int)
    requires
        0 <= i,
    ensures
        name_position(names, name, i) matches Some(p) ==> i <= p < names.len() && names[p] == name && forall|j: int|
            i <= j < p ==> #[trigger] names[j] != name,
        name_position(names, name, i) is None <==> forall|j: int| i <= j < names.len() ==> #[trigger] names[j] != name,
    decreases names.len() - i,
{
    if i < names.len() {
        law_name_position(names, name, i + 1);
    }
}

/// The mapping that decides an imported material's shader is the first one
/// that lists the material; none decides exactly when none lists it.
pub proof fn law_mapping_for(maps: Seq<MappingView>, material: Seq<char>, i: int)
    requires
        0 <= i,
    ensures
        mapping_for(maps, material, i) matches Some(m) ==> i <= m < maps.len() && maps[m].materials.contains(material)
            && forall|j: int| i <= j < m ==> !(#[trigger] maps[j]).materials.contains(material),
        mapping_for(maps, material, i) is None <==> forall|j: int|
            i <= j < maps.len() ==> !(#[trigger] maps[j]).materials.contains(material),
    decreases maps.len() - i,
{
    if i < maps.len() {
        law_mapping_for(maps, material, i + 1);
    }
}

/// The render state recorded for a shader name is that of the first entry
/// with that name; none is recorded exactly when no entry has the name.
pub proof fn law_props_lookup(entries: Seq<(Seq<char>, MaterialProperties)>, name: Seq<char>)
    ensures
        props_lookup(entries, name) matches Some(p) ==> exists|i: int|
            0 <= i < entries.len() && (#[trigger] entries[i]) == (name, p) && forall|j: int|
                0 <= j < i ==> (#[trigger] entries[j]).0 != name,
        props_lookup(entries, name) is None <==> forall|i: int| 0 <= i < entries.len() ==> (#[trigger] entries[i]).0 != name,
    decreases entries.len(),
{
    if entries.len() > 0 {
        let rest = entries.drop_first();
        law_props_lookup(rest, name);
        assert forall|i: int| 0 < i < entries.len() implies entries[i] == #[trigger] rest[i - 1] by {}
        if entries[0].0 != name {
            if let Some(p) = props_lookup(rest, name) {
                let i = choose|i: int|
                    0 <= i < rest.len() && (#[trigger] rest[i]) == (name, p) && forall|j: int|
                        0 <= j < i ==> (#[trigger] rest[j]).0 != name;
                assert(entries[i + 1] == rest[i]);
                assert forall|j: int| 0 <= j < i + 1 implies (#[trigger] entries[j]).0 != name by {
                    if j > 0 {
                        assert(entries[j] == rest[j - 1]);
                    }
                }
            } else {
                assert forall|i: int| 0 <= i < entries.len() implies (#[trigger] entries[i]).0 != name by {
                    if i > 0 {
                        assert(entries[i] == rest[i - 1]);
                    }
                }
            }
            if forall|i: int| 0 <= i < entries.len() ==> (#[trigger] entries[i]).0 != name {
                assert forall|i: int| 0 <= i < rest.len() implies (#[trigger] rest[i]).0 != name by {
                    assert(entries[i + 1] == rest[i]);
                }
            }
        } else {
            assert(entries[0] == (name, entries[0].1));
        }
    }
}

/// After recording custom shaders' render states, a shader name has the
/// state of the last recorded entry with that name: later entries replace
/// earlier ones.
pub proof fn law_custom_props_last_wins(
    entries: Seq<(Seq<char>, MaterialProperties)>,
    name: Seq<char>,
    base: Seq<(Seq<char>, MaterialProperties)>,
    i: int,
)
    requires
        0 <= i < entries.len(),
        entries[i].0 == name,
        forall|j: int| i < j < entries.len() ==> (#[trigger] entries[j]).0 != name,
    ensures
        custom_props_lookup(entries, name, base) == Some(entries[i].1),
    decreases entries.len(),
{
    if i < entries.len() - 1 {
        let prev = entries.drop_last();
        assert(entries[entries.len() - 1].0 != name);
        assert forall|j: int| i < j < prev.len() implies (#[trigger] prev[j]).0 != name by {
            assert(entries[j] == prev[j]);
        }
        law_custom_props_last_wins(prev, name, base, i);
    }
}

/// Where no recorded custom shader has a name, the render state recorded for
/// that name before stays.
pub proof fn law_custom_props_untouched(
    entries: Seq<(Seq<char>, MaterialProperties)>,
    name: Seq<char>,
    base: Seq<(Seq<char>, MaterialProperties)>,
)
    requires
        forall|i: int| 0 <= i < entries.len() ==> (#[trigger] entries[i]).0 != name,
    ensures
        custom_props_lookup(entries, name, base) == props_lookup(base, name),
    decreases entries.len(),
{
    if entries.len() > 0 {
        let prev = entries.drop_last();
        assert(entries[entries.len() - 1].0 != name);
        assert forall|i: int| 0 <= i < prev.len() implies (#[trigger] prev[i]).0 != name by {
            assert(entries[i] == prev[i]);
        }
        law_custom_props_untouched(prev, name, base);
    }
}

} // verus!
