use renderer::buffer::{BindingTarget, GraphicsBuffer, Usage};
use renderer::framebuffer::Framebuffer;
use renderer::gl;
use renderer::material_properties::{CullMode, DepthTestMode, MaterialProperties, ShadowCasting, SurfaceType};
use renderer::mesh::{IndexFormat, Mesh};
use renderer::renderer::RenderTargets;
use renderer::texture::{
    calulate_mip_count, filtering_parameters, get_data_format, get_data_format_srgb, get_input_data_format,
    mip_level_count, wrapping_parameter, FilteringMode, PixelDataType, StorageFormat, Texture, Texture2D,
    WrappingMode,
};
use renderer::utility::{apply_mat_props, set_cull_mode, set_depth_test_mode, RenderStateCache};
use renderer::vao::VAO;
use renderer::vertex::{Attrib, AttribDescriptor, AttribFormat, VertexLayout};

fn scene_layout() -> VertexLayout {
    VertexLayout::from_attribs(&[Attrib::position(), Attrib::normal(), Attrib::uv()])
}

#[test]
fn vertex_layout_packs_attributes_in_order() {
    let layout = scene_layout();
    assert_eq!(layout.vertex_byte_size(), 32);
    assert_eq!(
        layout.layout(),
        &[
            AttribDescriptor { format: AttribFormat::F32, count: 3, index: 0, relative_offset: 0 },
            AttribDescriptor { format: AttribFormat::F32, count: 3, index: 1, relative_offset: 12 },
            AttribDescriptor { format: AttribFormat::F32, count: 2, index: 2, relative_offset: 24 },
        ]
    );
    let single = VertexLayout::from_attribs(&[Attrib::new(AttribFormat::F32, 4)]);
    assert_eq!(single.vertex_byte_size(), 16);
    assert_eq!(AttribFormat::F32.byte_size(), 4);
    assert_eq!(AttribFormat::F32.to_gl_format(), gl::FLOAT);
    assert_eq!(VertexLayout::from_attribs(&[]).vertex_byte_size(), 0);
}

#[test]
fn mip_counts() {
    assert_eq!(mip_level_count(1024, 512), 11);
    assert_eq!(mip_level_count(1, 1), 1);
    assert_eq!(mip_level_count(300, 700), 10);
    assert_eq!(calulate_mip_count(1024, 512), 11);
    assert_eq!(calulate_mip_count(0, 0), 0);
    assert_eq!(calulate_mip_count(-1, 0), 0);
    assert_eq!(calulate_mip_count(-5, -3), 32);
    assert_eq!(calulate_mip_count(3, 2), 2);
}

#[test]
fn texture_formats_by_channel_count() {
    assert_eq!(get_data_format(1), gl::R8);
    assert_eq!(get_data_format(3), gl::RGB8);
    assert_eq!(get_data_format(4), gl::RGBA8);
    assert_eq!(get_data_format_srgb(3), gl::SRGB8);
    assert_eq!(get_data_format_srgb(4), gl::SRGB8_ALPHA8);
    assert_eq!(get_data_format_srgb(2), gl::RG8);
    assert_eq!(get_input_data_format(1), gl::RED);
    assert_eq!(get_input_data_format(2), gl::RG);
    assert_eq!(get_input_data_format(4), gl::RGBA);
    assert_eq!(StorageFormat::SRGBA.to_gl_format(), 0x8C43);
    assert_eq!(StorageFormat::Depth24FStencil.to_gl_format(), 0x88F0);
    assert!(StorageFormat::Depth16F.is_depth_format());
    assert!(!StorageFormat::RGBA16F.is_depth_format());
    assert_eq!(PixelDataType::U16.to_gl_format(), 0x1403);
}

#[test]
fn sampler_parameters() {
    assert_eq!(filtering_parameters(FilteringMode::Nearest), (gl::NEAREST, gl::NEAREST, false));
    assert_eq!(filtering_parameters(FilteringMode::Trilinear), (0x2703, 0x2601, false));
    assert_eq!(filtering_parameters(FilteringMode::AnisotropicX16), (0x2703, 0x2601, true));
    assert_eq!(wrapping_parameter(WrappingMode::Clamp), 0x812F);
    assert_eq!(wrapping_parameter(WrappingMode::Repeat), 0x2901);
}

#[test]
fn texture_records() {
    let mut t = Texture2D::create_empty_texture(4, StorageFormat::RGB);
    assert_eq!(t.id(), 4);
    assert_eq!((t.width(), t.height()), (0, 0));
    assert!(t.sampler_is_mutable());
    t.set_dimensions(256, 64, 3);
    assert_eq!((t.width(), t.height()), (256, 64));
    assert_eq!(t.storage_mip_levels(), 9);
    t.set_bindless_handle(77);
    assert_eq!(t.bindless_handle(), 77);
    assert!(!t.sampler_is_mutable());
    assert_eq!(t.storage_format(), StorageFormat::RGB);
}

#[test]
fn buffers_record_their_size() {
    let mut b = GraphicsBuffer::new(7);
    assert_eq!(b.id(), 7);
    assert_eq!(b.byte_size(), 0);
    b.allocate(&[1u32, 2, 3], Usage::Static);
    assert_eq!(b.byte_size(), 12);
    assert_eq!(b.upload_data(&[5u32]), 4);
    assert_eq!(b.id(), 7);
    assert_eq!(Usage::Static.to_gl_usage(), 0x88E4);
    assert_eq!(Usage::Dynamic.to_gl_usage(), 0x88E8);
    assert_eq!(BindingTarget::UniformBuffer.to_gl_format(), 0x8A11);
    assert_eq!(BindingTarget::ShaderStorageBuffer.to_gl_format(), 0x90D2);
}

#[test]
fn mesh_counts_vertices_and_indices() {
    let layout = scene_layout();
    let mut mesh = Mesh::new(GraphicsBuffer::new(1), GraphicsBuffer::new(2), VAO::new(3));
    assert_eq!(mesh.vertex_count(), 0);
    assert_eq!(mesh.index_count(), 0);
    mesh.upload_vertex_buffer_data(&[0f32; 16], &layout, Usage::Static);
    assert_eq!(mesh.vertex_count(), 2);
    assert_eq!(mesh.vao().vertex_size_bytes(), 32);
    assert_eq!(mesh.vao().id(), 3);
    mesh.upload_index_buffer_data(&[0u16, 1, 2], Usage::Static);
    assert_eq!(mesh.index_count(), 3);
    assert_eq!(mesh.index_format(), IndexFormat::U16);
    mesh.upload_index_buffer_data(&[0u32, 1, 2, 2, 1, 3], Usage::Dynamic);
    assert_eq!(mesh.index_count(), 6);
    assert_eq!(mesh.index_format(), IndexFormat::U32);
    assert_eq!(IndexFormat::U16.byte_size(), 2);
    assert_eq!(IndexFormat::U8.to_gl_format(), gl::UNSIGNED_BYTE);
    assert_eq!(IndexFormat::U32.to_gl_format(), gl::UNSIGNED_INT);
}

#[test]
fn vao_checks_whole_vertices() {
    let layout = scene_layout();
    let mut vao = VAO::new(9);
    let mut buffer = GraphicsBuffer::new(1);
    buffer.allocate(&[0u8; 64], Usage::Static);
    assert!(!vao.holds_whole_vertices(&buffer));
    vao.set_vertex_buffer(&layout);
    assert!(vao.holds_whole_vertices(&buffer));
    buffer.allocate(&[0u8; 40], Usage::Static);
    assert!(!vao.holds_whole_vertices(&buffer));
}

fn sized_texture(id: u32, format: StorageFormat, width: i32, height: i32) -> Texture2D {
    let mut t = Texture2D::create_empty_texture(id, format);
    t.set_dimensions(width, height, 4);
    t
}

#[test]
fn framebuffer_attachments() {
    let mut fb = Framebuffer::new(5, (800, 600));
    assert_eq!(fb.id(), 5);
    assert_eq!(fb.resolution(), (800, 600));
    assert!(fb.depth_attachment().is_none());
    assert!(fb.color_attachment(0).is_none());
    fb.create_color_attachment(1, sized_texture(9, StorageFormat::RGBA16F, 800, 600));
    assert_eq!(fb.color_attachment(1).unwrap().storage_format(), StorageFormat::RGBA16F);
    assert_eq!(fb.color_attachment(1).unwrap().width(), 800);
    assert_eq!(fb.color_attachment(1).unwrap().height(), 600);
    assert!(fb.color_attachment(0).is_none());
    assert_eq!(fb.set_active_render_target(1), gl::COLOR_ATTACHMENT0 + 1);
    fb.create_depth_attachment(sized_texture(10, StorageFormat::Depth32F, 800, 600));
    assert_eq!(fb.depth_attachment().unwrap().id(), 10);
    assert_eq!(fb.depth_attachment().unwrap().storage_format(), StorageFormat::Depth32F);
    assert_eq!(Framebuffer::MAX_NUM_OF_COLOR_ATTACHMENTS, 10);
}

#[test]
fn render_targets_hand_out_their_textures() {
    assert_eq!(RenderTargets::depth_format(), StorageFormat::Depth24F);
    assert_eq!(RenderTargets::color_format(), StorageFormat::SRGBA);
    assert_eq!(RenderTargets::normal_format(), StorageFormat::RG16F);
    assert_eq!(RenderTargets::shadow_format(), StorageFormat::Depth32F);
    let targets = RenderTargets::new(
        (640, 480),
        1,
        2,
        sized_texture(11, RenderTargets::depth_format(), 640, 480),
        sized_texture(12, RenderTargets::color_format(), 640, 480),
        sized_texture(13, RenderTargets::normal_format(), 640, 480),
        sized_texture(14, RenderTargets::shadow_format(), 640, 480),
    );
    assert_eq!(targets.depth_texture().id(), 11);
    assert_eq!(targets.depth_texture().width(), 640);
    assert_eq!(targets.depth_texture().height(), 480);
    assert_eq!(targets.depth_texture().storage_format(), StorageFormat::Depth24F);
    assert_eq!(targets.color_texture().id(), 12);
    assert_eq!(targets.color_texture().storage_format(), StorageFormat::SRGBA);
    assert_eq!(targets.normal_texture().id(), 13);
    assert_eq!(targets.normal_texture().storage_format(), StorageFormat::RG16F);
}

#[test]
fn material_state_commands() {
    let props = MaterialProperties::default_properties();
    let c = apply_mat_props(&props);
    assert_eq!(c.depth_func, gl::LEQUAL);
    assert!(c.depth_mask);
    assert_eq!(c.cull_face, Some(gl::BACK));
    let props = MaterialProperties::new(
        CullMode::Disabled,
        DepthTestMode::Always,
        false,
        SurfaceType::Transparent,
        ShadowCasting::Enabled,
    );
    assert_eq!(props.shadow_casting, ShadowCasting::Enabled);
    let c = apply_mat_props(&props);
    assert_eq!(c.depth_func, 0x0207);
    assert!(!c.depth_mask);
    assert_eq!(c.cull_face, None);
    assert_eq!(set_cull_mode(CullMode::Both), Some(0x0408));
    assert_eq!(set_cull_mode(CullMode::Front), Some(0x0404));
    assert_eq!(set_depth_test_mode(DepthTestMode::Equal), 0x0202);
    assert_eq!(DepthTestMode::Less.to_gl_format(), 0x0201);
    assert_eq!(CullMode::Disabled.to_gl_format(), 0);
    assert_eq!(CullMode::Back.to_gl_format(), 0x0405);
}

#[test]
fn render_state_cache_skips_repeated_states() {
    let mut cache = RenderStateCache::new();
    assert_eq!(cache.current(), MaterialProperties::default_properties());
    assert_eq!(cache.set_mat_props(&MaterialProperties::default_properties()), None);
    let transparent = MaterialProperties::new(
        CullMode::Front,
        DepthTestMode::Equal,
        false,
        SurfaceType::Transparent,
        ShadowCasting::Disabled,
    );
    let c = cache.set_mat_props(&transparent).expect("a new state is applied");
    assert_eq!(c.depth_func, gl::EQUAL);
    assert!(!c.depth_mask);
    assert_eq!(c.cull_face, Some(gl::FRONT));
    assert_eq!(cache.current(), transparent);
    assert_eq!(cache.set_mat_props(&transparent), None);
    assert!(cache.set_mat_props(&MaterialProperties::default_properties()).is_some());
}
