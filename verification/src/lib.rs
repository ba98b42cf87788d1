//! Verified core of a small OpenGL forward renderer: GPU resource records,
//! vertex layouts, texture and framebuffer bookkeeping, the shader source
//! preprocessor, the OBJ mesh loader, input state and key bindings, the
//! scene arena with its material rules, glTF load planning, the frame's draw
//! lists, the light buffer and a timer's report.
pub mod gl;
pub mod material_properties;
pub mod text;
pub mod shader_source;
pub mod obj_loader;
pub mod buffer;
pub mod vertex;
pub mod vao;
pub mod mesh;
pub mod texture;
pub mod framebuffer;
pub mod utility;
pub mod input;
pub mod resource_id;
pub mod storage;
pub mod shader;
pub mod scene_data;
pub mod scene;
pub mod scene_loading;
pub mod light;
pub mod renderer;
pub mod timer;
pub mod controls;
