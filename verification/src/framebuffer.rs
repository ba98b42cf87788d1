//! Framebuffers: their resolution and the textures attached to them.
use vstd::prelude::*;

use crate::gl;
use crate::texture::{is_depth, Texture2D};

verus! {

pub struct Framebuffer {
    id: u32,
    res_x: u32,
    res_y: u32,
    depth_attachment: Option<Texture2D>,
    color_attachments: Vec<Option<Texture2D>>,
}

impl Framebuffer {
    /// The number of color attachment slots.
    pub const MAX_NUM_OF_COLOR_ATTACHMENTS: usize = 10;

    pub closed spec fn spec_id(&self) -> u32 {
        self.id
    }

    pub closed spec fn spec_resolution(&self) -> (u32, u32) {
        (self.res_x, self.res_y)
    }

    pub closed spec fn spec_depth_attachment(&self) -> Option<Texture2D> {
        self.depth_attachment
    }

    /// The texture in color slot `i`.
    pub closed spec fn spec_color_attachment(&self, i: int) -> Option<Texture2D> {
        self.color_attachments@[i]
    }

    /// The slot table has one entry per color slot.
    pub closed spec fn wf(&self) -> bool {
        self.color_attachments@.len() == Self::MAX_NUM_OF_COLOR_ATTACHMENTS
    }

    /// A framebuffer with the OpenGL name `id` and nothing attached.
    pub fn new(id: u32, resolution: (u32, u32)) -> (f: Self)
        ensures
            f.wf(),
            f.spec_id() == id,
            f.spec_resolution() == resolution,
            f.spec_depth_attachment() is None,
            forall|i: int| 0 <= i < Self::MAX_NUM_OF_COLOR_ATTACHMENTS ==> (
            #[trigger] f.spec_color_attachment(i)) is None,
    {
        let mut color_attachments: Vec<Option<Texture2D>> = Vec::new();
        let mut i: usize = 0;
        while i < Framebuffer::MAX_NUM_OF_COLOR_ATTACHMENTS
            invariant
                i <= Framebuffer::MAX_NUM_OF_COLOR_ATTACHMENTS,
                color_attachments@.len() == i,
                forall|k: int| 0 <= k < i ==> (#[trigger] color_attachments@[k]) is None,
            decreases Framebuffer::MAX_NUM_OF_COLOR_ATTACHMENTS - i,
        {
            color_attachments.push(None);
            i = i + 1;
        }
        Self { id, res_x: resolution.0, res_y: resolution.1, depth_attachment: None, color_attachments }
    }

    pub fn id(&self) -> (r: u32)
        ensures
            r == self.spec_id(),
    {
        self.id
    }

    /// The size that attachments are created with.
    pub fn resolution(&self) -> (r: (u32, u32))
        ensures
            r == self.spec_resolution(),
    {
        (self.res_x, self.res_y)
    }

    pub fn depth_attachment(&self) -> (r: Option<&Texture2D>)
        ensures
            r matches Some(t) ==> self.spec_depth_attachment() == Some(*t),
            r is None ==> self.spec_depth_attachment() is None,
    {
        self.depth_attachment.as_ref()
    }

    pub fn color_attachment(&self, attachment_index: usize) -> (r: Option<&Texture2D>)
        requires
            self.wf(),
            attachment_index < Self::MAX_NUM_OF_COLOR_ATTACHMENTS,
        ensures
            r matches Some(t) ==> self.spec_color_attachment(attachment_index as int) == Some(*t),
            r is None ==> self.spec_color_attachment(attachment_index as int) is None,
    {
        self.color_attachments[attachment_index].as_ref()
    }

    /// Attaches a depth texture (of the framebuffer's resolution).
    pub fn create_depth_attachment(&mut self, attachment_texture: Texture2D)
        requires
            is_depth(attachment_texture.spec_storage_format()),
            attachment_texture.spec_width() == old(self).spec_resolution().0 as i32,
            attachment_texture.spec_height() == old(self).spec_resolution().1 as i32,
        ensures
            final(self).spec_depth_attachment() == Some(attachment_texture),
            final(self).spec_id() == old(self).spec_id(),
            final(self).spec_resolution() == old(self).spec_resolution(),
            old(self).wf() ==> final(self).wf(),
            forall|i: int| #[trigger] final(self).spec_color_attachment(i)
                == old(self).spec_color_attachment(i),
    {
        self.depth_attachment = Some(attachment_texture);
    }

    /// Attaches a color texture (of the framebuffer's resolution) to a slot.
    pub fn create_color_attachment(&mut self, attachment_index: usize, attachment: Texture2D)
        requires
            old(self).wf(),
            attachment_index < Self::MAX_NUM_OF_COLOR_ATTACHMENTS,
            attachment.spec_width() == old(self).spec_resolution().0 as i32,
            attachment.spec_height() == old(self).spec_resolution().1 as i32,
        ensures
            final(self).wf(),
            final(self).spec_color_attachment(attachment_index as int) == Some(attachment),
            forall|i: int|
                0 <= i < Self::MAX_NUM_OF_COLOR_ATTACHMENTS && i != attachment_index
                    ==> #[trigger] final(self).spec_color_attachment(i)
                    == old(self).spec_color_attachment(i),
            final(self).spec_depth_attachment() == old(self).spec_depth_attachment(),
            final(self).spec_id() == old(self).spec_id(),
            final(self).spec_resolution() == old(self).spec_resolution(),
    {
        self.color_attachments.set(attachment_index, Some(attachment));
    }

    /// The draw buffer that makes color slot `render_target_index` the render target.
    pub fn set_active_render_target(&self, render_target_index: usize) -> (r: u32)
        requires
            self.wf(),
            render_target_index < Self::MAX_NUM_OF_COLOR_ATTACHMENTS,
            self.spec_color_attachment(render_target_index as int) is Some,
        ensures
            r == gl::COLOR_ATTACHMENT0 + render_target_index,
    {
        gl::COLOR_ATTACHMENT0 + render_target_index as u32
    }
}

} // verus!
