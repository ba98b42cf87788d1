//! Frame preparation: the render targets, the draw lists (opaque objects
//! front to back, transparent ones back to front, shadow casters) and the
//! per-frame statistics.
use vstd::prelude::*;

use crate::framebuffer::Framebuffer;
use crate::scene_data::NodeID;
use crate::texture::{StorageFormat, Texture2D};

verus! {

/// The framebuffers a frame draws into: the main one, with a depth texture,
/// a color texture and a normal texture, and the shadow map's, with a depth
/// texture only.
pub struct RenderTargets {
    pub render_framebuffer: Framebuffer,
    pub shadow_framebuffer: Framebuffer,
}

/// The storage format of the main depth texture.
pub open spec fn render_depth_format() -> StorageFormat {
    StorageFormat::Depth24F
}

/// The storage format of the color texture.
pub open spec fn render_color_format() -> StorageFormat {
    StorageFormat::SRGBA
}

/// The storage format of the normal texture.
pub open spec fn render_normal_format() -> StorageFormat {
    StorageFormat::RG16F
}

/// The storage format of the shadow map.
pub open spec fn shadow_depth_format() -> StorageFormat {
    StorageFormat::Depth32F
}

/// A texture of the given format whose size is `resolution`.
pub open spec fn target_texture(t: Texture2D, format: StorageFormat, resolution: (u32, u32)) -> bool {
    &&& t.spec_storage_format() == format
    &&& t.spec_width() == resolution.0 as i32
    &&& t.spec_height() == resolution.1 as i32
}

/// `t` holds a texture of the given format whose size is `resolution`.
pub open spec fn target_slot(t: Option<Texture2D>, format: StorageFormat, resolution: (u32, u32)) -> bool {
    t matches Some(x) && target_texture(x, format, resolution)
}

impl RenderTargets {
    pub const COLOR_TEXTURE_ATTACHMENT_INDEX: usize = 0;

    pub const NORMAL_TEXTURE_ATTACHMENT_INDEX: usize = 1;

    /// Both framebuffers have one resolution; the main one has its depth,
    /// color and normal textures and the shadow one its depth texture, each of
    /// its format and of that resolution; no other slot holds a texture.
    pub open spec fn complete(&self) -> bool {
        let res = self.render_framebuffer.spec_resolution();
        &&& self.render_framebuffer.wf()
        &&& self.shadow_framebuffer.wf()
        &&& self.shadow_framebuffer.spec_resolution() == res
        &&& target_slot(self.render_framebuffer.spec_depth_attachment(), render_depth_format(), res)
        &&& target_slot(self.render_framebuffer.spec_color_attachment(0), render_color_format(), res)
        &&& target_slot(self.render_framebuffer.spec_color_attachment(1), render_normal_format(), res)
        &&& forall|i: int| 2 <= i < Framebuffer::MAX_NUM_OF_COLOR_ATTACHMENTS ==> (#[trigger] self.render_framebuffer.spec_color_attachment(i)) is None
        &&& target_slot(self.shadow_framebuffer.spec_depth_attachment(), shadow_depth_format(), res)
        &&& forall|i: int| 0 <= i < Framebuffer::MAX_NUM_OF_COLOR_ATTACHMENTS ==> (#[trigger] self.shadow_framebuffer.spec_color_attachment(i)) is None
    }

    /// The storage format of the main depth texture.
    pub fn depth_format() -> (f: StorageFormat)
        ensures
            f == render_depth_format(),
    {
        StorageFormat::Depth24F
    }

    /// The storage format of the color texture.
    pub fn color_format() -> (f: StorageFormat)
        ensures
            f == render_color_format(),
    {
        StorageFormat::SRGBA
    }

    /// The storage format of the normal texture.
    pub fn normal_format() -> (f: StorageFormat)
        ensures
            f == render_normal_format(),
    {
        StorageFormat::RG16F
    }

    /// The storage format of the shadow map.
    pub fn shadow_format() -> (f: StorageFormat)
        ensures
            f == shadow_depth_format(),
    {
        StorageFormat::Depth32F
    }

    /// The render targets of a `resolution`-sized screen, over the framebuffers
    /// with the OpenGL names `render_framebuffer_id` and `shadow_framebuffer_id`
    /// and textures created at that resolution with the formats above.
    pub fn new(
        resolution: (u32, u32),
        render_framebuffer_id: u32,
        shadow_framebuffer_id: u32,
        depth: Texture2D,
        color: Texture2D,
        normal: Texture2D,
        shadow_depth: Texture2D,
    ) -> (r: Self)
        requires
            target_texture(depth, render_depth_format(), resolution),
            target_texture(color, render_color_format(), resolution),
            target_texture(normal, render_normal_format(), resolution),
            target_texture(shadow_depth, shadow_depth_format(), resolution),
        ensures
            r.complete(),
            r.render_framebuffer.spec_id() == render_framebuffer_id,
            r.shadow_framebuffer.spec_id() == shadow_framebuffer_id,
            r.render_framebuffer.spec_resolution() == resolution,
            r.render_framebuffer.spec_depth_attachment() == Some(depth),
            r.render_framebuffer.spec_color_attachment(0) == Some(color),
            r.render_framebuffer.spec_color_attachment(1) == Some(normal),
            r.shadow_framebuffer.spec_depth_attachment() == Some(shadow_depth),
    {
        let mut render_framebuffer = Framebuffer::new(render_framebuffer_id, resolution);
        render_framebuffer.create_depth_attachment(depth);
        render_framebuffer.create_color_attachment(RenderTargets::COLOR_TEXTURE_ATTACHMENT_INDEX, color);
        render_framebuffer.create_color_attachment(RenderTargets::NORMAL_TEXTURE_ATTACHMENT_INDEX, normal);
        let mut shadow_framebuffer = Framebuffer::new(shadow_framebuffer_id, resolution);
        shadow_framebuffer.create_depth_attachment(shadow_depth);
        Self { render_framebuffer, shadow_framebuffer }
    }

    /// The main depth texture: of the depth format, at the targets' resolution.
    pub fn depth_texture(&self) -> (r: &Texture2D)
        requires
            self.complete(),
        ensures
            self.render_framebuffer.spec_depth_attachment() == Some(*r),
            target_texture(*r, render_depth_format(), self.render_framebuffer.spec_resolution()),
    {
        self.render_framebuffer.depth_attachment().unwrap()
    }

    /// The color texture: of the color format, at the targets' resolution.
    pub fn color_texture(&self) -> (r: &Texture2D)
        requires
            self.complete(),
        ensures
            self.render_framebuffer.spec_color_attachment(0) == Some(*r),
            target_texture(*r, render_color_format(), self.render_framebuffer.spec_resolution()),
    {
        self.render_framebuffer.color_attachment(RenderTargets::COLOR_TEXTURE_ATTACHMENT_INDEX).unwrap()
    }

    /// The normal texture: of the normal format, at the targets' resolution.
    pub fn normal_texture(&self) -> (r: &Texture2D)
        requires
            self.complete(),
        ensures
            self.render_framebuffer.spec_color_attachment(1) == Some(*r),
            target_texture(*r, render_normal_format(), self.render_framebuffer.spec_resolution()),
    {
        self.render_framebuffer.color_attachment(RenderTargets::NORMAL_TEXTURE_ATTACHMENT_INDEX).unwrap()
    }
}

/// Half a resolution, rounded down.
pub open spec fn half_resolution(resolution: (u32, u32)) -> (u32, u32) {
    ((resolution.0 / 2) as u32, (resolution.1 / 2) as u32)
}

/// The number of work groups of `g` threads that cover `size` items.
pub open spec fn work_groups(size: int, g: int) -> int {
    (size + g - 1) / g
}

/// The resolution of the ambient occlusion pass: half the screen's.
pub fn calculate_ssao_resolution(resolution: (u32, u32)) -> (r: (u32, u32))
    ensures
        r == half_resolution(resolution),
{
    (resolution.0 / 2, resolution.1 / 2)
}

/// The number of work groups of `group_size` threads that cover `size` items.
pub fn work_group_count(size: u32, group_size: u32) -> (r: u32)
    requires
        group_size > 0,
        size + group_size - 1 <= u32::MAX,
    ensures
        r == work_groups(size as int, group_size as int),
{
    (size + (group_size - 1)) / group_size
}

pub struct RenderingStats {
    pub total_objects: u32,
    pub visible_objects: u32,
    pub frame_data_preparation_time: core::time::Duration,
}

/// A node that the frame may draw: whether it is a root node, whether it is
/// inside the camera frustum, whether its material is opaque, and its
/// distance to the camera as a key whose order is that of the distances.
#[derive(Clone, Copy)]
pub struct DrawCandidate {
    pub node_id: NodeID,
    pub is_root: bool,
    pub visible: bool,
    pub opaque: bool,
    pub distance_key: u32,
}

/// The draw lists of a frame, as positions in the candidate list.
pub struct DrawLists {
    pub opaque: Vec<usize>,
    pub transparent: Vec<usize>,
    pub shadow_casters: Vec<usize>,
}

/// The positions `0..n` whose candidate satisfies `pred`, in order.
pub open spec fn positions_where(cs: Seq<DrawCandidate>, n: int, pred: spec_fn(DrawCandidate) -> bool) -> Seq<usize>
    decreases n,
{
    if n <= 0 {
        seq![]
    } else {
        let rest = positions_where(cs, n - 1, pred);
        if pred(cs[n - 1]) {
            rest.push((n - 1) as usize)
        } else {
            rest
        }
    }
}

/// Whether `b` goes after `a` in a list sorted by key, ascending or descending.
pub open spec fn after(ka: u32, kb: u32, descending: bool) -> bool {
    if descending {
        kb < ka
    } else {
        kb > ka
    }
}

/// Whether an item with key `kb` goes after one with key `ka` in the order asked for.
fn goes_after(ka: u32, kb: u32, descending: bool) -> (r: bool)
    ensures
        r == after(ka, kb, descending),
{
    if descending {
        kb < ka
    } else {
        kb > ka
    }
}

/// The first position at or after `i` of `sorted` whose item goes after `x`.
pub open spec fn key_insert_pos(sorted: Seq<usize>, keys: Seq<u32>, x: usize, descending: bool, i: int) -> int
    decreases sorted.len() - i,
{
    if i < 0 || i >= sorted.len() {
        sorted.len() as int
    } else if after(keys[x as int], keys[sorted[i] as int], descending) {
        i
    } else {
        key_insert_pos(sorted, keys, x, descending, i + 1)
    }
}

/// Items sorted by key (ascending, or descending); items with equal keys keep their order.
pub open spec fn sort_by_key(ps: Seq<usize>, keys: Seq<u32>, descending: bool) -> Seq<usize>
    decreases ps.len(),
{
    if ps.len() == 0 {
        seq![]
    } else {
        let s = sort_by_key(ps.drop_last(), keys, descending);
        s.insert(key_insert_pos(s, keys, ps.last(), descending, 0), ps.last())
    }
}

pub open spec fn candidate_keys(cs: Seq<DrawCandidate>) -> Seq<u32> {
    cs.map_values(|c: DrawCandidate| c.distance_key)
}

pub open spec fn is_visible_opaque(c: DrawCandidate) -> bool {
    c.visible && c.opaque
}

pub open spec fn is_visible_transparent(c: DrawCandidate) -> bool {
    c.visible && !c.opaque
}

pub open spec fn is_root_candidate(c: DrawCandidate) -> bool {
    c.is_root
}

/// The opaque draw list: visible opaque candidates, nearest first.
pub open spec fn opaque_list(cs: Seq<DrawCandidate>) -> Seq<usize> {
    sort_by_key(positions_where(cs, cs.len() as int, |c: DrawCandidate| is_visible_opaque(c)), candidate_keys(cs), false)
}

/// The transparent draw list: visible transparent candidates, farthest first.
pub open spec fn transparent_list(cs: Seq<DrawCandidate>) -> Seq<usize> {
    sort_by_key(positions_where(cs, cs.len() as int, |c: DrawCandidate| is_visible_transparent(c)), candidate_keys(cs), true)
}

/// The shadow casters: every root candidate, in order.
pub open spec fn shadow_list(cs: Seq<DrawCandidate>) -> Seq<usize> {
    positions_where(cs, cs.len() as int, |c: DrawCandidate| is_root_candidate(c))
}

proof fn lemma_key_insert_pos(sorted: Seq<usize>, keys: Seq<u32>, x: usize, descending: bool, i: int)
    requires
        0 <= i <= sorted.len(),
    ensures
        i <= key_insert_pos(sorted, keys, x, descending, i) <= sorted.len(),
        forall|k: int| i <= k < key_insert_pos(sorted, keys, x, descending, i) ==> !after(keys[x as int], keys[#[trigger] sorted[k] as int], descending),
        key_insert_pos(sorted, keys, x, descending, i) < sorted.len() ==> after(keys[x as int], keys[sorted[key_insert_pos(sorted, keys, x, descending, i)] as int], descending),
    decreases sorted.len() - i,
{
    if i < sorted.len() && !after(keys[x as int], keys[sorted[i] as int], descending) {
        lemma_key_insert_pos(sorted, keys, x, descending, i + 1);
    }
}

/// A list is in key order: ascending keys, or descending ones.
pub open spec fn in_key_order(s: Seq<usize>, keys: Seq<u32>, descending: bool) -> bool {
    forall|i: int, j: int| 0 <= i < j < s.len() ==> !after(keys[s[j] as int], keys[s[i] as int], descending)
}

/// Sorting by key puts the items in key order and keeps every item.
pub proof fn law_sort_by_key_sorted(ps: Seq<usize>, keys: Seq<u32>, descending: bool)
    ensures
        in_key_order(sort_by_key(ps, keys, descending), keys, descending),
        sort_by_key(ps, keys, descending).to_multiset() == ps.to_multiset(),
    decreases ps.len(),
{
    if ps.len() > 0 {
        let s = sort_by_key(ps.drop_last(), keys, descending);
        let x = ps.last();
        law_sort_by_key_sorted(ps.drop_last(), keys, descending);
        lemma_key_insert_pos(s, keys, x, descending, 0);
        let p = key_insert_pos(s, keys, x, descending, 0);
        let r = s.insert(p, x);
        assert forall|i: int, j: int| 0 <= i < j < r.len() implies !after(keys[r[j] as int], keys[r[i] as int], descending) by {
            if j < p {
                assert(r[i] == s[i] && r[j] == s[j]);
            } else if j == p {
                assert(r[i] == s[i]);
            } else if i < p {
                assert(r[i] == s[i] && r[j] == s[j - 1]);
            } else if i == p {
                assert(r[j] == s[j - 1]);
                if p < s.len() {
                    assert(!after(keys[s[j - 1] as int], keys[s[p] as int], descending));
                }
            } else {
                assert(r[i] == s[i - 1] && r[j] == s[j - 1]);
            }
        }
        vstd::seq_lib::to_multiset_insert(s, p, x);
        assert(ps =~= ps.drop_last().push(x));
        vstd::seq_lib::to_multiset_build(ps.drop_last(), x);
    } else {
        assert(ps =~= seq![]);
    }
}

fn sort_positions(ps: &Vec<usize>, cs: &[DrawCandidate], descending: bool) -> (r: Vec<usize>)
    requires
        forall|j: int| 0 <= j < ps@.len() ==> (#[trigger] ps@[j]) < cs@.len(),
    ensures
        r@ == sort_by_key(ps@, candidate_keys(cs@), descending),
        forall|j: int| 0 <= j < r@.len() ==> (#[trigger] r@[j]) < cs@.len(),
{
    let ghost keys = candidate_keys(cs@);
    let mut sorted: Vec<usize> = Vec::new();
    let mut m: usize = 0;
    assert(ps@.take(0) =~= seq![]);
    while m < ps.len()
        invariant
            m <= ps.len(),
            keys == candidate_keys(cs@),
            forall|j: int| 0 <= j < ps@.len() ==> (#[trigger] ps@[j]) < cs@.len(),
            forall|j: int| 0 <= j < sorted@.len() ==> (#[trigger] sorted@[j]) < cs@.len(),
            sorted@ == sort_by_key(ps@.take(m as int), keys, descending),
        decreases ps.len() - m,
    {
        let x = ps[m];
        let kx = cs[x].distance_key;
        assert(kx == keys[x as int]);
        let mut p: usize = 0;
        while p < sorted.len() && !goes_after(kx, cs[sorted[p]].distance_key, descending)
            invariant
                p <= sorted.len(),
                keys == candidate_keys(cs@),
                kx == keys[x as int],
                forall|j: int| 0 <= j < sorted@.len() ==> (#[trigger] sorted@[j]) < cs@.len(),
                key_insert_pos(sorted@, keys, x, descending, 0) == key_insert_pos(sorted@, keys, x, descending, p as int),
            decreases sorted.len() - p,
        {
            assert(cs@[sorted@[p as int] as int].distance_key == keys[sorted@[p as int] as int]);
            p = p + 1;
        }
        if p < sorted.len() {
            assert(cs@[sorted@[p as int] as int].distance_key == keys[sorted@[p as int] as int]);
        }
        assert(key_insert_pos(sorted@, keys, x, descending, p as int) == p);
        let ghost before = sorted@;
        sorted.insert(p, x);
        assert(sorted@ == before.insert(p as int, x));
        assert(ps@.take(m + 1).drop_last() =~= ps@.take(m as int));
        assert(ps@.take(m + 1).last() == x);
        assert forall|j: int| 0 <= j < sorted@.len() implies (#[trigger] sorted@[j]) < cs@.len() by {
            if j < p {
                assert(sorted@[j] == before[j]);
            } else if j > p {
                assert(sorted@[j] == before[j - 1]);
            }
        }
        m = m + 1;
    }
    assert(ps@.take(ps.len() as int) =~= ps@);
    sorted
}

/// The draw lists of a frame (see `opaque_list`, `transparent_list` and `shadow_list`).
pub fn build_draw_lists(candidates: &[DrawCandidate]) -> (r: DrawLists)
    ensures
        r.opaque@ == opaque_list(candidates@),
        r.transparent@ == transparent_list(candidates@),
        r.shadow_casters@ == shadow_list(candidates@),
{
    let ghost cs = candidates@;
    let mut opaque: Vec<usize> = Vec::new();
    let mut transparent: Vec<usize> = Vec::new();
    let mut shadow: Vec<usize> = Vec::new();
    let mut i: usize = 0;
    while i < candidates.len()
        invariant
            i <= candidates.len(),
            cs == candidates@,
            opaque@ == positions_where(cs, i as int, |c: DrawCandidate| is_visible_opaque(c)),
            transparent@ == positions_where(cs, i as int, |c: DrawCandidate| is_visible_transparent(c)),
            shadow@ == positions_where(cs, i as int, |c: DrawCandidate| is_root_candidate(c)),
            forall|j: int| 0 <= j < opaque@.len() ==> (#[trigger] opaque@[j]) < i,
            forall|j: int| 0 <= j < transparent@.len() ==> (#[trigger] transparent@[j]) < i,
        decreases candidates.len() - i,
    {
        let c = candidates[i];
        if c.is_root {
            shadow.push(i);
        }
        if c.visible {
            if c.opaque {
                opaque.push(i);
            } else {
                transparent.push(i);
            }
        }
        i = i + 1;
    }
    let o = sort_positions(&opaque, candidates, false);
    let t = sort_positions(&transparent, candidates, true);
    DrawLists { opaque: o, transparent: t, shadow_casters: shadow }
}

/// The statistics of a frame: the scene's node count and the number of
/// nodes in the two draw lists.
pub fn rendering_stats(node_count: usize, lists: &DrawLists, frame_data_preparation_time: core::time::Duration) -> (s: RenderingStats)
    requires
        lists.opaque@.len() + lists.transparent@.len() <= usize::MAX,
    ensures
        s.total_objects == node_count as u32,
        s.visible_objects == (lists.opaque@.len() + lists.transparent@.len()) as u32,
        s.frame_data_preparation_time == frame_data_preparation_time,
{
    let visible = lists.opaque.len() + lists.transparent.len();
    RenderingStats {
        total_objects: #[verifier::truncate] (node_count as u32),
        visible_objects: #[verifier::truncate] (visible as u32),
        frame_data_preparation_time,
    }
}

proof fn lemma_positions_where(cs: Seq<DrawCandidate>, n: int, pred: spec_fn(DrawCandidate) -> bool, v: usize)
    requires
        0 <= n <= cs.len(),
        cs.len() <= usize::MAX,
    ensures
        positions_where(cs, n, pred).to_multiset().count(v) == (if (v as int) < n && pred(cs[v as int]) {
            1nat
        } else {
            0nat
        }),
        forall|i: int, j: int|
            0 <= i < j < positions_where(cs, n, pred).len() ==> positions_where(cs, n, pred)[i]
                < positions_where(cs, n, pred)[j],
        forall|i: int| 0 <= i < positions_where(cs, n, pred).len() ==> positions_where(cs, n, pred)[i] < n,
    decreases n,
{
    broadcast use vstd::seq_lib::group_to_multiset_ensures;

    let ps = positions_where(cs, n, pred);
    if n == 0 {
        assert(ps =~= seq![]);
        assert(!ps.contains(v));
        assert(ps.to_multiset().count(v) == 0);
    } else {
        lemma_positions_where(cs, n - 1, pred, v);
        let rest = positions_where(cs, n - 1, pred);
        let last = (n - 1) as usize;
        assert(last as int == n - 1);
        if pred(cs[n - 1]) {
            assert(ps == rest.push(last));
            assert(ps.to_multiset() =~= rest.to_multiset().insert(last));
            assert forall|i: int, j: int| 0 <= i < j < ps.len() implies ps[i] < ps[j] by {
                assert(ps[i] == rest[i]);
                if j < rest.len() {
                    assert(ps[j] == rest[j]);
                } else {
                    assert(ps[j] == last);
                }
            }
            assert forall|i: int| 0 <= i < ps.len() implies ps[i] < n by {
                if i < rest.len() {
                    assert(ps[i] == rest[i]);
                }
            }
        } else {
            assert(ps == rest);
        }
    }
}

/// Every item of a list whose multiset counts nothing from `n` on is below `n`.
proof fn lemma_items_below(s: Seq<usize>, n: int)
    requires
        forall|v: usize| (v as int) >= n ==> #[trigger] s.to_multiset().count(v) == 0,
    ensures
        forall|i: int| 0 <= i < s.len() ==> (s[i] as int) < n,
{
    broadcast use vstd::seq_lib::group_to_multiset_ensures;

    assert forall|i: int| 0 <= i < s.len() implies (s[i] as int) < n by {
        assert(s.contains(s[i]));
        assert(s.to_multiset().count(s[i]) > 0);
    }
}

/// The frame's draw lists, stated over the candidates: the opaque list holds
/// once each visible candidate with an opaque material, whether or not it is
/// a root node, and nothing else, with distances never decreasing (nearest
/// first); the transparent list holds once each visible candidate with a
/// transparent material and nothing else, with distances never increasing
/// (farthest first); the shadow casters are the root candidates, visible or
/// not, each once and in candidate order.
pub proof fn law_draw_lists(cs: Seq<DrawCandidate>)
    requires
        cs.len() <= usize::MAX,
    ensures
        forall|v: usize|
            #[trigger] opaque_list(cs).to_multiset().count(v) == (if (v as int) < cs.len() && cs[v as int].visible
                && cs[v as int].opaque {
                1nat
            } else {
                0nat
            }),
        forall|i: int, j: int|
            0 <= i < j < opaque_list(cs).len() ==> cs[opaque_list(cs)[i] as int].distance_key <= cs[opaque_list(
                cs,
            )[j] as int].distance_key,
        forall|v: usize|
            #[trigger] transparent_list(cs).to_multiset().count(v) == (if (v as int) < cs.len() && cs[v as int].visible
                && !cs[v as int].opaque {
                1nat
            } else {
                0nat
            }),
        forall|i: int, j: int|
            0 <= i < j < transparent_list(cs).len() ==> cs[transparent_list(cs)[i] as int].distance_key
                >= cs[transparent_list(cs)[j] as int].distance_key,
        forall|v: usize|
            #[trigger] shadow_list(cs).to_multiset().count(v) == (if (v as int) < cs.len() && cs[v as int].is_root {
                1nat
            } else {
                0nat
            }),
        forall|i: int, j: int| 0 <= i < j < shadow_list(cs).len() ==> shadow_list(cs)[i] < shadow_list(cs)[j],
{
    let po = |c: DrawCandidate| is_visible_opaque(c);
    let pt = |c: DrawCandidate| is_visible_transparent(c);
    let pr = |c: DrawCandidate| is_root_candidate(c);
    let n = cs.len() as int;
    let keys = candidate_keys(cs);
    let ops = positions_where(cs, n, po);
    let tps = positions_where(cs, n, pt);
    law_sort_by_key_sorted(ops, keys, false);
    law_sort_by_key_sorted(tps, keys, true);
    assert forall|v: usize| #[trigger] opaque_list(cs).to_multiset().count(v) == (if (v as int) < n && cs[v as int].visible
        && cs[v as int].opaque {
        1nat
    } else {
        0nat
    }) by {
        lemma_positions_where(cs, n, po, v);
    }
    assert forall|v: usize| #[trigger] transparent_list(cs).to_multiset().count(v) == (if (v as int) < n
        && cs[v as int].visible && !cs[v as int].opaque {
        1nat
    } else {
        0nat
    }) by {
        lemma_positions_where(cs, n, pt, v);
    }
    assert forall|v: usize| #[trigger] shadow_list(cs).to_multiset().count(v) == (if (v as int) < n && cs[v as int].is_root {
        1nat
    } else {
        0nat
    }) by {
        lemma_positions_where(cs, n, pr, v);
    }
    lemma_positions_where(cs, n, pr, 0);
    lemma_items_below(opaque_list(cs), n);
    lemma_items_below(transparent_list(cs), n);
    let o = opaque_list(cs);
    assert forall|i: int, j: int| 0 <= i < j < o.len() implies cs[o[i] as int].distance_key <= cs[o[j] as int].distance_key by {
        assert(!after(keys[o[j] as int], keys[o[i] as int], false));
    }
    let t = transparent_list(cs);
    assert forall|i: int, j: int| 0 <= i < j < t.len() implies cs[t[i] as int].distance_key >= cs[t[j] as int].distance_key by {
        assert(!after(keys[t[j] as int], keys[t[i] as int], true));
    }
}

/// The work groups cover every item and are as few as that allows: `r`
/// groups of `g` threads hold at least `size` items, and one group fewer
/// would not.
pub proof fn law_work_groups_cover(size: nat, g: nat)
    requires
        g > 0,
    ensures
        ({
            let r = work_groups(size as int, g as int);
            r >= 0 && r * g >= size && (r == 0 || (r - 1) * g < size)
        }),
{
    let r = work_groups(size as int, g as int);
    assert(r * g >= size && (r == 0 || (r - 1) * g < size) && r >= 0) by (nonlinear_arith)
        requires
            g > 0,
            r == (size + g - 1) / (g as int),
            size >= 0,
    {
        let q = size + g - 1;
        assert(q == r * g + q % (g as int));
        assert(0 <= q % (g as int) < g);
    }
}

/// The ambient occlusion pass runs at half the screen's resolution, rounded
/// down: twice its size is the screen's size or one less.
pub proof fn law_ssao_half_resolution(resolution: (u32, u32))
    ensures
        ({
            let r = half_resolution(resolution);
            &&& 2 * r.0 <= resolution.0 <= 2 * r.0 + 1
            &&& 2 * r.1 <= resolution.1 <= 2 * r.1 + 1
        }),
{
}

} // verus!
