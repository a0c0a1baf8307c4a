//! The frame renderer: which draw calls a frame consists of.
//!
//! A frame arrives as a list of meshes. The renderer keeps the texture pool
//! and decides for each mesh whether it is drawn and which resource view is
//! bound for it. Issuing the calls is the caller's part.

use vstd::prelude::*;
use crate::image::TextureId;
use crate::texture::TexturePool;
use crate::texture::TextureView;
use crate::texture::UpdatePass;
use crate::texture::UpdateStep;
use crate::texture::after_unregister;
use crate::image::TexturesDelta;
use crate::texture::install_step;
use crate::texture::registered;
use crate::texture::holds_user;
use crate::texture::resolve;
use crate::texture::update_step;

verus! {

/// What the renderer needs to know of a mesh: how many indices it has and
/// which texture it samples.
#[derive(Clone, Copy, Debug, PartialEq, Eq, Structural)]
pub struct MeshInfo {
    pub index_count: usize,
    pub texture: TextureId,
}

/// What becomes of a mesh.
#[derive(Clone, Copy, Debug, PartialEq, Eq, Structural)]
pub enum MeshKind {
    /// It has no index: there is nothing to draw.
    Empty,
    /// Its indices do not make up whole triangles: it is not drawn.
    Malformed,
    /// It is drawn.
    Drawable,
}

impl MeshInfo {
    /// What becomes of the mesh.
    pub open spec fn spec_kind(self) -> MeshKind {
        if self.index_count == 0 {
            MeshKind::Empty
        } else if self.index_count % 3 != 0 {
            MeshKind::Malformed
        } else {
            MeshKind::Drawable
        }
    }

    /// What becomes of the mesh.
    #[verifier::when_used_as_spec(spec_kind)]
    pub fn kind(self) -> (kind: MeshKind)
        ensures
            kind == self.spec_kind(),
    {
        if self.index_count == 0 {
            MeshKind::Empty
        } else if self.index_count % 3 != 0 {
            MeshKind::Malformed
        } else {
            MeshKind::Drawable
        }
    }
}

/// One clipped primitive of a frame: a triangle mesh, or a paint callback of
/// the caller's, which this renderer does not run.
#[derive(Clone, Copy, Debug, PartialEq, Eq, Structural)]
pub enum Primitive {
    Mesh(MeshInfo),
    Callback,
}

impl Primitive {
    /// Whether the primitive is drawn: it is a mesh, and a drawable one.
    pub open spec fn spec_is_drawable(self) -> bool {
        match self {
            Primitive::Mesh(mesh) => mesh.spec_kind() == MeshKind::Drawable,
            Primitive::Callback => false,
        }
    }

    /// Whether the primitive is drawn: it is a mesh, and a drawable one.
    #[verifier::when_used_as_spec(spec_is_drawable)]
    pub fn is_drawable(self) -> (drawable: bool)
        ensures
            drawable == self.spec_is_drawable(),
    {
        match self {
            Primitive::Mesh(mesh) => mesh.kind() == MeshKind::Drawable,
            Primitive::Callback => false,
        }
    }
}

/// One indexed draw call: the primitive whose mesh it draws, by its place in
/// the frame, the number of indices, and the resource view to bind at the
/// first slot of the pixel shader. Without a view the call is made all the
/// same, with what is bound there already.
#[derive(Debug, PartialEq, Eq)]
pub struct DrawCall<'a, V> {
    pub primitive: usize,
    pub index_count: usize,
    pub srv: Option<&'a V>,
}

/// The draw call for the mesh `mesh`, the primitive `at` of a frame, with a
/// pool that has the entries `entries`.
pub open spec fn draw_call<'a, T, V>(
    entries: Map<TextureId, TextureView<T, V>>,
    at: usize,
    mesh: MeshInfo,
) -> DrawCall<'a, V> {
    DrawCall {
        primitive: at,
        index_count: mesh.index_count,
        srv: match resolve(entries, mesh.texture) {
            Some(v) => Some(&v),
            None => None,
        },
    }
}

/// The draw calls of a frame with the primitives `primitives`, for a pool
/// with the entries `entries`: one for each drawable mesh, in the order of
/// the primitives.
pub open spec fn draw_calls<'a, T, V>(
    entries: Map<TextureId, TextureView<T, V>>,
    primitives: Seq<Primitive>,
) -> Seq<DrawCall<'a, V>>
    decreases primitives.len(),
{
    if primitives.len() == 0 {
        Seq::empty()
    } else {
        let last = (primitives.len() - 1) as usize;
        let before = draw_calls(entries, primitives.take(last as int));
        match primitives[last as int] {
            Primitive::Mesh(mesh) => if mesh.spec_kind() == MeshKind::Drawable {
                before.push(draw_call(entries, last, mesh))
            } else {
                before
            },
            Primitive::Callback => before,
        }
    }
}

/// The renderer: the texture pool, and the decisions of a frame.
pub struct Renderer<T, V> {
    texture_pool: TexturePool<T, V>,
}

impl<T, V> Renderer<T, V> {
    /// The texture pool.
    pub closed spec fn pool(&self) -> TexturePool<T, V> {
        self.texture_pool
    }

    pub open spec fn wf(&self) -> bool {
        self.pool().wf()
    }

    /// A renderer with no texture.
    pub fn new() -> (renderer: Self)
        ensures
            renderer.pool()@ == Map::<TextureId, TextureView<T, V>>::empty(),
            renderer.pool().next_user_id() == 0,
            renderer.wf(),
    {
        Renderer { texture_pool: TexturePool::new() }
    }

    /// The texture pool.
    pub fn texture_pool(&self) -> (pool: &TexturePool<T, V>)
        ensures
            *pool == self.pool(),
    {
        &self.texture_pool
    }

    /// Takes a resource view of the caller's into the pool and returns the
    /// id under which meshes can refer to it.
    pub fn register_user_texture(&mut self, srv: V) -> (tid: TextureId)
        requires
            old(self).wf(),
            old(self).pool().next_user_id() < u64::MAX,
        ensures
            registered(old(self).pool(), final(self).pool(), srv, tid),
            final(self).wf(),
    {
        self.texture_pool.register_user_texture(srv)
    }

    /// Removes the user texture `tid`, and says whether there was one.
    pub fn unregister_user_texture(&mut self, tid: TextureId) -> (removed: bool)
        requires
            old(self).wf(),
        ensures
            removed == holds_user(old(self).pool()@, tid),
            final(self).pool()@ == after_unregister(old(self).pool()@, tid),
            final(self).pool().next_user_id() == old(self).pool().next_user_id(),
            final(self).wf(),
    {
        self.texture_pool.unregister_user_texture(tid)
    }

    /// Starts on the texture changes of a frame: see
    /// `TexturePool::begin_update`. A frame's changes are dealt with before
    /// its meshes are drawn.
    pub fn begin_update(&self, delta: TexturesDelta) -> (pass: UpdatePass<T, V>)
        ensures
            pass.wf(),
            pass.delta() == delta,
            pass.start() == self.pool()@,
            pass.cursor() == 0,
            !pass.freed(),
            pass.gpu() == Seq::<(T, V)>::empty(),
            pass.entries() == self.pool()@,
    {
        self.texture_pool.begin_update(delta)
    }

    /// Takes the frame's texture changes one step further: see
    /// `TexturePool::update`.
    pub fn update_textures(&mut self, pass: &mut UpdatePass<T, V>) -> (step: UpdateStep)
        requires
            old(self).wf(),
            old(pass).wf(),
        ensures
            update_step(old(self).pool(), *old(pass), final(self).pool(), *final(pass), step),
    {
        self.texture_pool.update(pass)
    }

    /// Brings the texture that the GPU created for an upload: see
    /// `TexturePool::install`.
    pub fn install_texture(&mut self, pass: &mut UpdatePass<T, V>, tex: T, srv: V) -> (installed: bool)
        requires
            old(self).wf(),
            old(pass).wf(),
        ensures
            installed == old(pass).awaits_upload(),
            install_step(old(self).pool(), *old(pass), final(self).pool(), *final(pass), tex, srv),
    {
        self.texture_pool.install(pass, tex, srv)
    }

    /// The draw calls of a frame, in order: one for each primitive that is a
    /// mesh with indices, a multiple of three of them. Paint callbacks and
    /// the other meshes are left out. Each call binds the resource view that
    /// its mesh's texture resolves to, or none if the pool has no such
    /// texture.
    pub fn render<'a>(&'a self, primitives: &Vec<Primitive>) -> (calls: Vec<DrawCall<'a, V>>)
        ensures
            calls@ == draw_calls::<T, V>(self.pool()@, primitives@),
    {
        let mut calls: Vec<DrawCall<'a, V>> = Vec::new();
        let mut i: usize = 0;
        while i < primitives.len()
            invariant
                i <= primitives.len(),
                calls@ == draw_calls::<T, V>(self.pool()@, primitives@.take(i as int)),
            decreases primitives.len() - i,
        {
            proof {
                assert(primitives@.take(i + 1).take(i as int) =~= primitives@.take(i as int));
            }
            match primitives[i] {
                Primitive::Mesh(mesh) => {
                    if mesh.kind() == MeshKind::Drawable {
                        calls.push(
                            DrawCall {
                                primitive: i,
                                index_count: mesh.index_count,
                                srv: self.texture_pool.get_srv(mesh.texture),
                            },
                        );
                    }
                },
                Primitive::Callback => {},
            }
            i += 1;
        }
        proof {
            assert(primitives@.take(primitives.len() as int) =~= primitives@);
        }
        calls
    }
}

/// Every draw call of a frame draws a mesh of the frame that has indices, a
/// multiple of three of them, with the resource view that the mesh's texture
/// resolves to. The calls come in the order of the primitives, so that none
/// is drawn twice. A mesh whose indices do not make up whole triangles is
/// therefore never drawn, nor is a paint callback.
pub proof fn lemma_draw_calls_are_triangles<'a, T, V>(
    entries: Map<TextureId, TextureView<T, V>>,
    primitives: Seq<Primitive>,
)
    requires
        primitives.len() <= usize::MAX,
    ensures
        draw_calls::<T, V>(entries, primitives).len() <= primitives.len(),
        forall|j: int|
            0 <= j < draw_calls::<T, V>(entries, primitives).len() ==> {
                let call = #[trigger] draw_calls::<T, V>(entries, primitives)[j];
                &&& call.primitive < primitives.len()
                &&& primitives[call.primitive as int] matches Primitive::Mesh(mesh)
                &&& mesh.spec_kind() == MeshKind::Drawable
                &&& call == draw_call(entries, call.primitive, mesh)
                &&& call.index_count > 0
                &&& call.index_count % 3 == 0
            },
        forall|j: int, k: int|
            0 <= j < k < draw_calls::<T, V>(entries, primitives).len() ==> (#[trigger] draw_calls::<
                T,
                V,
            >(entries, primitives)[j]).primitive < (#[trigger] draw_calls::<T, V>(
                entries,
                primitives,
            )[k]).primitive,
    decreases primitives.len(),
{
    if primitives.len() > 0 {
        let last = primitives.len() - 1;
        let head = primitives.take(last);
        lemma_draw_calls_are_triangles::<T, V>(entries, head);
        let before = draw_calls::<T, V>(entries, head);
        let all = draw_calls::<T, V>(entries, primitives);
        assert forall|j: int| 0 <= j < before.len() implies #[trigger] all[j] == before[j] && head[before[j].primitive as int]
            == primitives[before[j].primitive as int] by {}
    }
}

/// Every drawable mesh of a frame has its draw call.
pub proof fn lemma_drawable_is_drawn<'a, T, V>(
    entries: Map<TextureId, TextureView<T, V>>,
    primitives: Seq<Primitive>,
    at: int,
)
    requires
        primitives.len() <= usize::MAX,
        0 <= at < primitives.len(),
        primitives[at].spec_is_drawable(),
    ensures
        exists|j: int|
            0 <= j < draw_calls::<T, V>(entries, primitives).len() && (#[trigger] draw_calls::<T, V>(
                entries,
                primitives,
            )[j]).primitive == at,
    decreases primitives.len(),
{
    let last = primitives.len() - 1;
    let head = primitives.take(last);
    let before = draw_calls::<T, V>(entries, head);
    let all = draw_calls::<T, V>(entries, primitives);
    if at < last {
        lemma_draw_calls_are_triangles::<T, V>(entries, head);
        lemma_drawable_is_drawn::<T, V>(entries, head, at);
        let j = choose|j: int| 0 <= j < before.len() && (#[trigger] before[j]).primitive == at;
        assert(all[j] == before[j]);
    } else {
        assert(all[before.len() as int].primitive == at);
    }
}

} // verus!
