//! The texture pool: which GPU texture stands behind each texture id.
//!
//! The pool never calls the GPU. The handle types `T` (a 2D texture) and `V`
//! (a resource view a shader can sample) belong to the caller, and the pool
//! stores and returns them untouched.

use std::collections::HashMap;
use vstd::prelude::*;
use crate::image::Color32;
use crate::image::ColorImage;
use crate::image::TextureId;
use crate::image::ImageDelta;
use crate::image::RegionUpdate;
use crate::image::TextureUpload;
use crate::image::TexturesDelta;
use crate::image::blit;

verus! {

broadcast use vstd::std_specs::hash::group_hash_axioms;

/// A texture whose content this crate keeps up to date: the GPU texture, the
/// view through which it is sampled, and a copy of every pixel it holds.
pub struct ManagedTexture<T, V> {
    pub tex: T,
    pub srv: V,
    pub image: ColorImage,
}

/// An entry of the pool.
pub enum Texture<T, V> {
    /// Created from pixel data and updated by this crate.
    Managed(ManagedTexture<T, V>),
    /// A resource view of the caller's; its content is never touched.
    User { srv: V },
}

/// What an entry of the pool stands for.
pub enum TextureView<T, V> {
    Managed { tex: T, srv: V, width: nat, height: nat, pixels: Seq<Color32> },
    User { srv: V },
}

impl<T, V> TextureView<T, V> {
    pub open spec fn is_managed(self) -> bool {
        self is Managed
    }

    pub open spec fn is_user(self) -> bool {
        self is User
    }

    /// The resource view to sample the texture through.
    pub open spec fn srv(self) -> V {
        match self {
            TextureView::Managed { srv, .. } => srv,
            TextureView::User { srv } => srv,
        }
    }

    /// A managed texture keeps one pixel per texel, and few enough of them
    /// to count their bytes.
    pub open spec fn wf(self) -> bool {
        match self {
            TextureView::Managed { width, height, pixels, .. } => {
                &&& pixels.len() == width * height
                &&& width * 4 <= usize::MAX
                &&& width * height * 4 <= usize::MAX
            },
            TextureView::User { .. } => true,
        }
    }
}

impl<T, V> View for Texture<T, V> {
    type V = TextureView<T, V>;

    open spec fn view(&self) -> TextureView<T, V> {
        match *self {
            Texture::Managed(m) => TextureView::Managed {
                tex: m.tex,
                srv: m.srv,
                width: m.image.width as nat,
                height: m.image.height as nat,
                pixels: m.image.pixels@,
            },
            Texture::User { srv } => TextureView::User { srv },
        }
    }
}

impl<T, V> Texture<T, V> {
    pub fn is_managed(&self) -> (b: bool)
        ensures
            b == self@.is_managed(),
    {
        match self {
            Texture::Managed(_) => true,
            Texture::User { .. } => false,
        }
    }

    pub fn is_user(&self) -> (b: bool)
        ensures
            b == self@.is_user(),
    {
        match self {
            Texture::Managed(_) => false,
            Texture::User { .. } => true,
        }
    }

    /// The resource view to sample the texture through.
    pub fn srv(&self) -> (srv: &V)
        ensures
            *srv == self@.srv(),
    {
        match self {
            Texture::Managed(m) => &m.srv,
            Texture::User { srv } => srv,
        }
    }
}

/// The resource view that `tid` resolves to in a pool with the entries
/// `entries`, if it has an entry.
pub open spec fn resolve<T, V>(entries: Map<TextureId, TextureView<T, V>>, tid: TextureId) -> Option<V> {
    if entries.contains_key(tid) {
        Some(entries[tid].srv())
    } else {
        None
    }
}

/// Whether `tid` has an entry, and a user texture stands there.
pub open spec fn holds_user<T, V>(entries: Map<TextureId, TextureView<T, V>>, tid: TextureId) -> bool {
    entries.contains_key(tid) && entries[tid].is_user()
}

/// Whether `tid` has an entry, and a managed texture stands there.
pub open spec fn holds_managed<T, V>(entries: Map<TextureId, TextureView<T, V>>, tid: TextureId) -> bool {
    entries.contains_key(tid) && entries[tid].is_managed()
}

/// The entries of a pool after `unregister_user_texture(tid)`.
pub open spec fn after_unregister<T, V>(
    entries: Map<TextureId, TextureView<T, V>>,
    tid: TextureId,
) -> Map<TextureId, TextureView<T, V>> {
    if holds_user(entries, tid) {
        entries.remove(tid)
    } else {
        entries
    }
}

/// Whether `after` is the pool `before` after `srv` was registered in it
/// under the id `tid`.
pub open spec fn registered<T, V>(
    before: TexturePool<T, V>,
    after: TexturePool<T, V>,
    srv: V,
    tid: TextureId,
) -> bool {
    &&& before.next_user_id() < u64::MAX
    &&& tid == TextureId::User(before.next_user_id())
    &&& after.next_user_id() == before.next_user_id() + 1
    &&& after@ == before@.insert(tid, TextureView::User { srv })
}

/// What becomes of a delta that sets the content of a texture.
#[derive(Clone, Copy, Debug, PartialEq, Eq, Structural)]
pub enum SetKind {
    /// The image does not hold one pixel per texel: the delta is skipped.
    Malformed,
    /// A texture is created from the image and takes the id's entry.
    Upload,
    /// The image is written into the managed texture that the id has.
    Patch,
    /// The id has no entry or a user texture: the delta is skipped.
    NotManaged,
    /// The image is no full upload and has no position: the delta is skipped.
    MissingOffset,
    /// The image does not lie within the texture: the delta is skipped.
    OutOfRange,
}

/// What becomes of the delta `delta` for the id `tid` in a pool with the
/// entries `entries`.
pub open spec fn classify<T, V>(
    entries: Map<TextureId, TextureView<T, V>>,
    tid: TextureId,
    delta: &ImageDelta,
) -> SetKind {
    if !delta.image.wf() {
        SetKind::Malformed
    } else if delta.spec_is_full_upload() {
        SetKind::Upload
    } else if !holds_managed(entries, tid) {
        SetKind::NotManaged
    } else {
        match delta.pos {
            None => SetKind::MissingOffset,
            Some((nx, ny)) => if nx + delta.image.width <= entries[tid]->width && ny
                + delta.image.height <= entries[tid]->height {
                SetKind::Patch
            } else {
                SetKind::OutOfRange
            },
        }
    }
}

/// The entries after a texture created from `image`, with the GPU handles
/// `tex` and `srv`, took the entry of `tid`.
pub open spec fn after_upload<T, V>(
    entries: Map<TextureId, TextureView<T, V>>,
    tid: TextureId,
    image: &ColorImage,
    tex: T,
    srv: V,
) -> Map<TextureId, TextureView<T, V>> {
    entries.insert(
        tid,
        TextureView::Managed {
            tex,
            srv,
            width: image.width as nat,
            height: image.height as nat,
            pixels: image.pixels@,
        },
    )
}

/// The entries after `image` was written into the managed texture of `tid`
/// with its top-left corner at column `nx`, row `ny`. The texture keeps its
/// handles and its size.
pub open spec fn after_patch<T, V>(
    entries: Map<TextureId, TextureView<T, V>>,
    tid: TextureId,
    image: &ColorImage,
    nx: usize,
    ny: usize,
) -> Map<TextureId, TextureView<T, V>> {
    let old = entries[tid];
    entries.insert(
        tid,
        TextureView::Managed {
            tex: old->tex,
            srv: old->Managed_srv,
            width: old->width,
            height: old->height,
            pixels: blit(
                old->pixels,
                old->width as int,
                image.pixels@,
                image.width as int,
                image.height as int,
                nx as int,
                ny as int,
            ),
        },
    )
}

/// The entries after the delta `delta` for `tid` was dealt with. `tex` and
/// `srv` are the handles of the texture that the GPU created for it; they
/// count only where the delta is an upload.
pub open spec fn after_set<T, V>(
    entries: Map<TextureId, TextureView<T, V>>,
    tid: TextureId,
    delta: &ImageDelta,
    tex: T,
    srv: V,
) -> Map<TextureId, TextureView<T, V>> {
    match classify(entries, tid, delta) {
        SetKind::Upload => after_upload(entries, tid, &delta.image, tex, srv),
        SetKind::Patch => match delta.pos {
            Some((nx, ny)) => after_patch(entries, tid, &delta.image, nx, ny),
            None => entries,
        },
        _ => entries,
    }
}

/// The entries after the deltas of `set` were dealt with in order, where the
/// GPU created the texture with the handles `gpu[i]` for the delta `set[i]`.
pub open spec fn after_sets<T, V>(
    entries: Map<TextureId, TextureView<T, V>>,
    set: Seq<(TextureId, ImageDelta)>,
    gpu: Seq<(T, V)>,
) -> Map<TextureId, TextureView<T, V>>
    decreases set.len(),
{
    if set.len() == 0 {
        entries
    } else {
        let last = set.len() - 1;
        after_set(
            after_sets(entries, set.take(last), gpu),
            set[last].0,
            &set[last].1,
            gpu[last].0,
            gpu[last].1,
        )
    }
}

/// The entries after every id of `free` that had a managed texture lost its
/// entry. User textures stay.
pub open spec fn after_free<T, V>(
    entries: Map<TextureId, TextureView<T, V>>,
    free: Seq<TextureId>,
) -> Map<TextureId, TextureView<T, V>> {
    Map::new(
        |tid: TextureId| entries.contains_key(tid) && !(free.contains(tid) && entries[tid].is_managed()),
        |tid: TextureId| entries[tid],
    )
}

/// The entries after a whole batch: every delta of `set` in order, then
/// every id of `free`.
pub open spec fn after_update<T, V>(
    entries: Map<TextureId, TextureView<T, V>>,
    delta: &TexturesDelta,
    gpu: Seq<(T, V)>,
) -> Map<TextureId, TextureView<T, V>> {
    after_free(after_sets(entries, delta.set@, gpu), delta.free@)
}

/// The textures behind the ids that draw calls refer to. Each id has at most
/// one entry.
pub struct TexturePool<T, V> {
    managed_ids: HashMap<u64, Texture<T, V>>,
    user_ids: HashMap<u64, Texture<T, V>>,
    next_user_texture_id: u64,
}

impl<T, V> View for TexturePool<T, V> {
    type V = Map<TextureId, TextureView<T, V>>;

    /// The entries of the pool, by id.
    closed spec fn view(&self) -> Map<TextureId, TextureView<T, V>> {
        Map::new(
            |tid: TextureId|
                match tid {
                    TextureId::Managed(n) => self.managed_ids@.contains_key(n),
                    TextureId::User(n) => self.user_ids@.contains_key(n),
                },
            |tid: TextureId|
                match tid {
                    TextureId::Managed(n) => self.managed_ids@[n]@,
                    TextureId::User(n) => self.user_ids@[n]@,
                },
        )
    }
}

impl<T, V> TexturePool<T, V> {
    /// The number the next registered user texture gets.
    pub closed spec fn next_user_id(&self) -> u64 {
        self.next_user_texture_id
    }

    /// Every entry is well-formed.
    pub open spec fn wf(&self) -> bool {
        forall|tid: TextureId| #[trigger] self@.contains_key(tid) ==> self@[tid].wf()
    }

    /// The number the next registered user texture gets. Registration is
    /// possible as long as it is below `u64::MAX`.
    pub fn next_user_texture_id(&self) -> (next: u64)
        ensures
            next == self.next_user_id(),
    {
        self.next_user_texture_id
    }

    /// An empty pool.
    pub fn new() -> (pool: Self)
        ensures
            pool@ == Map::<TextureId, TextureView<T, V>>::empty(),
            pool.next_user_id() == 0,
            pool.wf(),
    {
        let pool = TexturePool {
            managed_ids: HashMap::new(),
            user_ids: HashMap::new(),
            next_user_texture_id: 0,
        };
        assert(pool@ =~= Map::<TextureId, TextureView<T, V>>::empty());
        pool
    }

    fn entry(&self, tid: TextureId) -> (found: Option<&Texture<T, V>>)
        ensures
            match found {
                Some(t) => self@.contains_key(tid) && self@[tid] == t@,
                None => !self@.contains_key(tid),
            },
    {
        match tid {
            TextureId::Managed(n) => self.managed_ids.get(&n),
            TextureId::User(n) => self.user_ids.get(&n),
        }
    }

    fn put(&mut self, tid: TextureId, texture: Texture<T, V>)
        ensures
            final(self)@ == old(self)@.insert(tid, texture@),
            final(self).next_user_id() == old(self).next_user_id(),
    {
        match tid {
            TextureId::Managed(n) => {
                self.managed_ids.insert(n, texture);
            },
            TextureId::User(n) => {
                self.user_ids.insert(n, texture);
            },
        }
        assert(self@ =~= old(self)@.insert(tid, texture@));
    }

    fn take(&mut self, tid: TextureId) -> (taken: Option<Texture<T, V>>)
        ensures
            final(self)@ == old(self)@.remove(tid),
            final(self).next_user_id() == old(self).next_user_id(),
            match taken {
                Some(t) => old(self)@.contains_key(tid) && old(self)@[tid] == t@,
                None => !old(self)@.contains_key(tid),
            },
    {
        let taken = match tid {
            TextureId::Managed(n) => self.managed_ids.remove(&n),
            TextureId::User(n) => self.user_ids.remove(&n),
        };
        assert(self@ =~= old(self)@.remove(tid));
        taken
    }

    /// The resource view to sample the texture `tid` through, whether it is
    /// managed or the caller's own; nothing if the id has no entry.
    pub fn get_srv(&self, tid: TextureId) -> (srv: Option<&V>)
        ensures
            match srv {
                Some(v) => resolve(self@, tid) == Some(*v),
                None => resolve(self@, tid) is None,
            },
    {
        match self.entry(tid) {
            Some(t) => Some(t.srv()),
            None => None,
        }
    }

    /// Takes a resource view of the caller's into the pool and returns the id
    /// under which draw calls can refer to it: a user id that no earlier
    /// registration returned.
    pub fn register_user_texture(&mut self, srv: V) -> (tid: TextureId)
        requires
            old(self).wf(),
            old(self).next_user_id() < u64::MAX,
        ensures
            registered(*old(self), *final(self), srv, tid),
            final(self).wf(),
    {
        let tid = TextureId::User(self.next_user_texture_id);
        self.next_user_texture_id += 1;
        self.put(tid, Texture::User { srv });
        tid
    }

    /// Removes the entry of `tid` if it is a user texture, and says whether
    /// it did. A managed texture or an id without an entry is left alone.
    pub fn unregister_user_texture(&mut self, tid: TextureId) -> (removed: bool)
        requires
            old(self).wf(),
        ensures
            removed == holds_user(old(self)@, tid),
            final(self)@ == after_unregister(old(self)@, tid),
            final(self).next_user_id() == old(self).next_user_id(),
            final(self).wf(),
    {
        let is_user = match self.entry(tid) {
            Some(t) => t.is_user(),
            None => false,
        };
        if is_user {
            self.take(tid);
            true
        } else {
            false
        }
    }

    /// Decides what becomes of the delta `delta` for the id `tid`.
    pub fn plan(&self, tid: TextureId, delta: &ImageDelta) -> (kind: SetKind)
        requires
            self.wf(),
        ensures
            kind == classify(self@, tid, delta),
    {
        if !delta.image.is_wf() {
            return SetKind::Malformed;
        }
        if delta.is_full_upload() {
            return SetKind::Upload;
        }
        let target = match self.entry(tid) {
            Some(Texture::Managed(m)) => m,
            _ => { return SetKind::NotManaged; },
        };
        match delta.pos {
            None => SetKind::MissingOffset,
            Some((nx, ny)) => if target.image.fits(&delta.image, nx, ny) {
                SetKind::Patch
            } else {
                SetKind::OutOfRange
            },
        }
    }

    /// Gives `tid` a managed texture that holds `image`, with the GPU
    /// texture `tex` created for it and its resource view `srv`. An entry
    /// that the id had is dropped, and its GPU handles with it.
    pub fn insert_managed(&mut self, tid: TextureId, image: &ColorImage, tex: T, srv: V)
        requires
            old(self).wf(),
            image.wf(),
        ensures
            final(self)@ == after_upload(old(self)@, tid, image, tex, srv),
            final(self).next_user_id() == old(self).next_user_id(),
            final(self).wf(),
    {
        let texture = Texture::Managed(ManagedTexture { tex, srv, image: image.duplicate() });
        self.put(tid, texture);
    }

    /// Writes `image` into the pixels kept for the managed texture `tid`,
    /// with its top-left corner at column `nx`, row `ny`, and returns the
    /// GPU copy that brings the texture itself up to date: exactly that
    /// rectangle, with the image's bytes.
    pub fn update_partial(&mut self, tid: TextureId, image: &ColorImage, nx: usize, ny: usize) -> (region:
        RegionUpdate)
        requires
            old(self).wf(),
            image.wf(),
            holds_managed(old(self)@, tid),
            nx + image.width <= old(self)@[tid]->width,
            ny + image.height <= old(self)@[tid]->height,
        ensures
            final(self)@ == after_patch(old(self)@, tid, image, nx, ny),
            final(self).next_user_id() == old(self).next_user_id(),
            final(self).wf(),
            region.carries(image, nx, ny),
    {
        match self.take(tid) {
            Some(Texture::Managed(m)) => {
                let mut m = m;
                m.image.write_region(image, nx, ny);
                self.put(tid, Texture::Managed(m));
                assert(self@ =~= after_patch(old(self)@, tid, image, nx, ny));
            },
            _ => {},
        }
        image.region(nx, ny)
    }

    /// The GPU texture of the managed texture `tid`, for a copy into it.
    pub fn get_tex(&self, tid: TextureId) -> (tex: Option<&T>)
        ensures
            match tex {
                Some(t) => holds_managed(self@, tid) && *t == self@[tid]->tex,
                None => !holds_managed(self@, tid),
            },
    {
        match self.entry(tid) {
            Some(Texture::Managed(m)) => Some(&m.tex),
            _ => None,
        }
    }

    /// The pixels kept for the managed texture `tid`.
    pub fn get_image(&self, tid: TextureId) -> (image: Option<&ColorImage>)
        ensures
            match image {
                Some(img) => {
                    &&& holds_managed(self@, tid)
                    &&& img.width == self@[tid]->width
                    &&& img.height == self@[tid]->height
                    &&& img.pixels@ == self@[tid]->pixels
                },
                None => !holds_managed(self@, tid),
            },
    {
        match self.entry(tid) {
            Some(Texture::Managed(m)) => Some(&m.image),
            _ => None,
        }
    }

    /// Drops the entry of every id of `free` that has a managed texture.
    /// User textures stay: only `unregister_user_texture` removes them.
    pub fn free(&mut self, free: &Vec<TextureId>)
        requires
            old(self).wf(),
        ensures
            final(self)@ == after_free(old(self)@, free@),
            final(self).next_user_id() == old(self).next_user_id(),
            final(self).wf(),
    {
        let mut i: usize = 0;
        assert(self@ =~= after_free(old(self)@, free@.take(0)));
        while i < free.len()
            invariant
                i <= free.len(),
                self@ == after_free(old(self)@, free@.take(i as int)),
                self.next_user_id() == old(self).next_user_id(),
                self.wf(),
                old(self).wf(),
            decreases free.len() - i,
        {
            let tid = free[i];
            let managed = match self.entry(tid) {
                Some(t) => t.is_managed(),
                None => false,
            };
            let ghost before = self@;
            if managed {
                self.take(tid);
            }
            proof {
                let done = free@.take(i as int);
                let next = free@.take(i + 1);
                assert(next =~= done.push(tid));
                assert forall|t: TextureId| next.contains(t) <==> (done.contains(t) || t == tid) by {
                    if done.contains(t) {
                        let k = choose|k: int| 0 <= k < done.len() && done[k] == t;
                        assert(next[k] == t);
                    }
                    if t == tid {
                        assert(next[i as int] == tid);
                    }
                }
                assert(self@ =~= after_free(old(self)@, next));
            }
            i += 1;
        }
        assert(free@.take(free.len() as int) =~= free@);
    }

    /// Starts on a batch of texture changes for this pool.
    pub fn begin_update(&self, delta: TexturesDelta) -> (pass: UpdatePass<T, V>)
        ensures
            pass.wf(),
            pass.delta() == delta,
            pass.start() == self@,
            pass.cursor() == 0,
            !pass.freed(),
            pass.gpu() == Seq::<(T, V)>::empty(),
            pass.entries() == self@,
    {
        let pass = UpdatePass {
            delta,
            cursor: 0,
            freed: false,
            start: Ghost(self@),
            gpu: Ghost(Seq::empty()),
        };
        assert(pass.delta.set@.take(0) =~= Seq::empty());
        pass
    }

    /// Takes the batch `pass` one step further and says what the GPU has to
    /// do before the next step.
    ///
    /// The deltas that set content are dealt with one per step, in order. An
    /// upload is only announced: the pool stays as it is until `install`
    /// brings the texture that the GPU created. When no such delta is left,
    /// the ids to free lose their entries, all at once, and the batch is
    /// done. So where a batch uploads a texture and frees it, the texture is
    /// gone at the end.
    pub fn update(&mut self, pass: &mut UpdatePass<T, V>) -> (step: UpdateStep)
        requires
            old(self).wf(),
            old(pass).wf(),
        ensures
            update_step(*old(self), *old(pass), *final(self), *final(pass), step),
    {
        if pass.cursor < pass.delta.set.len() {
            let item = &pass.delta.set[pass.cursor];
            let tid = item.0;
            let delta = &item.1;
            match self.plan(tid, delta) {
                SetKind::Upload => UpdateStep::CreateTexture(delta.image.upload()),
                SetKind::Patch => {
                    match delta.pos {
                        Some((nx, ny)) => {
                            let region = self.update_partial(tid, &delta.image, nx, ny);
                            proof {
                                lemma_pass_moves_on(*pass, arbitrary());
                            }
                            pass.cursor += 1;
                            pass.gpu = Ghost(pass.gpu@.push(arbitrary()));
                            UpdateStep::UpdateRegion(tid, region)
                        },
                        None => {
                            proof {
                                lemma_pass_moves_on(*pass, arbitrary());
                            }
                            pass.cursor += 1;
                            pass.gpu = Ghost(pass.gpu@.push(arbitrary()));
                            UpdateStep::Rejected(tid, SetKind::MissingOffset)
                        },
                    }
                },
                kind => {
                    proof {
                        lemma_pass_moves_on(*pass, arbitrary());
                    }
                    pass.cursor += 1;
                    pass.gpu = Ghost(pass.gpu@.push(arbitrary()));
                    UpdateStep::Rejected(tid, kind)
                },
            }
        } else {
            proof {
                assert(pass.delta.set@.take(pass.cursor as int) =~= pass.delta.set@);
            }
            if !pass.freed {
                self.free(&pass.delta.free);
                pass.freed = true;
            }
            UpdateStep::Done
        }
    }

    /// Brings the texture that the GPU created for the upload which `update`
    /// announced: `tex`, and its resource view `srv`. The texture takes the
    /// entry of the delta's id, and the batch moves on to the next delta.
    /// Where the batch awaits no upload nothing changes, and the result says
    /// so.
    pub fn install(&mut self, pass: &mut UpdatePass<T, V>, tex: T, srv: V) -> (installed: bool)
        requires
            old(self).wf(),
            old(pass).wf(),
        ensures
            installed == old(pass).awaits_upload(),
            install_step(*old(self), *old(pass), *final(self), *final(pass), tex, srv),
    {
        if pass.cursor < pass.delta.set.len() {
            let item = &pass.delta.set[pass.cursor];
            if item.1.image.is_wf() && item.1.is_full_upload() {
                self.insert_managed(item.0, &item.1.image, tex, srv);
                proof {
                    lemma_pass_moves_on(*pass, (tex, srv));
                }
                pass.cursor += 1;
                pass.gpu = Ghost(pass.gpu@.push((tex, srv)));
                return true;
            }
        }
        false
    }
}

/// A batch of texture changes on its way through a pool: the changes, and
/// how far they have been dealt with. It also remembers, for contracts only,
/// the entries that the pool had when the batch began and the handles that
/// `install` brought.
pub struct UpdatePass<T, V> {
    delta: TexturesDelta,
    cursor: usize,
    freed: bool,
    start: Ghost<Map<TextureId, TextureView<T, V>>>,
    gpu: Ghost<Seq<(T, V)>>,
}

/// What the GPU has to do after a step of a batch.
#[derive(Debug, PartialEq, Eq)]
pub enum UpdateStep {
    /// Create a texture with this content, then hand it to `install`.
    CreateTexture(TextureUpload),
    /// Copy this region into the GPU texture of this id.
    UpdateRegion(TextureId, RegionUpdate),
    /// Nothing: a delta for this id was skipped, for this reason.
    Rejected(TextureId, SetKind),
    /// Nothing: the batch is through.
    Done,
}

impl<T, V> UpdatePass<T, V> {
    /// The batch.
    pub closed spec fn delta(&self) -> TexturesDelta {
        self.delta
    }

    /// How many of the deltas that set content have been dealt with.
    pub closed spec fn cursor(&self) -> nat {
        self.cursor as nat
    }

    /// Whether the ids to free have been dealt with.
    pub closed spec fn freed(&self) -> bool {
        self.freed
    }

    /// The entries that the pool had when the batch began.
    pub closed spec fn start(&self) -> Map<TextureId, TextureView<T, V>> {
        self.start@
    }

    /// One pair of handles for each delta dealt with: for an upload those
    /// that `install` brought for it.
    pub closed spec fn gpu(&self) -> Seq<(T, V)> {
        self.gpu@
    }

    pub open spec fn wf(&self) -> bool {
        &&& self.cursor() <= self.delta().set@.len()
        &&& self.gpu().len() == self.cursor()
        &&& self.freed() ==> self.cursor() == self.delta().set@.len()
    }

    /// The entries that the batch has led to so far: those it began with,
    /// after the deltas dealt with and, once they are all dealt with, after
    /// the ids to free. A pool that only the batch has touched since it
    /// began has these entries.
    pub open spec fn entries(&self) -> Map<TextureId, TextureView<T, V>> {
        let set = after_sets(
            self.start(),
            self.delta().set@.take(self.cursor() as int),
            self.gpu(),
        );
        if self.freed() {
            after_free(set, self.delta().free@)
        } else {
            set
        }
    }

    /// Whether the next delta is an upload, for which `install` is due.
    pub open spec fn awaits_upload(&self) -> bool {
        &&& self.cursor() < self.delta().set@.len()
        &&& self.delta().set@[self.cursor() as int].1.image.wf()
        &&& self.delta().set@[self.cursor() as int].1.spec_is_full_upload()
    }

    pub open spec fn spec_is_done(&self) -> bool {
        self.freed() && self.cursor() >= self.delta().set@.len()
    }

    /// Whether every step of the batch has been taken.
    #[verifier::when_used_as_spec(spec_is_done)]
    pub fn is_done(&self) -> (done: bool)
        ensures
            done == self.spec_is_done(),
    {
        self.freed && self.cursor >= self.delta.set.len()
    }
}

/// Whether `step` is the step of `TexturePool::update` that takes the pool
/// `pool`, at the point `pass` of a batch, to the pool `pool_after` and the
/// point `pass_after`.
pub open spec fn update_step<T, V>(
    pool: TexturePool<T, V>,
    pass: UpdatePass<T, V>,
    pool_after: TexturePool<T, V>,
    pass_after: UpdatePass<T, V>,
    step: UpdateStep,
) -> bool {
    let set = pass.delta().set@;
    let i = pass.cursor() as int;
    &&& pool_after.wf()
    &&& pass_after.wf()
    &&& pass_after.delta() == pass.delta()
    &&& pass_after.start() == pass.start()
    &&& pool_after.next_user_id() == pool.next_user_id()
    &&& pool@ == pass.entries() ==> pool_after@ == pass_after.entries()
    &&& if i < set.len() {
        let tid = set[i].0;
        let delta = &set[i].1;
        &&& pass_after.freed() == pass.freed()
        &&& match classify(pool@, tid, delta) {
            SetKind::Upload => {
                &&& step matches UpdateStep::CreateTexture(upload)
                &&& upload.carries(&delta.image)
                &&& pool_after@ == pool@
                &&& pass_after.cursor() == i
                &&& pass_after.gpu() == pass.gpu()
            },
            SetKind::Patch => {
                &&& step matches UpdateStep::UpdateRegion(t, region)
                &&& delta.pos matches Some((nx, ny))
                &&& t == tid
                &&& region.carries(&delta.image, nx, ny)
                &&& pool_after@ == after_patch(pool@, tid, &delta.image, nx, ny)
                &&& pass_after.cursor() == i + 1
            },
            kind => {
                &&& step matches UpdateStep::Rejected(t, k)
                &&& t == tid
                &&& k == kind
                &&& pool_after@ == pool@
                &&& pass_after.cursor() == i + 1
            },
        }
    } else {
        &&& step is Done
        &&& pass_after.spec_is_done()
        &&& pass_after.cursor() == i
        &&& pass_after.gpu() == pass.gpu()
        &&& pool_after@ == if pass.freed() {
            pool@
        } else {
            after_free(pool@, pass.delta().free@)
        }
        &&& pass_after.entries() == after_update(pass.start(), &pass.delta(), pass.gpu())
    }
}

/// Whether `TexturePool::install` with the handles `tex` and `srv` takes
/// the pool `pool`, at the point `pass` of a batch, to the pool `pool_after`
/// and the point `pass_after`.
pub open spec fn install_step<T, V>(
    pool: TexturePool<T, V>,
    pass: UpdatePass<T, V>,
    pool_after: TexturePool<T, V>,
    pass_after: UpdatePass<T, V>,
    tex: T,
    srv: V,
) -> bool {
    let i = pass.cursor() as int;
    &&& pool_after.wf()
    &&& pass_after.wf()
    &&& pass_after.delta() == pass.delta()
    &&& pass_after.start() == pass.start()
    &&& pass_after.freed() == pass.freed()
    &&& pool_after.next_user_id() == pool.next_user_id()
    &&& pool@ == pass.entries() ==> pool_after@ == pass_after.entries()
    &&& if pass.awaits_upload() {
        &&& pass_after.cursor() == i + 1
        &&& pass_after.gpu() == pass.gpu().push((tex, srv))
        &&& pool_after@ == after_upload(
            pool@,
            pass.delta().set@[i].0,
            &pass.delta().set@[i].1.image,
            tex,
            srv,
        )
    } else {
        &&& pass_after.cursor() == i
        &&& pass_after.gpu() == pass.gpu()
        &&& pool_after@ == pool@
    }
}

/// The entries after a run of deltas depend on the handles of those deltas
/// only.
pub proof fn lemma_after_sets_handles<T, V>(
    entries: Map<TextureId, TextureView<T, V>>,
    set: Seq<(TextureId, ImageDelta)>,
    gpu: Seq<(T, V)>,
    other: Seq<(T, V)>,
)
    requires
        forall|i: int| 0 <= i < set.len() ==> gpu[i] == other[i],
    ensures
        after_sets(entries, set, gpu) == after_sets(entries, set, other),
    decreases set.len(),
{
    if set.len() > 0 {
        lemma_after_sets_handles(entries, set.take(set.len() - 1), gpu, other);
    }
}

/// Once the next delta of a batch is dealt with, with the handles `handles`,
/// the batch has led to what `after_set` makes of where it stood.
pub proof fn lemma_pass_moves_on<T, V>(pass: UpdatePass<T, V>, handles: (T, V))
    requires
        pass.wf(),
        pass.cursor() < pass.delta().set@.len(),
    ensures
        ({
            let set = pass.delta().set@;
            let i = pass.cursor() as int;
            after_sets(pass.start(), set.take(i + 1), pass.gpu().push(handles)) == after_set(
                pass.entries(),
                set[i].0,
                &set[i].1,
                handles.0,
                handles.1,
            )
        }),
{
    let set = pass.delta().set@;
    let i = pass.cursor() as int;
    assert(set.take(i + 1).take(i) =~= set.take(i));
    lemma_after_sets_handles(pass.start(), set.take(i), pass.gpu(), pass.gpu().push(handles));
}

} // verus!
