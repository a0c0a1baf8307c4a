//! What holds of the texture pool across its operations.

use vstd::prelude::*;
use crate::image::ImageDelta;
use crate::image::TextureId;
use crate::image::TexturesDelta;
use crate::texture::SetKind;
use crate::texture::TexturePool;
use crate::texture::TextureView;
use crate::texture::UpdatePass;
use crate::texture::after_free;
use crate::texture::after_set;
use crate::texture::after_sets;
use crate::texture::after_unregister;
use crate::texture::after_update;
use crate::texture::classify;
use crate::texture::holds_managed;
use crate::texture::holds_user;
use crate::texture::registered;
use crate::texture::resolve;

verus! {

/// Once a user texture was unregistered, its id resolves to nothing, and
/// unregistering it once more removes nothing. An id that had no user
/// texture resolves to what it resolved to before.
pub proof fn lemma_unregistered_is_gone<T, V>(
    entries: Map<TextureId, TextureView<T, V>>,
    tid: TextureId,
)
    ensures
        holds_user(entries, tid) ==> resolve(after_unregister(entries, tid), tid) is None,
        !holds_user(entries, tid) ==> resolve(after_unregister(entries, tid), tid) == resolve(
            entries,
            tid,
        ),
        !holds_user(after_unregister(entries, tid), tid),
        after_unregister(after_unregister(entries, tid), tid) == after_unregister(entries, tid),
{
}

/// Two registrations in one pool return two different ids, both of them user
/// ids, so that neither is an id of the managed namespace. Between the two
/// the pool may have gone through any operations: none of them lowers the
/// number that the next registration takes.
pub proof fn lemma_registered_ids_differ<T, V>(
    p0: TexturePool<T, V>,
    p1: TexturePool<T, V>,
    p2: TexturePool<T, V>,
    p3: TexturePool<T, V>,
    first: V,
    second: V,
    first_id: TextureId,
    second_id: TextureId,
    managed: u64,
)
    requires
        registered(p0, p1, first, first_id),
        p1.next_user_id() <= p2.next_user_id(),
        registered(p2, p3, second, second_id),
    ensures
        first_id != second_id,
        first_id != TextureId::Managed(managed),
        second_id != TextureId::Managed(managed),
        resolve(p1@, first_id) == Some(first),
        resolve(p3@, second_id) == Some(second),
{
}

/// A texture that has a managed entry keeps one through any deltas that set
/// content.
pub proof fn lemma_sets_keep_managed<T, V>(
    entries: Map<TextureId, TextureView<T, V>>,
    set: Seq<(TextureId, ImageDelta)>,
    gpu: Seq<(T, V)>,
    tid: TextureId,
)
    requires
        holds_managed(entries, tid),
    ensures
        holds_managed(after_sets(entries, set, gpu), tid),
    decreases set.len(),
{
    if set.len() > 0 {
        let last = set.len() - 1;
        lemma_sets_keep_managed(entries, set.take(last), gpu, tid);
    }
}

/// After the deltas that set content, every id with an upload among them
/// has a managed entry.
pub proof fn lemma_uploaded_is_managed<T, V>(
    entries: Map<TextureId, TextureView<T, V>>,
    set: Seq<(TextureId, ImageDelta)>,
    gpu: Seq<(T, V)>,
    i: int,
)
    requires
        0 <= i < set.len(),
        set[i].1.image.wf(),
        set[i].1.spec_is_full_upload(),
    ensures
        holds_managed(after_sets(entries, set, gpu), set[i].0),
    decreases set.len(),
{
    let last = set.len() - 1;
    let before = after_sets(entries, set.take(last), gpu);
    if i < last {
        lemma_uploaded_is_managed(entries, set.take(last), gpu, i);
    } else {
        assert(classify(before, set[last].0, &set[last].1) == SetKind::Upload);
    }
}

/// Free wins: a texture that a batch uploads and frees resolves to nothing
/// after the batch, wherever in the batch the upload stands and whatever the
/// batch holds besides.
pub proof fn lemma_upload_then_free_is_gone<T, V>(
    entries: Map<TextureId, TextureView<T, V>>,
    delta: &TexturesDelta,
    gpu: Seq<(T, V)>,
    i: int,
)
    requires
        0 <= i < delta.set@.len(),
        delta.set@[i].1.image.wf(),
        delta.set@[i].1.spec_is_full_upload(),
        delta.free@.contains(delta.set@[i].0),
    ensures
        resolve(after_update(entries, delta, gpu), delta.set@[i].0) is None,
{
    lemma_uploaded_is_managed(entries, delta.set@, gpu, i);
}

/// A delta that is no upload and whose id has no managed texture, be it
/// that the id has no entry or that a user texture stands there, is skipped:
/// the pool stays as it was, the entry of that id included.
pub proof fn lemma_stale_delta_is_skipped<T, V>(
    entries: Map<TextureId, TextureView<T, V>>,
    tid: TextureId,
    delta: &ImageDelta,
    tex: T,
    srv: V,
)
    requires
        !delta.spec_is_full_upload(),
        !holds_managed(entries, tid),
    ensures
        classify(entries, tid, delta) == SetKind::NotManaged || classify(entries, tid, delta)
            == SetKind::Malformed,
        after_set(entries, tid, delta, tex, srv) == entries,
{
}

/// Freeing never touches a user texture.
pub proof fn lemma_free_keeps_user<T, V>(
    entries: Map<TextureId, TextureView<T, V>>,
    free: Seq<TextureId>,
    tid: TextureId,
)
    requires
        holds_user(entries, tid),
    ensures
        holds_user(after_free(entries, free), tid),
        resolve(after_free(entries, free), tid) == resolve(entries, tid),
{
}

/// A batch is a chain of single deltas: dealing with one more delta of
/// `set` is `after_set` on what the deltas before it left.
pub proof fn lemma_after_sets_unfolds<T, V>(
    entries: Map<TextureId, TextureView<T, V>>,
    set: Seq<(TextureId, ImageDelta)>,
    gpu: Seq<(T, V)>,
    i: int,
)
    requires
        0 <= i < set.len(),
    ensures
        after_sets(entries, set.take(i + 1), gpu) == after_set(
            after_sets(entries, set.take(i), gpu),
            set[i].0,
            &set[i].1,
            gpu[i].0,
            gpu[i].1,
        ),
        after_sets(entries, set.take(0), gpu) == entries,
{
    assert(set.take(i + 1).take(i) =~= set.take(i));
}

/// A batch that is through has left a pool which nothing else touched
/// meanwhile with the entries of `after_update`. If the batch uploaded a
/// texture and freed its id, the id resolves to nothing.
pub proof fn lemma_finished_pass<T, V>(pool: TexturePool<T, V>, pass: UpdatePass<T, V>, i: int)
    requires
        pass.wf(),
        pass.spec_is_done(),
        pool@ == pass.entries(),
    ensures
        pool@ == after_update(pass.start(), &pass.delta(), pass.gpu()),
        0 <= i < pass.delta().set@.len() && pass.delta().set@[i].1.image.wf()
            && pass.delta().set@[i].1.spec_is_full_upload() && pass.delta().free@.contains(
            pass.delta().set@[i].0,
        ) ==> resolve(pool@, pass.delta().set@[i].0) is None,
{
    let delta = pass.delta();
    assert(delta.set@.take(pass.cursor() as int) =~= delta.set@);
    if 0 <= i < delta.set@.len() && delta.set@[i].1.image.wf() && delta.set@[i].1.spec_is_full_upload()
        && delta.free@.contains(delta.set@[i].0) {
        lemma_upload_then_free_is_gone(pass.start(), &delta, pass.gpu(), i);
    }
}

} // verus!
