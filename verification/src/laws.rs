//! Properties of the handle lifecycle stated on their own.
//!
//! Each law is stated over the spec functions the operations' own contracts
//! use, so it composes directly with them.

use vstd::prelude::*;

use crate::error::FmodError;
use crate::loading::LoadingState;
use crate::model::advance_phase;
use crate::model::slot_advanced;
use crate::model::BankSlot;
use crate::model::Studio;

verus! {

/// A stale bank handle stays stale across a scheduler step: the step
/// relates surviving slots pointwise and keeps their handles, so a handle
/// the engine does not hold cannot reappear, and the validity query keeps
/// answering "invalid" on every subsequent call.
pub proof fn lemma_stale_survives_update(pre: Studio, post: Studio, raw: usize)
    requires
        pre.banks@.len() == post.banks@.len(),
        forall|i: int|
            0 <= i < pre.banks@.len() ==> slot_advanced(
                #[trigger] pre.banks@[i],
                post.banks@[i],
            ),
        post.live == pre.live,
        !pre.bank_live(raw),
    ensures
        !post.bank_live(raw),
{
    reveal(slot_advanced);
    if post.live {
        assert forall|i: int|
            0 <= i < post.banks@.len() implies (#[trigger] post.banks@[i]).raw != raw by {
            assert(slot_advanced(pre.banks@[i], post.banks@[i]));
            assert(pre.banks@[i].raw != raw);
        }
    }
}

/// A stale bank handle stays stale across a load: the new slot's handle is
/// drawn fresh from the allocation cursor, above every handle ever handed
/// out, so no earlier handle is resurrected.
pub proof fn lemma_stale_survives_load(pre: Studio, post: Studio, raw: usize)
    requires
        post.banks@.len() == pre.banks@.len() + 1,
        forall|i: int| 0 <= i < pre.banks@.len() ==> post.banks@[i] == pre.banks@[i],
        post.banks@.last().raw == pre.next_raw,
        post.live == pre.live,
        raw < pre.next_raw,
        !pre.bank_live(raw),
    ensures
        !post.bank_live(raw),
{
    if post.live {
        assert forall|i: int|
            0 <= i < post.banks@.len() implies (#[trigger] post.banks@[i]).raw != raw by {
            if i < pre.banks@.len() {
                assert(pre.banks@[i].raw != raw);
            }
        }
    }
}

/// An asynchronous load is never silently stuck at "unloaded": the slot a
/// non-blocking load creates reports loading at once, and one scheduler
/// step later it reports loaded, or the failure state carrying exactly the
/// code the load failed with.
pub proof fn lemma_async_load_progress(s: BankSlot)
    requires
        s.phase is Loading,
    ensures
        !(s.phase is Unloaded),
        s.pending_error is None ==> advance_phase(s) == LoadingState::Loaded,
        forall|e: FmodError|
            s.pending_error == Some(e) ==> advance_phase(s) == LoadingState::Error(e),
{
}

/// The sample-data machine respects its reference counting: a load request
/// raises the outstanding count, and an unload request lowers it, with the
/// data leaving residence only when the last request is withdrawn.
pub proof fn lemma_sample_refcount(s: crate::model::SampleLoad)
    requires
        s.refs < u32::MAX,
    ensures
        crate::model::sample_after_load(s).refs == s.refs + 1,
        crate::model::sample_after_load(s).requested,
        s.refs > 1 ==> crate::model::sample_after_unload(s).refs == s.refs - 1
            && crate::model::sample_after_unload(s).phase == s.phase,
        s.refs == 1 ==> crate::model::sample_after_unload(s).phase
            == LoadingState::Unloading,
        s.refs == 0 ==> crate::model::sample_after_unload(s) == s,
{
}

} // verus!
