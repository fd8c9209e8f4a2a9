//! Bank operations: loading state, content enumeration, and unloading.
//!
//! A bank is the unit of loadable content. Its metadata and its sample data
//! each run their own loading-state machine; sample data is additionally
//! reference-counted across overlapping load requests.

use vstd::prelude::*;

use crate::error::FmodError;
use crate::error::FMOD_ERR_EVENT_NOTFOUND;
use crate::error::FMOD_ERR_INVALID_HANDLE;
use crate::error::FMOD_ERR_INVALID_PARAM;
use crate::error::FMOD_ERR_MEMORY;
use crate::error::FMOD_ERR_NOTREADY;
use crate::event::EventDescription;
use crate::handles::Bus;
use crate::handles::Vca;
use crate::loading::LoadingState;
use crate::model::sample_after_load;
use crate::model::sample_after_unload;
use crate::model::BankSlot;
use crate::model::Studio;
use crate::system::Bank;

verus! {

/// Whether a bank handle refers to a bank the live system holds whose
/// content is readable: loading completed.
pub open spec fn bank_loaded_at(st: Studio, b: int, raw: usize) -> bool {
    &&& 0 <= b < st.banks@.len()
    &&& st.banks@[b].raw == raw
    &&& st.banks@[b].phase is Loaded
}

impl Bank {
    /// Resolves this handle to its slot position, when the system holds it.
    fn locate(&self, st: &Studio) -> (r: Result<usize, FmodError>)
        requires
            st.wf(),
        ensures
            r is Ok <==> st.bank_live(self.raw),
            r is Err ==> r->Err_0.code == FMOD_ERR_INVALID_HANDLE,
            r is Ok ==> {
                &&& 0 <= r->Ok_0 < st.banks@.len()
                &&& st.banks@[r->Ok_0 as int].raw == self.raw
                &&& st.spec_find_bank(self.raw) == Some(r->Ok_0 as int)
            },
    {
        if !st.live {
            return Err(FmodError { code: FMOD_ERR_INVALID_HANDLE });
        }
        match st.find_bank(self.raw) {
            Some(b) => Ok(b),
            None => Err(FmodError { code: FMOD_ERR_INVALID_HANDLE }),
        }
    }

    /// Resolves this handle to a slot whose content is readable, reporting
    /// not-ready while the bank is still loading or failed to load.
    fn locate_loaded(&self, st: &Studio) -> (r: Result<usize, FmodError>)
        requires
            st.wf(),
        ensures
            r is Err ==> r->Err_0.code == FMOD_ERR_INVALID_HANDLE || r->Err_0.code
                == FMOD_ERR_NOTREADY,
            !st.bank_live(self.raw) ==> r is Err && r->Err_0.code == FMOD_ERR_INVALID_HANDLE,
            r is Ok ==> bank_loaded_at(*st, r->Ok_0 as int, self.raw) && st.live,
            st.live && (exists|b: int| #[trigger] bank_loaded_at(*st, b, self.raw)) ==> r
                is Ok,
            r is Ok ==> st.banks@[r->Ok_0 as int].filled && st.spec_find_bank(self.raw)
                == Some(r->Ok_0 as int),
    {
        let b = self.locate(st)?;
        if matches!(st.banks[b].phase, LoadingState::Loaded) {
            Ok(b)
        } else {
            Err(FmodError { code: FMOD_ERR_NOTREADY })
        }
    }

    /// Whether this handle still refers to a bank the live system holds.
    ///
    /// Once false, it stays false: handles are never reused, so a handle
    /// that went stale never reports valid again.
    pub fn is_valid(&self, st: &Studio) -> (r: bool)
        requires
            st.wf(),
        ensures
            r == st.bank_live(self.raw),
    {
        self.locate(st).is_ok()
    }

    /// The bank's metadata loading state.
    ///
    /// After an asynchronous load this reports loading, then loaded, or the
    /// failure state carrying the code the load failed with.
    pub fn get_loading_state(&self, st: &Studio) -> (r: Result<LoadingState, FmodError>)
        requires
            st.wf(),
        ensures
            r is Ok <==> st.bank_live(self.raw),
            r is Err ==> r->Err_0.code == FMOD_ERR_INVALID_HANDLE,
            r is Ok ==> exists|b: int|
                0 <= b < st.banks@.len() && (#[trigger] st.banks@[b]).raw == self.raw
                    && r->Ok_0 == st.banks@[b].phase,
    {
        let b = self.locate(st)?;
        let phase = st.banks[b].phase;
        let raw_state = phase.to_raw();
        let err = match phase {
            LoadingState::Error(code) => Some(code),
            _ => None,
        };
        proof {
            if !(phase is Error) {
                crate::loading::lemma_raw_round_trip(phase);
            }
        }
        match LoadingState::try_from_ffi(raw_state, err) {
            Ok(state) => Ok(state),
            Err(e) => Err(e),
        }
    }

    /// Requests the bank's non-streaming sample data ahead of time:
    /// reference-counted, asynchronous, polled through the sample
    /// loading-state query. The bank's metadata must have finished loading.
    pub fn load_sample_data(&self, st: &mut Studio) -> (r: Result<(), FmodError>)
        requires
            old(st).wf(),
        ensures
            final(st).wf(),
            r is Err ==> *final(st) == *old(st),
            !old(st).bank_live(self.raw) ==> r is Err && r->Err_0.code
                == FMOD_ERR_INVALID_HANDLE,
            r is Ok ==> exists|b: int|
                #[trigger] bank_loaded_at(*old(st), b, self.raw) && old(st).banks@[
                    b].sample.refs < u32::MAX && final(st).banks@[b].sample
                    == sample_after_load(old(st).banks@[b].sample) && final(st).banks@
                    == old(st).banks@.update(
                    b,
                    (BankSlot { sample: final(st).banks@[b].sample, ..old(st).banks@[b] }),
                ) && *final(st) == (Studio { banks: final(st).banks, ..*old(st) }),
            old(st).live && (exists|b: int|
                #[trigger] bank_loaded_at(*old(st), b, self.raw) && old(st).banks@[
                    b].sample.refs < u32::MAX) ==> r is Ok,
    {
        let b = self.locate_loaded(st)?;
        if st.banks[b].sample.refs == u32::MAX {
            proof {
                assert forall|bb: int|
                    #[trigger] bank_loaded_at(*old(st), bb, self.raw) implies !(old(st).banks@[bb].sample.refs < u32::MAX) by {
                    st.lemma_bank_at(self.raw, bb);
                }
            }
            return Err(FmodError { code: FMOD_ERR_MEMORY });
        }
        let ghost pre = *st;
        self.sample_surgery(st, b, true);
        proof {
            Studio::lemma_wf_update_slot(pre, *st, b as int);
        }
        Ok(())
    }

    /// Withdraws one sample-data load request; the data remains resident
    /// until every outstanding request has been withdrawn.
    pub fn unload_sample_data(&self, st: &mut Studio) -> (r: Result<(), FmodError>)
        requires
            old(st).wf(),
        ensures
            final(st).wf(),
            r is Err ==> *final(st) == *old(st),
            !old(st).bank_live(self.raw) ==> r is Err && r->Err_0.code
                == FMOD_ERR_INVALID_HANDLE,
            r is Ok ==> exists|b: int|
                #[trigger] bank_loaded_at(*old(st), b, self.raw) && final(st).banks@[
                    b].sample == sample_after_unload(old(st).banks@[b].sample) && final(st).banks@ == old(st).banks@.update(
                    b,
                    (BankSlot { sample: final(st).banks@[b].sample, ..old(st).banks@[b] }),
                ) && *final(st) == (Studio { banks: final(st).banks, ..*old(st) }),
            old(st).live && (exists|b: int| #[trigger] bank_loaded_at(*old(st), b, self.raw))
                ==> r is Ok,
    {
        let b = self.locate_loaded(st)?;
        let ghost pre = *st;
        self.sample_surgery(st, b, false);
        proof {
            Studio::lemma_wf_update_slot(pre, *st, b as int);
        }
        Ok(())
    }

    /// Applies one sample-machine transition to this bank's slot in place.
    fn sample_surgery(&self, st: &mut Studio, b: usize, load: bool)
        requires
            old(st).wf(),
            0 <= b < old(st).banks@.len(),
            load ==> old(st).banks@[b as int].sample.refs < u32::MAX,
        ensures
            final(st).banks@ == old(st).banks@.update(
                b as int,
                final(st).banks@[b as int],
            ),
            *final(st) == (Studio { banks: final(st).banks, ..*old(st) }),
            final(st).banks@[b as int] == (BankSlot {
                sample: final(st).banks@[b as int].sample,
                ..old(st).banks@[b as int]
            }),
            load ==> final(st).banks@[b as int].sample == sample_after_load(
                old(st).banks@[b as int].sample,
            ),
            !load ==> final(st).banks@[b as int].sample == sample_after_unload(
                old(st).banks@[b as int].sample,
            ),
    {
        let mut slot = st.banks.remove(b);
        slot.sample = if load {
            crate::model::sample_load_exec(slot.sample)
        } else {
            crate::model::sample_unload_exec(slot.sample)
        };
        st.banks.insert(b, slot);
        proof {
            assert(st.banks@ =~= old(st).banks@.update(b as int, st.banks@[b as int]));
        }
    }

    /// The loading state of the bank's sample data.
    ///
    /// Reports "unloaded" until a load has been explicitly requested, even
    /// if sample data happens to be resident through other paths; that
    /// documented engine behavior is preserved, not corrected.
    pub fn get_sample_loading_state(&self, st: &Studio) -> (r: Result<LoadingState, FmodError>)
        requires
            st.wf(),
        ensures
            r is Ok <==> st.bank_live(self.raw),
            r is Err ==> r->Err_0.code == FMOD_ERR_INVALID_HANDLE,
            r is Ok ==> exists|b: int|
                {
                    let sm = st.banks@[b].sample;
                    0 <= b < st.banks@.len() && (#[trigger] st.banks@[b]).raw == self.raw
                        && r->Ok_0 == (if sm.requested {
                        sm.phase
                    } else {
                        LoadingState::Unloaded
                    })
                },
    {
        let b = self.locate(st)?;
        let sm = st.banks[b].sample;
        if !sm.requested {
            return Ok(LoadingState::Unloaded);
        }
        let raw_state = sm.phase.to_raw();
        let err = match sm.phase {
            LoadingState::Error(code) => Some(code),
            _ => None,
        };
        proof {
            if !(sm.phase is Error) {
                crate::loading::lemma_raw_round_trip(sm.phase);
            }
        }
        match LoadingState::try_from_ffi(raw_state, err) {
            Ok(state) => Ok(state),
            Err(e) => Err(e),
        }
    }

    /// Unloads the bank, destroying every object created from it and
    /// invalidating every handle referring to it or derived from it.
    ///
    /// The backing memory of a bank loaded from a caller-managed buffer
    /// must outlive the unload's completion, not just this call.
    pub fn unload(self, st: &mut Studio) -> (r: Result<(), FmodError>)
        requires
            old(st).wf(),
        ensures
            final(st).wf(),
            r is Err ==> *final(st) == *old(st) && r->Err_0.code == FMOD_ERR_INVALID_HANDLE,
            r is Ok <==> old(st).bank_live(self.raw),
            r is Ok ==> {
                &&& !final(st).bank_present(self.raw)
                &&& forall|x: usize|
                    x != self.raw ==> final(st).bank_present(x) == old(st).bank_present(x)
                &&& final(st).banks@.len() == old(st).banks@.len() - 1
                &&& old(st).spec_find_bank(self.raw) is Some
                &&& final(st).banks@ == old(st).banks@.remove(
                    old(st).spec_find_bank(self.raw)->0,
                )
                &&& *final(st) == (Studio { banks: final(st).banks, ..*old(st) })
                &&& final(st).next_raw == old(st).next_raw
            },
    {
        let b = self.locate(st)?;
        let ghost pre = *st;
        let _removed = st.banks.remove(b);
        proof {
            assert(st.banks@ =~= pre.banks@.remove(b as int));
            Studio::lemma_wf_remove_slot(pre, *st, b as int);
        }
        Ok(())
    }

    /// The number of buses in the bank.
    pub fn bus_count(&self, st: &Studio) -> (r: Result<i32, FmodError>)
        requires
            st.wf(),
        ensures
            !st.bank_live(self.raw) ==> r is Err && r->Err_0.code == FMOD_ERR_INVALID_HANDLE,
            r is Ok ==> exists|b: int|
                #[trigger] bank_loaded_at(*st, b, self.raw) && r->Ok_0 == st.banks@[
                    b].n_buses,
            st.live && (exists|b: int| #[trigger] bank_loaded_at(*st, b, self.raw)) ==> r
                is Ok,
            r is Err ==> r->Err_0.code == FMOD_ERR_INVALID_HANDLE || r->Err_0.code
                == FMOD_ERR_NOTREADY,
    {
        let b = self.locate_loaded(st)?;
        Ok(st.banks[b].n_buses as i32)
    }

    /// The handles of the bank's buses, retrieved with the two-phase
    /// count-then-fill protocol; the fill count must agree with the
    /// discovery count.
    pub fn get_bus_list(&self, st: &Studio) -> (r: Result<Vec<Bus>, FmodError>)
        requires
            st.wf(),
        ensures
            !st.bank_live(self.raw) ==> r is Err && r->Err_0.code == FMOD_ERR_INVALID_HANDLE,
            r is Ok ==> exists|b: int|
                #[trigger] bank_loaded_at(*st, b, self.raw) && r->Ok_0@.len() == st.banks@[
                    b].n_buses && (forall|k: int|
                    0 <= k < r->Ok_0@.len() ==> (#[trigger] r->Ok_0@[k]).raw == st.banks@[
                        b].bus_base + k),
            st.live && (exists|b: int| #[trigger] bank_loaded_at(*st, b, self.raw)) ==> r
                is Ok,
    {
        let b = self.locate_loaded(st)?;
        let raws = range_raws(st.banks[b].bus_base, st.banks[b].n_buses);
        let fetched = match crate::protocol::fetch_list(&raws) {
            Ok(v) => v,
            Err(_) => {
                return Err(FmodError { code: crate::error::FMOD_ERR_INTERNAL });
            },
        };
        let mut out: Vec<Bus> = Vec::new();
        let mut k: usize = 0;
        while k < fetched.len()
            invariant
                k <= fetched@.len(),
                out@.len() == k,
                forall|j: int| 0 <= j < k ==> (#[trigger] out@[j]).raw == fetched@[j],
            decreases fetched@.len() - k,
        {
            out.push(Bus { raw: fetched[k] });
            k = k + 1;
        }
        proof {
            assert(bank_loaded_at(*st, b as int, self.raw) && out@.len() == st.banks@[
                b as int].n_buses);
        }
        Ok(out)
    }

    /// The number of VCAs in the bank.
    pub fn vca_count(&self, st: &Studio) -> (r: Result<i32, FmodError>)
        requires
            st.wf(),
        ensures
            !st.bank_live(self.raw) ==> r is Err && r->Err_0.code == FMOD_ERR_INVALID_HANDLE,
            r is Ok ==> exists|b: int|
                #[trigger] bank_loaded_at(*st, b, self.raw) && r->Ok_0 == st.banks@[b].n_vcas,
            st.live && (exists|b: int| #[trigger] bank_loaded_at(*st, b, self.raw)) ==> r
                is Ok,
            r is Err ==> r->Err_0.code == FMOD_ERR_INVALID_HANDLE || r->Err_0.code
                == FMOD_ERR_NOTREADY,
    {
        let b = self.locate_loaded(st)?;
        Ok(st.banks[b].n_vcas as i32)
    }

    /// The handles of the bank's VCAs, retrieved with the two-phase
    /// count-then-fill protocol; the fill count must agree with the
    /// discovery count.
    pub fn get_vca_list(&self, st: &Studio) -> (r: Result<Vec<Vca>, FmodError>)
        requires
            st.wf(),
        ensures
            !st.bank_live(self.raw) ==> r is Err && r->Err_0.code == FMOD_ERR_INVALID_HANDLE,
            r is Ok ==> exists|b: int|
                #[trigger] bank_loaded_at(*st, b, self.raw) && r->Ok_0@.len() == st.banks@[
                    b].n_vcas && (forall|k: int|
                    0 <= k < r->Ok_0@.len() ==> (#[trigger] r->Ok_0@[k]).raw == st.banks@[
                        b].vca_base + k),
            st.live && (exists|b: int| #[trigger] bank_loaded_at(*st, b, self.raw)) ==> r
                is Ok,
    {
        let b = self.locate_loaded(st)?;
        let raws = range_raws(st.banks[b].vca_base, st.banks[b].n_vcas);
        let fetched = match crate::protocol::fetch_list(&raws) {
            Ok(v) => v,
            Err(_) => {
                return Err(FmodError { code: crate::error::FMOD_ERR_INTERNAL });
            },
        };
        let mut out: Vec<Vca> = Vec::new();
        let mut k: usize = 0;
        while k < fetched.len()
            invariant
                k <= fetched@.len(),
                out@.len() == k,
                forall|j: int| 0 <= j < k ==> (#[trigger] out@[j]).raw == fetched@[j],
            decreases fetched@.len() - k,
        {
            out.push(Vca { raw: fetched[k] });
            k = k + 1;
        }
        proof {
            assert(bank_loaded_at(*st, b as int, self.raw) && out@.len() == st.banks@[
                b as int].n_vcas);
        }
        Ok(out)
    }

    /// The number of event descriptions the sound designer added to the
    /// bank.
    pub fn event_count(&self, st: &Studio) -> (r: Result<i32, FmodError>)
        requires
            st.wf(),
        ensures
            !st.bank_live(self.raw) ==> r is Err && r->Err_0.code == FMOD_ERR_INVALID_HANDLE,
            r is Ok ==> exists|b: int|
                #[trigger] bank_loaded_at(*st, b, self.raw) && r->Ok_0 == st.banks@[
                    b].n_events,
            st.live && (exists|b: int| #[trigger] bank_loaded_at(*st, b, self.raw)) ==> r
                is Ok,
            r is Err ==> r->Err_0.code == FMOD_ERR_INVALID_HANDLE || r->Err_0.code
                == FMOD_ERR_NOTREADY,
    {
        let b = self.locate_loaded(st)?;
        Ok(st.banks[b].n_events as i32)
    }

    /// The handles of the bank's event descriptions, retrieved with the
    /// two-phase count-then-fill protocol; the fill count must agree with
    /// the discovery count.
    pub fn get_event_list(&self, st: &Studio) -> (r: Result<Vec<EventDescription>, FmodError>)
        requires
            st.wf(),
        ensures
            !st.bank_live(self.raw) ==> r is Err && r->Err_0.code == FMOD_ERR_INVALID_HANDLE,
            r is Ok ==> exists|b: int|
                #[trigger] bank_loaded_at(*st, b, self.raw) && r->Ok_0@.len() == st.banks@[
                    b].n_events && (forall|k: int|
                    0 <= k < r->Ok_0@.len() ==> (#[trigger] r->Ok_0@[k]).raw == st.banks@[
                        b].event_base + k),
            st.live && (exists|b: int| #[trigger] bank_loaded_at(*st, b, self.raw)) ==> r
                is Ok,
    {
        let b = self.locate_loaded(st)?;
        let raws = range_raws(st.banks[b].event_base, st.banks[b].n_events);
        let fetched = match crate::protocol::fetch_list(&raws) {
            Ok(v) => v,
            Err(_) => {
                return Err(FmodError { code: crate::error::FMOD_ERR_INTERNAL });
            },
        };
        let mut out: Vec<EventDescription> = Vec::new();
        let mut k: usize = 0;
        while k < fetched.len()
            invariant
                k <= fetched@.len(),
                out@.len() == k,
                forall|j: int| 0 <= j < k ==> (#[trigger] out@[j]).raw == fetched@[j],
            decreases fetched@.len() - k,
        {
            out.push(EventDescription { raw: fetched[k] });
            k = k + 1;
        }
        proof {
            assert(bank_loaded_at(*st, b as int, self.raw) && out@.len() == st.banks@[
                b as int].n_events);
        }
        Ok(out)
    }

    /// The number of entries in the bank's string table.
    pub fn string_count(&self, st: &Studio) -> (r: Result<i32, FmodError>)
        requires
            st.wf(),
        ensures
            !st.bank_live(self.raw) ==> r is Err && r->Err_0.code == FMOD_ERR_INVALID_HANDLE,
            r is Ok ==> exists|b: int|
                #[trigger] bank_loaded_at(*st, b, self.raw) && st.banks@[b].filled
                    && r->Ok_0 == st.authored@[st.banks@[b].data_idx as int].strings@.len(),
            st.live && (exists|b: int| #[trigger] bank_loaded_at(*st, b, self.raw)) ==> r
                is Ok,
            r is Err ==> r->Err_0.code == FMOD_ERR_INVALID_HANDLE || r->Err_0.code
                == FMOD_ERR_NOTREADY,
    {
        let b = self.locate_loaded(st)?;
        proof {
            assert(crate::model::bank_data_wf(
                st.authored@[st.banks@[b as int].data_idx as int],
            ));
        }
        Ok(st.authored[st.banks[b].data_idx].strings.len() as i32)
    }

    /// Retrieves one entry of the bank's string table: its identifier and
    /// its path, the latter with the two-phase size-discovery protocol. A
    /// position out of range reports the invalid-parameter code.
    pub fn get_string_info(&self, st: &Studio, index: i32) -> (r: Result<
        (crate::ids::Guid, String),
        FmodError,
    >)
        requires
            st.wf(),
        ensures
            !st.bank_live(self.raw) ==> r is Err && r->Err_0.code == FMOD_ERR_INVALID_HANDLE,
            r is Ok ==> exists|b: int|
                #[trigger] bank_loaded_at(*st, b, self.raw) && 0 <= index < st.authored@[
                    st.banks@[b].data_idx as int].strings@.len() && r->Ok_0.0
                    == st.authored@[st.banks@[b].data_idx as int].strings@[index as int].id
                    && r->Ok_0.1@ == st.authored@[st.banks@[b].data_idx as int].strings@[
                    index as int].path@,
            st.live && (exists|b: int|
                #[trigger] bank_loaded_at(*st, b, self.raw) && !(0 <= index < st.authored@[
                    st.banks@[b].data_idx as int].strings@.len())) ==> r is Err
                && r->Err_0.code == FMOD_ERR_INVALID_PARAM,
            st.live && (exists|b: int|
                #[trigger] bank_loaded_at(*st, b, self.raw) && 0 <= index < st.authored@[
                    st.banks@[b].data_idx as int].strings@.len()) ==> r is Ok
                || r->Err_0.code == FMOD_ERR_MEMORY,
    {
        let b = self.locate_loaded(st)?;
        proof {
            assert forall|bb: int|
                #[trigger] bank_loaded_at(*st, bb, self.raw) implies bb == b as int by {
                st.lemma_bank_at(self.raw, bb);
            }
        }
        let strings = &st.authored[st.banks[b].data_idx].strings;
        if index < 0 || index as usize >= strings.len() {
            return Err(FmodError { code: FMOD_ERR_INVALID_PARAM });
        }
        let entry_id = strings[index as usize].id;
        match crate::protocol::fetch_string(&strings[index as usize].path) {
            Ok(s) => {
                proof {
                    assert(bank_loaded_at(*st, b as int, self.raw) && s@ == st.authored@[
                        st.banks@[b as int].data_idx as int].strings@[index as int].path@);
                }
                Ok((entry_id, s))
            },
            Err(crate::protocol::QueryError::Native(e)) => Err(e),
            Err(crate::protocol::QueryError::Mismatch { .. }) => Err(
                FmodError { code: crate::error::FMOD_ERR_INTERNAL },
            ),
        }
    }

    /// The bank's identifier.
    pub fn get_id(&self, st: &Studio) -> (r: Result<crate::ids::Guid, FmodError>)
        requires
            st.wf(),
        ensures
            !st.bank_live(self.raw) ==> r is Err && r->Err_0.code == FMOD_ERR_INVALID_HANDLE,
            r is Ok ==> exists|b: int|
                #[trigger] bank_loaded_at(*st, b, self.raw) && r->Ok_0 == st.authored@[
                    st.banks@[b].data_idx as int].id,
            st.live && (exists|b: int| #[trigger] bank_loaded_at(*st, b, self.raw)) ==> r
                is Ok,
            r is Err ==> r->Err_0.code == FMOD_ERR_INVALID_HANDLE || r->Err_0.code
                == FMOD_ERR_NOTREADY,
    {
        let b = self.locate_loaded(st)?;
        Ok(st.authored[st.banks[b].data_idx].id)
    }

    /// The bank's path, retrieved through the loaded string tables with the
    /// two-phase size-discovery protocol; fails with the not-found code
    /// while no loaded string table maps the bank's identifier.
    pub fn get_path(&self, st: &Studio) -> (r: Result<String, FmodError>)
        requires
            st.wf(),
        ensures
            !st.bank_live(self.raw) ==> r is Err && r->Err_0.code == FMOD_ERR_INVALID_HANDLE,
            r is Ok ==> exists|b: int, sb: int, sk: int|
                #[trigger] bank_loaded_at(*st, b, self.raw) && (#[trigger] st.string_at(
                    sb,
                    sk,
                )) && st.string_entry(sb, sk).id == st.authored@[
                    st.banks@[b].data_idx as int].id && r->Ok_0@ == st.string_entry(
                    sb,
                    sk,
                ).path@,
            st.live && (exists|b: int| #[trigger] bank_loaded_at(*st, b, self.raw)) && (
            forall|b: int|
                #[trigger] bank_loaded_at(*st, b, self.raw) ==> !st.id_found(
                    st.authored@[st.banks@[b].data_idx as int].id,
                )) ==> r is Err && r->Err_0.code == FMOD_ERR_EVENT_NOTFOUND,
            st.live && (exists|b: int|
                #[trigger] bank_loaded_at(*st, b, self.raw) && st.id_found(
                    st.authored@[st.banks@[b].data_idx as int].id,
                )) ==> r is Ok || r->Err_0.code == FMOD_ERR_MEMORY,
    {
        let b = self.locate_loaded(st)?;
        proof {
            assert forall|bb: int|
                #[trigger] bank_loaded_at(*st, bb, self.raw) implies bb == b as int by {
                st.lemma_bank_at(self.raw, bb);
            }
        }
        let g = st.authored[st.banks[b].data_idx].id;
        let (sb, sk) = match st.find_string_by_id(g) {
            Some(pos) => pos,
            None => {
                return Err(FmodError { code: FMOD_ERR_EVENT_NOTFOUND });
            },
        };
        let text = &st.authored[st.banks[sb].data_idx].strings[sk].path;
        match crate::protocol::fetch_string(text) {
            Ok(s) => {
                proof {
                    assert(bank_loaded_at(*st, b as int, self.raw) && st.string_at(
                        sb as int,
                        sk as int,
                    ) && st.string_entry(sb as int, sk as int).id == g && s@
                        == st.string_entry(sb as int, sk as int).path@);
                }
                Ok(s)
            },
            Err(crate::protocol::QueryError::Native(e)) => Err(e),
            Err(crate::protocol::QueryError::Mismatch { .. }) => Err(
                FmodError { code: crate::error::FMOD_ERR_INTERNAL },
            ),
        }
    }
}

/// The consecutive handle values of a filled range.
fn range_raws(base: usize, n: usize) -> (r: Vec<usize>)
    requires
        base + n <= usize::MAX,
    ensures
        r@.len() == n,
        forall|j: int| 0 <= j < n ==> r@[j] == base + j,
{
    let mut out: Vec<usize> = Vec::new();
    let mut j: usize = 0;
    while j < n
        invariant
            j <= n,
            base + n <= usize::MAX,
            out@.len() == j,
            forall|k: int| 0 <= k < j ==> out@[k] == base + k,
        decreases n - j,
    {
        out.push(base + j);
        j = j + 1;
    }
    out
}

} // verus!
