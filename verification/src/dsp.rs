//! DSP units of the core layer.
//!
//! A unit attached to the mixing graph cannot be released: the engine
//! reports the still-in-use code, and the wrapper surfaces it rather than
//! suppressing it.

use vstd::prelude::*;

use crate::error::FmodError;
use crate::error::FMOD_ERR_DSP_INUSE;
use crate::error::FMOD_ERR_INVALID_HANDLE;
use crate::error::FMOD_ERR_MEMORY;
use crate::handles::CoreSystem;
use crate::model::DspSlot;
use crate::model::Studio;
use crate::model::COUNT_CAP;

verus! {

/// A handle to a DSP unit.
#[derive(Clone, Copy, Debug, PartialEq, Eq, Structural)]
pub struct Dsp {
    pub raw: usize,
}

/// Whether a DSP handle refers to a unit the live system holds.
pub open spec fn dsp_live(st: Studio, raw: usize) -> bool {
    st.live && exists|d: int|
        0 <= d < st.dsps@.len() && (#[trigger] st.dsps@[d]).raw == raw
}

impl CoreSystem {
    /// Creates a DSP unit, initially detached from the mixing graph.
    pub fn create_dsp(&self, st: &mut Studio) -> (r: Result<Dsp, FmodError>)
        requires
            old(st).wf(),
        ensures
            final(st).wf(),
            r is Err ==> *final(st) == *old(st),
            !(old(st).live && self.raw == old(st).core_raw) ==> r is Err && r->Err_0.code
                == FMOD_ERR_INVALID_HANDLE,
            old(st).live && self.raw == old(st).core_raw ==> r is Ok || r->Err_0.code
                == FMOD_ERR_MEMORY,
            r is Ok ==> {
                let d = final(st).dsps@.last();
                &&& final(st).dsps@.len() == old(st).dsps@.len() + 1
                &&& forall|i: int|
                    0 <= i < old(st).dsps@.len() ==> final(st).dsps@[i] == old(st).dsps@[i]
                &&& r->Ok_0.raw == d.raw
                &&& d.raw == old(st).next_raw
                &&& !d.attached
                &&& *final(st) == (Studio {
                    dsps: final(st).dsps,
                    next_raw: final(st).next_raw,
                    ..*old(st)
                })
            },
    {
        if !st.live || self.raw != st.core_raw {
            return Err(FmodError { code: FMOD_ERR_INVALID_HANDLE });
        }
        if st.dsps.len() >= COUNT_CAP || st.next_raw == usize::MAX {
            return Err(FmodError { code: FMOD_ERR_MEMORY });
        }
        let ghost pre = *st;
        let raw = st.next_raw;
        st.dsps.push(DspSlot { raw, attached: false, cpu_exclusive: 0, cpu_inclusive: 0 });
        st.next_raw = st.next_raw + 1;
        proof {
            let n = st.dsps@.len() - 1;
            assert forall|i: int, j: int|
                0 <= i < j < st.dsps@.len() implies (#[trigger] st.dsps@[i]).raw != (
            #[trigger] st.dsps@[j]).raw by {
                if j < n {
                    assert(pre.dsps@[i].raw != pre.dsps@[j].raw);
                } else {
                    assert(0 < pre.dsps@[i].raw < pre.next_raw);
                }
            }
            assert forall|i: int|
                0 <= i < st.banks@.len() implies (#[trigger] st.banks@[i]).wf(
                st.next_raw,
            ) by {
                assert(pre.banks@[i].wf(pre.next_raw));
            }
            assert forall|i: int|
                0 <= i < st.geometries@.len() implies (#[trigger] st.geometries@[i]).wf(
                st.next_raw,
            ) by {
                assert(pre.geometries@[i].wf(pre.next_raw));
            }
            assert(st.wf());
        }
        Ok(Dsp { raw })
    }
}

impl Dsp {
    /// Wraps a raw handle value as received from the ABI.
    pub fn from_ffi(value: usize) -> (r: Dsp)
        ensures
            r.raw == value,
    {
        Dsp { raw: value }
    }

    /// The raw handle value, for handing back across the ABI.
    pub fn into_ffi(self) -> (r: usize)
        ensures
            r == self.raw,
    {
        self.raw
    }

    /// Resolves this handle to its slot position, when the system holds it.
    fn locate(&self, st: &Studio) -> (r: Result<usize, FmodError>)
        requires
            st.wf(),
        ensures
            r is Ok <==> dsp_live(*st, self.raw),
            r is Err ==> r->Err_0.code == FMOD_ERR_INVALID_HANDLE,
            r is Ok ==> {
                &&& 0 <= r->Ok_0 < st.dsps@.len()
                &&& st.dsps@[r->Ok_0 as int].raw == self.raw
                &&& st.spec_find_dsp(self.raw) == Some(r->Ok_0 as int)
            },
    {
        if !st.live {
            return Err(FmodError { code: FMOD_ERR_INVALID_HANDLE });
        }
        match st.find_dsp(self.raw) {
            Some(d) => Ok(d),
            None => Err(FmodError { code: FMOD_ERR_INVALID_HANDLE }),
        }
    }

    /// Marks the unit as attached to or detached from the mixing graph, as
    /// the graph operations of the owning channel do.
    pub fn set_attached(&self, st: &mut Studio, attached: bool) -> (r: Result<(), FmodError>)
        requires
            old(st).wf(),
        ensures
            final(st).wf(),
            r is Err ==> *final(st) == *old(st) && r->Err_0.code == FMOD_ERR_INVALID_HANDLE,
            r is Ok <==> dsp_live(*old(st), self.raw),
            r is Ok ==> exists|d: int|
                0 <= d < old(st).dsps@.len() && (#[trigger] old(st).dsps@[d]).raw
                    == self.raw && final(st).dsps@ == old(st).dsps@.update(
                    d,
                    (DspSlot { attached, ..old(st).dsps@[d] }),
                ) && *final(st) == (Studio { dsps: final(st).dsps, ..*old(st) }),
    {
        let d = self.locate(st)?;
        let ghost pre = *st;
        let mut slot = st.dsps.remove(d);
        slot.attached = attached;
        st.dsps.insert(d, slot);
        proof {
            assert(st.dsps@ =~= pre.dsps@.update(d as int, st.dsps@[d as int]));
            assert forall|i: int, j: int|
                0 <= i < j < st.dsps@.len() implies (#[trigger] st.dsps@[i]).raw != (
            #[trigger] st.dsps@[j]).raw by {
                assert(pre.dsps@[i].raw != pre.dsps@[j].raw);
            }
            assert forall|i: int|
                0 <= i < st.dsps@.len() implies 0 < (#[trigger] st.dsps@[i]).raw
                < st.next_raw by {
                assert(0 < pre.dsps@[i].raw < pre.next_raw);
            }
            assert(st.wf());
        }
        Ok(())
    }

    /// Resets the unit's internal signal state, keeping its parameters.
    ///
    /// The internal DSP state lives on the native side and is not part of
    /// the observable state here, so a successful reset changes nothing
    /// observable.
    pub fn reset(&self, st: &Studio) -> (r: Result<(), FmodError>)
        requires
            st.wf(),
        ensures
            r is Ok <==> dsp_live(*st, self.raw),
            r is Err ==> r->Err_0.code == FMOD_ERR_INVALID_HANDLE,
    {
        let _d = self.locate(st)?;
        Ok(())
    }

    /// Releases the unit.
    ///
    /// A unit still attached to the mixing graph does not release: the
    /// still-in-use code is surfaced and nothing changes. A detached unit
    /// goes away and its handle is stale for good.
    pub fn release(self, st: &mut Studio) -> (r: Result<(), FmodError>)
        requires
            old(st).wf(),
        ensures
            final(st).wf(),
            r is Err ==> *final(st) == *old(st),
            !dsp_live(*old(st), self.raw) ==> r is Err && r->Err_0.code
                == FMOD_ERR_INVALID_HANDLE,
            dsp_live(*old(st), self.raw) && (exists|d: int|
                0 <= d < old(st).dsps@.len() && (#[trigger] old(st).dsps@[d]).raw
                    == self.raw && old(st).dsps@[d].attached) ==> r is Err && r->Err_0.code
                == FMOD_ERR_DSP_INUSE,
            dsp_live(*old(st), self.raw) && (exists|d: int|
                0 <= d < old(st).dsps@.len() && (#[trigger] old(st).dsps@[d]).raw
                    == self.raw && !old(st).dsps@[d].attached) ==> r is Ok,
            r is Ok ==> {
                &&& !dsp_live(*final(st), self.raw)
                &&& final(st).dsps@.len() == old(st).dsps@.len() - 1
                &&& *final(st) == (Studio { dsps: final(st).dsps, ..*old(st) })
            },
    {
        let d = self.locate(st)?;
        proof {
            assert forall|dd: int|
                0 <= dd < st.dsps@.len() && (#[trigger] st.dsps@[dd]).raw
                == self.raw implies dd == d as int by {
                st.lemma_dsp_at(self.raw, dd);
            }
        }
        if st.dsps[d].attached {
            return Err(FmodError { code: FMOD_ERR_DSP_INUSE });
        }
        let ghost pre = *st;
        let _slot = st.dsps.remove(d);
        proof {
            assert(st.dsps@ =~= pre.dsps@.remove(d as int));
            assert forall|i: int, j: int|
                0 <= i < j < st.dsps@.len() implies (#[trigger] st.dsps@[i]).raw != (
            #[trigger] st.dsps@[j]).raw by {
                let pi: int = if i < d as int {
                    i
                } else {
                    i + 1
                };
                let pj: int = if j < d as int {
                    j
                } else {
                    j + 1
                };
                assert(pre.dsps@[pi].raw != pre.dsps@[pj].raw);
            }
            assert forall|i: int|
                0 <= i < st.dsps@.len() implies 0 < (#[trigger] st.dsps@[i]).raw
                < st.next_raw by {
                let pi: int = if i < d as int {
                    i
                } else {
                    i + 1
                };
                assert(0 < pre.dsps@[pi].raw < pre.next_raw);
            }
            assert(st.wf());
            assert forall|i: int|
                0 <= i < st.dsps@.len() implies (#[trigger] st.dsps@[i]).raw != self.raw by {
                let pi: int = if i < d as int {
                    i
                } else {
                    i + 1
                };
                if pi < d as int {
                    assert(pre.dsps@[pi].raw != pre.dsps@[d as int].raw);
                } else if pi > d as int {
                    assert(pre.dsps@[d as int].raw != pre.dsps@[pi].raw);
                }
            }
        }
        Ok(())
    }

    /// The core system the unit belongs to.
    pub fn get_system(&self, st: &Studio) -> (r: Result<CoreSystem, FmodError>)
        requires
            st.wf(),
        ensures
            r is Ok <==> dsp_live(*st, self.raw),
            r is Err ==> r->Err_0.code == FMOD_ERR_INVALID_HANDLE,
            r is Ok ==> r->Ok_0.raw == st.core_raw,
    {
        let _d = self.locate(st)?;
        Ok(CoreSystem { raw: st.core_raw })
    }

    /// The unit's profiled mixer-thread cost, exclusive and inclusive of
    /// its children.
    ///
    /// Available only when the system was initialized with the profiling
    /// flag; without it the call fails with the unsupported-feature code
    /// rather than reporting idle zeros.
    pub fn get_cpu_usage(&self, st: &Studio) -> (r: Result<(u32, u32), FmodError>)
        requires
            st.wf(),
        ensures
            r is Ok <==> dsp_live(*st, self.raw) && st.profiling,
            !dsp_live(*st, self.raw) ==> r is Err && r->Err_0.code
                == FMOD_ERR_INVALID_HANDLE,
            dsp_live(*st, self.raw) && !st.profiling ==> r is Err && r->Err_0.code
                == crate::error::FMOD_ERR_UNSUPPORTED,
            r is Ok ==> exists|d: int|
                0 <= d < st.dsps@.len() && (#[trigger] st.dsps@[d]).raw == self.raw
                    && r->Ok_0.0 == st.dsps@[d].cpu_exclusive && r->Ok_0.1 == st.dsps@[
                    d].cpu_inclusive && r->Ok_0.0 <= r->Ok_0.1,
    {
        let d = self.locate(st)?;
        if !st.profiling {
            return Err(FmodError { code: crate::error::FMOD_ERR_UNSUPPORTED });
        }
        Ok((st.dsps[d].cpu_exclusive, st.dsps[d].cpu_inclusive))
    }
}

} // verus!
