//! Event descriptions: authored templates and their playable instances.
//!
//! An event description is a template; instances are its independently
//! lived activations. Descriptions live inside a loaded bank: once the bank
//! is gone, every handle derived from it is stale.

use vstd::prelude::*;

use crate::error::FmodError;
use crate::error::FMOD_ERR_EVENT_NOTFOUND;
use crate::error::FMOD_ERR_INVALID_HANDLE;
use crate::error::FMOD_ERR_INVALID_PARAM;
use crate::error::FMOD_ERR_MEMORY;
use crate::handles::EventInstance;
use crate::loading::LoadingState;
use crate::model::sample_after_load;
use crate::model::sample_after_unload;
use crate::model::BankSlot;
use crate::model::EventSlot;
use crate::model::Studio;
use crate::model::COUNT_CAP;

verus! {

/// A handle to an event description inside a loaded bank.
#[derive(Clone, Copy, Debug, PartialEq, Eq, Structural)]
pub struct EventDescription {
    pub raw: usize,
}

/// Whether an event handle refers to an event of a loaded bank of the live
/// system.
pub open spec fn event_live(st: Studio, raw: usize) -> bool {
    st.live && exists|b: int|
        0 <= b < st.banks@.len() && (#[trigger] st.banks@[b]).holds_event(raw) && st.banks@[
            b].phase is Loaded
}

impl EventDescription {
    /// Wraps a raw handle value as received from the ABI.
    pub fn from_ffi(value: usize) -> (r: EventDescription)
        ensures
            r.raw == value,
    {
        EventDescription { raw: value }
    }

    /// The raw handle value, for handing back across the ABI.
    pub fn into_ffi(self) -> (r: usize)
        ensures
            r == self.raw,
    {
        self.raw
    }

    /// Resolves this handle to its bank and event positions, when it is
    /// live.
    fn locate(&self, st: &Studio) -> (r: Result<(usize, usize), FmodError>)
        requires
            st.wf(),
        ensures
            r is Ok <==> event_live(*st, self.raw),
            r is Err ==> r->Err_0.code == FMOD_ERR_INVALID_HANDLE,
            r is Ok ==> {
                let (b, e) = r->Ok_0;
                &&& st.event_at(b as int, e as int)
                &&& self.raw == st.banks@[b as int].event_base + e
            },
    {
        if !st.live {
            return Err(FmodError { code: FMOD_ERR_INVALID_HANDLE });
        }
        match st.find_event(self.raw) {
            Some((b, e)) => {
                if matches!(st.banks[b].phase, LoadingState::Loaded) {
                    proof {
                        assert(st.banks@[b as int].holds_event(self.raw));
                        assert(event_live(*st, self.raw));
                    }
                    Ok((b, e))
                } else {
                    proof {
                        assert forall|bb: int|
                            0 <= bb < st.banks@.len() && (#[trigger] st.banks@[
                            bb]).holds_event(self.raw) implies !(st.banks@[
                        bb].phase is Loaded) by {
                            st.lemma_event_at(self.raw, bb);
                        }
                    }
                    Err(FmodError { code: FMOD_ERR_INVALID_HANDLE })
                }
            },
            None => Err(FmodError { code: FMOD_ERR_INVALID_HANDLE }),
        }
    }

    /// Whether this handle still refers to an event of a loaded bank.
    ///
    /// Once false, it stays false: handles are never reused.
    pub fn is_valid(&self, st: &Studio) -> (r: bool)
        requires
            st.wf(),
        ensures
            r == event_live(*st, self.raw),
    {
        self.locate(st).is_ok()
    }

    /// The event's spatialization flag.
    pub fn is_3d(&self, st: &Studio) -> (r: Result<bool, FmodError>)
        requires
            st.wf(),
        ensures
            r is Ok <==> event_live(*st, self.raw),
            r is Err ==> r->Err_0.code == FMOD_ERR_INVALID_HANDLE,
            r is Ok ==> exists|b: int, e: int|
                #[trigger] st.event_at(b, e) && self.raw == st.banks@[b].event_base + e
                    && r->Ok_0 == st.event_data(b, e).is_3d,
    {
        let (b, e) = self.locate(st)?;
        Ok(st.authored[st.banks[b].data_idx].events[e].is_3d)
    }

    /// The event's doppler flag.
    pub fn is_doppler_enabled(&self, st: &Studio) -> (r: Result<bool, FmodError>)
        requires
            st.wf(),
        ensures
            r is Ok <==> event_live(*st, self.raw),
            r is Err ==> r->Err_0.code == FMOD_ERR_INVALID_HANDLE,
            r is Ok ==> exists|b: int, e: int|
                #[trigger] st.event_at(b, e) && self.raw == st.banks@[b].event_base + e
                    && r->Ok_0 == st.event_data(b, e).is_doppler,
    {
        let (b, e) = self.locate(st)?;
        Ok(st.authored[st.banks[b].data_idx].events[e].is_doppler)
    }

    /// Whether the event terminates on its own in bounded time.
    pub fn is_oneshot(&self, st: &Studio) -> (r: Result<bool, FmodError>)
        requires
            st.wf(),
        ensures
            r is Ok <==> event_live(*st, self.raw),
            r is Err ==> r->Err_0.code == FMOD_ERR_INVALID_HANDLE,
            r is Ok ==> exists|b: int, e: int|
                #[trigger] st.event_at(b, e) && self.raw == st.banks@[b].event_base + e
                    && r->Ok_0 == st.event_data(b, e).is_oneshot,
    {
        let (b, e) = self.locate(st)?;
        Ok(st.authored[st.banks[b].data_idx].events[e].is_oneshot)
    }

    /// Whether the event is a snapshot.
    pub fn is_snapshot(&self, st: &Studio) -> (r: Result<bool, FmodError>)
        requires
            st.wf(),
        ensures
            r is Ok <==> event_live(*st, self.raw),
            r is Err ==> r->Err_0.code == FMOD_ERR_INVALID_HANDLE,
            r is Ok ==> exists|b: int, e: int|
                #[trigger] st.event_at(b, e) && self.raw == st.banks@[b].event_base + e
                    && r->Ok_0 == st.event_data(b, e).is_snapshot,
    {
        let (b, e) = self.locate(st)?;
        Ok(st.authored[st.banks[b].data_idx].events[e].is_snapshot)
    }

    /// Whether the event streams its sample data.
    pub fn is_stream(&self, st: &Studio) -> (r: Result<bool, FmodError>)
        requires
            st.wf(),
        ensures
            r is Ok <==> event_live(*st, self.raw),
            r is Err ==> r->Err_0.code == FMOD_ERR_INVALID_HANDLE,
            r is Ok ==> exists|b: int, e: int|
                #[trigger] st.event_at(b, e) && self.raw == st.banks@[b].event_base + e
                    && r->Ok_0 == st.event_data(b, e).is_stream,
    {
        let (b, e) = self.locate(st)?;
        Ok(st.authored[st.banks[b].data_idx].events[e].is_stream)
    }

    /// Whether the event has any sustain points.
    pub fn has_sustain_point(&self, st: &Studio) -> (r: Result<bool, FmodError>)
        requires
            st.wf(),
        ensures
            r is Ok <==> event_live(*st, self.raw),
            r is Err ==> r->Err_0.code == FMOD_ERR_INVALID_HANDLE,
            r is Ok ==> exists|b: int, e: int|
                #[trigger] st.event_at(b, e) && self.raw == st.banks@[b].event_base + e
                    && r->Ok_0 == st.event_data(b, e).has_sustain_point,
    {
        let (b, e) = self.locate(st)?;
        Ok(st.authored[st.banks[b].data_idx].events[e].has_sustain_point)
    }

    /// The event's identifier.
    pub fn get_id(&self, st: &Studio) -> (r: Result<crate::ids::Guid, FmodError>)
        requires
            st.wf(),
        ensures
            r is Ok <==> event_live(*st, self.raw),
            r is Err ==> r->Err_0.code == FMOD_ERR_INVALID_HANDLE,
            r is Ok ==> exists|b: int, e: int|
                #[trigger] st.event_at(b, e) && self.raw == st.banks@[b].event_base + e
                    && r->Ok_0 == st.event_data(b, e).id,
    {
        let (b, e) = self.locate(st)?;
        Ok(st.authored[st.banks[b].data_idx].events[e].id)
    }

    /// The length of the event's timeline, in milliseconds.
    pub fn get_length(&self, st: &Studio) -> (r: Result<i32, FmodError>)
        requires
            st.wf(),
        ensures
            r is Ok <==> event_live(*st, self.raw),
            r is Err ==> r->Err_0.code == FMOD_ERR_INVALID_HANDLE,
            r is Ok ==> exists|b: int, e: int|
                #[trigger] st.event_at(b, e) && self.raw == st.banks@[b].event_base + e
                    && r->Ok_0 == st.event_data(b, e).length_ms,
    {
        let (b, e) = self.locate(st)?;
        Ok(st.authored[st.banks[b].data_idx].events[e].length_ms)
    }

    /// The event's path, retrieved through the loaded string tables with
    /// the two-phase size-discovery protocol; fails with the not-found code
    /// while no loaded string table maps the event's identifier.
    pub fn get_path(&self, st: &Studio) -> (r: Result<String, FmodError>)
        requires
            st.wf(),
        ensures
            !event_live(*st, self.raw) ==> r is Err && r->Err_0.code
                == FMOD_ERR_INVALID_HANDLE,
            r is Ok ==> exists|b: int, e: int, sb: int, sk: int|
                #[trigger] st.event_at(b, e) && self.raw == st.banks@[b].event_base + e && (
                #[trigger] st.string_at(sb, sk)) && st.string_entry(sb, sk).id
                    == st.event_data(b, e).id && r->Ok_0@ == st.string_entry(sb, sk).path@,
            event_live(*st, self.raw) && (forall|b: int, e: int|
                #[trigger] st.event_at(b, e) && self.raw == st.banks@[b].event_base + e
                    ==> !st.id_found(st.event_data(b, e).id)) ==> r is Err
                && r->Err_0.code == FMOD_ERR_EVENT_NOTFOUND,
            event_live(*st, self.raw) && (exists|b: int, e: int|
                #[trigger] st.event_at(b, e) && self.raw == st.banks@[b].event_base + e
                    && st.id_found(st.event_data(b, e).id)) ==> r is Ok || r->Err_0.code
                == crate::error::FMOD_ERR_MEMORY,
    {
        let (b, e) = self.locate(st)?;
        proof {
            assert forall|bb: int, ee: int|
                #[trigger] st.event_at(bb, ee) && self.raw == st.banks@[bb].event_base
                + ee implies bb == b as int && ee == e as int by {
                lemma_event_witness(*st, self.raw, bb, ee, b as int, e as int);
            }
        }
        let g = st.authored[st.banks[b].data_idx].events[e].id;
        let (sb, sk) = match st.find_string_by_id(g) {
            Some(pos) => pos,
            None => {
                return Err(FmodError { code: FMOD_ERR_EVENT_NOTFOUND });
            },
        };
        let text = &st.authored[st.banks[sb].data_idx].strings[sk].path;
        match crate::protocol::fetch_string(text) {
            Ok(s) => {
                proof {
                    assert(st.event_at(b as int, e as int) && st.string_at(
                        sb as int,
                        sk as int,
                    ) && st.string_entry(sb as int, sk as int).id == st.event_data(
                        b as int,
                        e as int,
                    ).id && s@ == st.string_entry(sb as int, sk as int).path@);
                }
                Ok(s)
            },
            Err(crate::protocol::QueryError::Native(err)) => Err(err),
            Err(crate::protocol::QueryError::Mismatch { .. }) => Err(
                FmodError { code: crate::error::FMOD_ERR_INTERNAL },
            ),
        }
    }

    /// The number of parameters of the event.
    pub fn parameter_description_count(&self, st: &Studio) -> (r: Result<i32, FmodError>)
        requires
            st.wf(),
        ensures
            r is Ok <==> event_live(*st, self.raw),
            r is Err ==> r->Err_0.code == FMOD_ERR_INVALID_HANDLE,
            r is Ok ==> exists|b: int, e: int|
                #[trigger] st.event_at(b, e) && self.raw == st.banks@[b].event_base + e
                    && r->Ok_0 == st.event_data(b, e).params@.len(),
    {
        let (b, e) = self.locate(st)?;
        proof {
            assert(crate::model::bank_data_wf(
                st.authored@[st.banks@[b as int].data_idx as int],
            ));
            assert(crate::model::event_wf(st.event_data(b as int, e as int)));
        }
        Ok(st.authored[st.banks[b].data_idx].events[e].params.len() as i32)
    }

    /// Retrieves a parameter label by parameter position and label
    /// position, with the two-phase size-discovery protocol. A parameter
    /// position out of range reports the invalid-parameter code; a label
    /// position out of range reports the not-found code.
    pub fn get_parameter_label_by_index(&self, st: &Studio, index: i32, label_index: i32) -> (r:
        Result<String, FmodError>)
        requires
            st.wf(),
        ensures
            !event_live(*st, self.raw) ==> r is Err && r->Err_0.code
                == FMOD_ERR_INVALID_HANDLE,
            r is Ok ==> exists|b: int, e: int|
                #[trigger] st.event_at(b, e) && self.raw == st.banks@[b].event_base + e && 0
                    <= index < st.event_data(b, e).params@.len() && 0 <= label_index
                    < st.event_data(b, e).params@[index as int].labels@.len() && r->Ok_0@
                    == st.event_data(b, e).params@[index as int].labels@[label_index as int]@,
            event_live(*st, self.raw) && (exists|b: int, e: int|
                #[trigger] st.event_at(b, e) && self.raw == st.banks@[b].event_base + e
                    && !(0 <= index < st.event_data(b, e).params@.len())) ==> r is Err
                && r->Err_0.code == FMOD_ERR_INVALID_PARAM,
            event_live(*st, self.raw) && (exists|b: int, e: int|
                #[trigger] st.event_at(b, e) && self.raw == st.banks@[b].event_base + e && 0
                    <= index < st.event_data(b, e).params@.len() && !(0 <= label_index
                    < st.event_data(b, e).params@[index as int].labels@.len())) ==> r
                is Err && r->Err_0.code == FMOD_ERR_EVENT_NOTFOUND,
            event_live(*st, self.raw) && (exists|b: int, e: int|
                #[trigger] st.event_at(b, e) && self.raw == st.banks@[b].event_base + e && 0
                    <= index < st.event_data(b, e).params@.len() && 0 <= label_index
                    < st.event_data(b, e).params@[index as int].labels@.len()) ==> r is Ok
                || r->Err_0.code == crate::error::FMOD_ERR_MEMORY,
    {
        let (b, e) = self.locate(st)?;
        proof {
            assert forall|bb: int, ee: int|
                #[trigger] st.event_at(bb, ee) && self.raw == st.banks@[bb].event_base
                + ee implies bb == b as int && ee == e as int by {
                lemma_event_witness(*st, self.raw, bb, ee, b as int, e as int);
            }
        }
        let params = &st.authored[st.banks[b].data_idx].events[e].params;
        if index < 0 || index as usize >= params.len() {
            return Err(FmodError { code: FMOD_ERR_INVALID_PARAM });
        }
        let labels = &params[index as usize].labels;
        if label_index < 0 || label_index as usize >= labels.len() {
            return Err(FmodError { code: FMOD_ERR_EVENT_NOTFOUND });
        }
        match crate::protocol::fetch_string(&labels[label_index as usize]) {
            Ok(s) => {
                proof {
                    assert(st.event_at(b as int, e as int) && 0 <= index < st.event_data(
                        b as int,
                        e as int,
                    ).params@.len() && s@ == st.event_data(b as int, e as int).params@[
                        index as int].labels@[label_index as int]@);
                }
                Ok(s)
            },
            Err(crate::protocol::QueryError::Native(err)) => Err(err),
            Err(crate::protocol::QueryError::Mismatch { .. }) => Err(
                FmodError { code: crate::error::FMOD_ERR_INTERNAL },
            ),
        }
    }

    /// Retrieves a parameter label by parameter name, with the two-phase
    /// size-discovery protocol. The name must be representable as a C
    /// string; an unknown name or label position reports the not-found
    /// code.
    pub fn get_parameter_label_by_name(&self, st: &Studio, name: &str, label_index: i32) -> (r:
        Result<String, FmodError>)
        requires
            st.wf(),
        ensures
            !event_live(*st, self.raw) ==> r is Err && r->Err_0.code
                == FMOD_ERR_INVALID_HANDLE,
            event_live(*st, self.raw) && !crate::text::c_representable(name@) ==> r is Err
                && r->Err_0.code == crate::error::FMOD_ERR_INVALID_STRING,
            r is Ok ==> exists|b: int, e: int, p: int|
                #[trigger] st.event_at(b, e) && self.raw == st.banks@[b].event_base + e && 0
                    <= p < st.event_data(b, e).params@.len() && (#[trigger] st.event_data(
                    b,
                    e,
                ).params@[p]).name@ == name@ && 0 <= label_index < st.event_data(
                    b,
                    e,
                ).params@[p].labels@.len() && r->Ok_0@ == st.event_data(b, e).params@[
                    p].labels@[label_index as int]@,
            event_live(*st, self.raw) && crate::text::c_representable(name@) && (exists|
            b: int, e: int|
                #[trigger] st.event_at(b, e) && self.raw == st.banks@[b].event_base + e && (
                forall|p: int|
                    0 <= p < st.event_data(b, e).params@.len() ==> (#[trigger] st.event_data(
                        b,
                        e,
                    ).params@[p]).name@ != name@)) ==> r is Err && r->Err_0.code
                == FMOD_ERR_EVENT_NOTFOUND,
            event_live(*st, self.raw) && crate::text::c_representable(name@) && (exists|
            b: int, e: int|
                #[trigger] st.event_at(b, e) && self.raw == st.banks@[b].event_base + e && (
                exists|p: int|
                    0 <= p < st.event_data(b, e).params@.len() && (#[trigger] st.event_data(
                        b,
                        e,
                    ).params@[p]).name@ == name@) && (forall|p: int|
                    0 <= p < st.event_data(b, e).params@.len() && (#[trigger] st.event_data(
                        b,
                        e,
                    ).params@[p]).name@ == name@ ==> 0 <= label_index < st.event_data(
                        b,
                        e,
                    ).params@[p].labels@.len())) ==> r is Ok || r->Err_0.code
                == crate::error::FMOD_ERR_MEMORY,
    {
        let (b, e) = self.locate(st)?;
        crate::text::marshal_out(name)?;
        proof {
            assert forall|bb: int, ee: int|
                #[trigger] st.event_at(bb, ee) && self.raw == st.banks@[bb].event_base
                + ee implies bb == b as int && ee == e as int by {
                lemma_event_witness(*st, self.raw, bb, ee, b as int, e as int);
            }
        }
        let params = &st.authored[st.banks[b].data_idx].events[e].params;
        let p = match find_param_by_name(params, name) {
            Some(p) => p,
            None => {
                return Err(FmodError { code: FMOD_ERR_EVENT_NOTFOUND });
            },
        };
        let labels = &params[p].labels;
        if label_index < 0 || label_index as usize >= labels.len() {
            return Err(FmodError { code: FMOD_ERR_EVENT_NOTFOUND });
        }
        match crate::protocol::fetch_string(&labels[label_index as usize]) {
            Ok(s) => {
                proof {
                    assert(st.event_at(b as int, e as int) && st.event_data(
                        b as int,
                        e as int,
                    ).params@[p as int].name@ == name@ && s@ == st.event_data(
                        b as int,
                        e as int,
                    ).params@[p as int].labels@[label_index as int]@);
                }
                Ok(s)
            },
            Err(crate::protocol::QueryError::Native(err)) => Err(err),
            Err(crate::protocol::QueryError::Mismatch { .. }) => Err(
                FmodError { code: crate::error::FMOD_ERR_INTERNAL },
            ),
        }
    }

    /// Retrieves a parameter label by parameter identifier, with the
    /// two-phase size-discovery protocol. An unknown identifier or label
    /// position reports the not-found code.
    pub fn get_parameter_label_by_id(
        &self,
        st: &Studio,
        id: crate::ids::ParameterID,
        label_index: i32,
    ) -> (r: Result<String, FmodError>)
        requires
            st.wf(),
        ensures
            !event_live(*st, self.raw) ==> r is Err && r->Err_0.code
                == FMOD_ERR_INVALID_HANDLE,
            r is Ok ==> exists|b: int, e: int, p: int|
                #[trigger] st.event_at(b, e) && self.raw == st.banks@[b].event_base + e && 0
                    <= p < st.event_data(b, e).params@.len() && (#[trigger] st.event_data(
                    b,
                    e,
                ).params@[p]).id == id && 0 <= label_index < st.event_data(b, e).params@[
                    p].labels@.len() && r->Ok_0@ == st.event_data(b, e).params@[p].labels@[
                    label_index as int]@,
            event_live(*st, self.raw) && (exists|b: int, e: int|
                #[trigger] st.event_at(b, e) && self.raw == st.banks@[b].event_base + e && (
                forall|p: int|
                    0 <= p < st.event_data(b, e).params@.len() ==> (#[trigger] st.event_data(
                        b,
                        e,
                    ).params@[p]).id != id)) ==> r is Err && r->Err_0.code
                == FMOD_ERR_EVENT_NOTFOUND,
            event_live(*st, self.raw) && (exists|b: int, e: int|
                #[trigger] st.event_at(b, e) && self.raw == st.banks@[b].event_base + e && (
                exists|p: int|
                    0 <= p < st.event_data(b, e).params@.len() && (#[trigger] st.event_data(
                        b,
                        e,
                    ).params@[p]).id == id) && (forall|p: int|
                    0 <= p < st.event_data(b, e).params@.len() && (#[trigger] st.event_data(
                        b,
                        e,
                    ).params@[p]).id == id ==> 0 <= label_index < st.event_data(
                        b,
                        e,
                    ).params@[p].labels@.len())) ==> r is Ok || r->Err_0.code
                == crate::error::FMOD_ERR_MEMORY,
    {
        let (b, e) = self.locate(st)?;
        proof {
            assert forall|bb: int, ee: int|
                #[trigger] st.event_at(bb, ee) && self.raw == st.banks@[bb].event_base
                + ee implies bb == b as int && ee == e as int by {
                lemma_event_witness(*st, self.raw, bb, ee, b as int, e as int);
            }
        }
        let params = &st.authored[st.banks[b].data_idx].events[e].params;
        let p = match find_param_by_id(params, id) {
            Some(p) => p,
            None => {
                return Err(FmodError { code: FMOD_ERR_EVENT_NOTFOUND });
            },
        };
        let labels = &params[p].labels;
        if label_index < 0 || label_index as usize >= labels.len() {
            return Err(FmodError { code: FMOD_ERR_EVENT_NOTFOUND });
        }
        match crate::protocol::fetch_string(&labels[label_index as usize]) {
            Ok(s) => {
                proof {
                    assert(st.event_at(b as int, e as int) && st.event_data(
                        b as int,
                        e as int,
                    ).params@[p as int].id == id && s@ == st.event_data(
                        b as int,
                        e as int,
                    ).params@[p as int].labels@[label_index as int]@);
                }
                Ok(s)
            },
            Err(crate::protocol::QueryError::Native(err)) => Err(err),
            Err(crate::protocol::QueryError::Mismatch { .. }) => Err(
                FmodError { code: crate::error::FMOD_ERR_INTERNAL },
            ),
        }
    }

    /// The number of live instances of the event.
    pub fn instance_count(&self, st: &Studio) -> (r: Result<i32, FmodError>)
        requires
            st.wf(),
        ensures
            r is Ok <==> event_live(*st, self.raw),
            r is Err ==> r->Err_0.code == FMOD_ERR_INVALID_HANDLE,
            r is Ok ==> exists|b: int, e: int|
                #[trigger] st.event_at(b, e) && self.raw == st.banks@[b].event_base + e
                    && r->Ok_0 == st.banks@[b].events_state@[e].instances@.len(),
    {
        let (b, e) = self.locate(st)?;
        Ok(st.banks[b].events_state[e].instances.len() as i32)
    }

    /// The handles of all live instances of the event, retrieved with the
    /// two-phase count-then-fill protocol; the fill count must agree with
    /// the discovery count.
    pub fn get_instance_list(&self, st: &Studio) -> (r: Result<Vec<EventInstance>, FmodError>)
        requires
            st.wf(),
        ensures
            r is Ok <==> event_live(*st, self.raw),
            r is Err ==> r->Err_0.code == FMOD_ERR_INVALID_HANDLE,
            r is Ok ==> exists|b: int, e: int|
                #[trigger] st.event_at(b, e) && self.raw == st.banks@[b].event_base + e
                    && r->Ok_0@.len() == st.banks@[b].events_state@[e].instances@.len() && (
                forall|k: int|
                    0 <= k < r->Ok_0@.len() ==> (#[trigger] r->Ok_0@[k]).raw == st.banks@[
                        b].events_state@[e].instances@[k]),
    {
        let (b, e) = self.locate(st)?;
        let fetched = match crate::protocol::fetch_list(&st.banks[b].events_state[e].instances) {
            Ok(v) => v,
            Err(_) => {
                return Err(FmodError { code: crate::error::FMOD_ERR_INTERNAL });
            },
        };
        let mut out: Vec<EventInstance> = Vec::new();
        let mut k: usize = 0;
        while k < fetched.len()
            invariant
                k <= fetched@.len(),
                out@.len() == k,
                forall|j: int| 0 <= j < k ==> (#[trigger] out@[j]).raw == fetched@[j],
            decreases fetched@.len() - k,
        {
            out.push(EventInstance { raw: fetched[k] });
            k = k + 1;
        }
        proof {
            assert(st.event_at(b as int, e as int) && self.raw == st.banks@[
                b as int].event_base + e && out@.len() == st.banks@[b as int].events_state@[
                e as int].instances@.len());
        }
        Ok(out)
    }

    /// Creates a playable instance of the event, registering it with the
    /// description; required sample data starts loading.
    pub fn create_instance(&self, st: &mut Studio) -> (r: Result<EventInstance, FmodError>)
        requires
            old(st).wf(),
        ensures
            final(st).wf(),
            r is Err ==> *final(st) == *old(st),
            !event_live(*old(st), self.raw) ==> r is Err && r->Err_0.code
                == FMOD_ERR_INVALID_HANDLE,
            r is Ok ==> exists|b: int, e: int|
                #[trigger] old(st).event_at(b, e) && self.raw == old(st).banks@[
                    b].event_base + e && final(st).banks@[b].events_state@[e].instances@
                    == old(st).banks@[b].events_state@[e].instances@.push(r->Ok_0.raw)
                    && r->Ok_0.raw == old(st).next_raw && final(st).banks@[b].events_state@
                    == old(st).banks@[b].events_state@.update(
                    e,
                    (EventSlot {
                        instances: final(st).banks@[b].events_state@[e].instances,
                        ..old(st).banks@[b].events_state@[e]
                    }),
                ) && final(st).banks@ == old(st).banks@.update(
                    b,
                    (BankSlot {
                        events_state: final(st).banks@[b].events_state,
                        ..old(st).banks@[b]
                    }),
                ) && final(st).next_raw == old(st).next_raw + 1 && *final(st) == (Studio {
                    banks: final(st).banks,
                    next_raw: final(st).next_raw,
                    ..*old(st)
                }),
            event_live(*old(st), self.raw) && old(st).next_raw < usize::MAX && (exists|
            b: int, e: int|
                #[trigger] old(st).event_at(b, e) && self.raw == old(st).banks@[
                    b].event_base + e && old(st).banks@[b].events_state@[e].instances@.len()
                    < COUNT_CAP) ==> r is Ok,
    {
        let (b, e) = self.locate(st)?;
        proof {
            assert forall|bb: int, ee: int|
                #[trigger] st.event_at(bb, ee) && self.raw == st.banks@[bb].event_base
                + ee implies bb == b as int && ee == e as int by {
                lemma_event_witness(*st, self.raw, bb, ee, b as int, e as int);
            }
        }
        if st.banks[b].events_state[e].instances.len() >= COUNT_CAP {
            return Err(FmodError { code: FMOD_ERR_MEMORY });
        }
        if st.next_raw == usize::MAX {
            return Err(FmodError { code: FMOD_ERR_MEMORY });
        }
        let ghost pre = *st;
        let raw = st.next_raw;
        self.instance_surgery(st, b, e, raw, true);
        st.next_raw = st.next_raw + 1;
        proof {
            Studio::lemma_wf_update_slot(
                Studio { next_raw: st.next_raw, ..pre },
                *st,
                b as int,
            );
            assert(st.event_at(b as int, e as int) == pre.event_at(b as int, e as int));
        }
        Ok(EventInstance { raw })
    }

    /// Pushes or clears an instance entry of one event slot in place.
    fn instance_surgery(&self, st: &mut Studio, b: usize, e: usize, raw: usize, push: bool)
        requires
            old(st).wf(),
            old(st).event_at(b as int, e as int),
        ensures
            final(st).banks@ == old(st).banks@.update(
                b as int,
                final(st).banks@[b as int],
            ),
            *final(st) == (Studio { banks: final(st).banks, ..*old(st) }),
            final(st).banks@[b as int] == (BankSlot {
                events_state: final(st).banks@[b as int].events_state,
                ..old(st).banks@[b as int]
            }),
            final(st).banks@[b as int].events_state@ == old(st).banks@[
                b as int
            ].events_state@.update(e as int, final(st).banks@[b as int].events_state@[e as int]),
            final(st).banks@[b as int].events_state@[e as int] == (EventSlot {
                instances: final(st).banks@[b as int].events_state@[e as int].instances,
                ..old(st).banks@[b as int].events_state@[e as int]
            }),
            push ==> final(st).banks@[b as int].events_state@[e as int].instances@ == old(st).banks@[b as int].events_state@[e as int].instances@.push(raw),
            !push ==> final(st).banks@[b as int].events_state@[e as int].instances@.len()
                == 0,
    {
        let mut slot = st.banks.remove(b);
        let mut ev = slot.events_state.remove(e);
        if push {
            ev.instances.push(raw);
        } else {
            ev.instances = Vec::new();
        }
        slot.events_state.insert(e, ev);
        st.banks.insert(b, slot);
        proof {
            assert(st.banks@ =~= old(st).banks@.update(b as int, st.banks@[b as int]));
            assert(st.banks@[b as int].events_state@ =~= old(st).banks@[
                b as int].events_state@.update(
                e as int,
                st.banks@[b as int].events_state@[e as int],
            ));
        }
    }

    /// Stops and releases every live instance of the event at once.
    pub fn release_all_instances(&self, st: &mut Studio) -> (r: Result<(), FmodError>)
        requires
            old(st).wf(),
        ensures
            final(st).wf(),
            r is Err ==> *final(st) == *old(st),
            r is Ok <==> event_live(*old(st), self.raw),
            r is Err ==> r->Err_0.code == FMOD_ERR_INVALID_HANDLE,
            r is Ok ==> exists|b: int, e: int|
                #[trigger] old(st).event_at(b, e) && self.raw == old(st).banks@[
                    b].event_base + e && final(st).banks@[b].events_state@[
                    e].instances@.len() == 0 && final(st).banks@[b].events_state@ == old(
                    st,
                ).banks@[b].events_state@.update(
                    e,
                    (EventSlot {
                        instances: final(st).banks@[b].events_state@[e].instances,
                        ..old(st).banks@[b].events_state@[e]
                    }),
                ) && final(st).banks@ == old(st).banks@.update(
                    b,
                    (BankSlot {
                        events_state: final(st).banks@[b].events_state,
                        ..old(st).banks@[b]
                    }),
                ) && *final(st) == (Studio { banks: final(st).banks, ..*old(st) }),
    {
        let (b, e) = self.locate(st)?;
        let ghost pre = *st;
        self.instance_surgery(st, b, e, 0, false);
        proof {
            Studio::lemma_wf_update_slot(pre, *st, b as int);
        }
        Ok(())
    }

    /// Requests the event's non-streaming sample data: reference-counted,
    /// asynchronous, and polled through the sample loading-state query.
    pub fn load_sample_data(&self, st: &mut Studio) -> (r: Result<(), FmodError>)
        requires
            old(st).wf(),
        ensures
            final(st).wf(),
            r is Err ==> *final(st) == *old(st),
            !event_live(*old(st), self.raw) ==> r is Err && r->Err_0.code
                == FMOD_ERR_INVALID_HANDLE,
            r is Ok ==> exists|b: int, e: int|
                #[trigger] old(st).event_at(b, e) && self.raw == old(st).banks@[
                    b].event_base + e && old(st).banks@[b].events_state@[e].sample.refs
                    < u32::MAX && final(st).banks@[b].events_state@[e].sample
                    == sample_after_load(old(st).banks@[b].events_state@[e].sample)
                    && final(st).banks@[b].events_state@ == old(st).banks@[
                    b].events_state@.update(
                    e,
                    (EventSlot {
                        sample: final(st).banks@[b].events_state@[e].sample,
                        ..old(st).banks@[b].events_state@[e]
                    }),
                ) && final(st).banks@ == old(st).banks@.update(
                    b,
                    (BankSlot {
                        events_state: final(st).banks@[b].events_state,
                        ..old(st).banks@[b]
                    }),
                ) && *final(st) == (Studio { banks: final(st).banks, ..*old(st) }),
            event_live(*old(st), self.raw) && (exists|b: int, e: int|
                #[trigger] old(st).event_at(b, e) && self.raw == old(st).banks@[
                    b].event_base + e && old(st).banks@[b].events_state@[e].sample.refs
                    < u32::MAX) ==> r is Ok,
    {
        let (b, e) = self.locate(st)?;
        proof {
            assert forall|bb: int, ee: int|
                #[trigger] st.event_at(bb, ee) && self.raw == st.banks@[bb].event_base
                + ee implies bb == b as int && ee == e as int by {
                lemma_event_witness(*st, self.raw, bb, ee, b as int, e as int);
            }
        }
        if st.banks[b].events_state[e].sample.refs == u32::MAX {
            return Err(FmodError { code: FMOD_ERR_MEMORY });
        }
        let ghost pre = *st;
        self.sample_surgery(st, b, e, true);
        proof {
            Studio::lemma_wf_update_slot(pre, *st, b as int);
        }
        Ok(())
    }

    /// Withdraws one sample-data load request; the data unloads once every
    /// request has been withdrawn.
    pub fn unload_sample_data(&self, st: &mut Studio) -> (r: Result<(), FmodError>)
        requires
            old(st).wf(),
        ensures
            final(st).wf(),
            r is Err ==> *final(st) == *old(st),
            r is Ok <==> event_live(*old(st), self.raw),
            r is Err ==> r->Err_0.code == FMOD_ERR_INVALID_HANDLE,
            r is Ok ==> exists|b: int, e: int|
                #[trigger] old(st).event_at(b, e) && self.raw == old(st).banks@[
                    b].event_base + e && final(st).banks@[b].events_state@[e].sample
                    == sample_after_unload(old(st).banks@[b].events_state@[e].sample)
                    && final(st).banks@[b].events_state@ == old(st).banks@[
                    b].events_state@.update(
                    e,
                    (EventSlot {
                        sample: final(st).banks@[b].events_state@[e].sample,
                        ..old(st).banks@[b].events_state@[e]
                    }),
                ) && final(st).banks@ == old(st).banks@.update(
                    b,
                    (BankSlot {
                        events_state: final(st).banks@[b].events_state,
                        ..old(st).banks@[b]
                    }),
                ) && *final(st) == (Studio { banks: final(st).banks, ..*old(st) }),
    {
        let (b, e) = self.locate(st)?;
        let ghost pre = *st;
        self.sample_surgery(st, b, e, false);
        proof {
            Studio::lemma_wf_update_slot(pre, *st, b as int);
        }
        Ok(())
    }

    /// Applies one sample-machine transition to one event slot in place.
    fn sample_surgery(&self, st: &mut Studio, b: usize, e: usize, load: bool)
        requires
            old(st).wf(),
            old(st).event_at(b as int, e as int),
            load ==> old(st).banks@[b as int].events_state@[e as int].sample.refs < u32::MAX,
        ensures
            final(st).banks@ == old(st).banks@.update(
                b as int,
                final(st).banks@[b as int],
            ),
            *final(st) == (Studio { banks: final(st).banks, ..*old(st) }),
            final(st).banks@[b as int] == (BankSlot {
                events_state: final(st).banks@[b as int].events_state,
                ..old(st).banks@[b as int]
            }),
            final(st).banks@[b as int].events_state@ == old(st).banks@[
                b as int
            ].events_state@.update(e as int, final(st).banks@[b as int].events_state@[e as int]),
            final(st).banks@[b as int].events_state@[e as int] == (EventSlot {
                sample: final(st).banks@[b as int].events_state@[e as int].sample,
                ..old(st).banks@[b as int].events_state@[e as int]
            }),
            load ==> final(st).banks@[b as int].events_state@[e as int].sample
                == sample_after_load(old(st).banks@[b as int].events_state@[e as int].sample),
            !load ==> final(st).banks@[b as int].events_state@[e as int].sample
                == sample_after_unload(
                old(st).banks@[b as int].events_state@[e as int].sample,
            ),
    {
        let mut slot = st.banks.remove(b);
        let mut ev = slot.events_state.remove(e);
        ev.sample = if load {
            crate::model::sample_load_exec(ev.sample)
        } else {
            crate::model::sample_unload_exec(ev.sample)
        };
        slot.events_state.insert(e, ev);
        st.banks.insert(b, slot);
        proof {
            assert(st.banks@ =~= old(st).banks@.update(b as int, st.banks@[b as int]));
            assert(st.banks@[b as int].events_state@ =~= old(st).banks@[
                b as int].events_state@.update(
                e as int,
                st.banks@[b as int].events_state@[e as int],
            ));
        }
    }

    /// The sample-data loading state of the event.
    ///
    /// Reports "unloaded" until a load has been explicitly requested, even
    /// if sample data happens to be resident through other paths; an
    /// invalid handle reports the invalid-handle code.
    pub fn get_sample_loading_state(&self, st: &Studio) -> (r: Result<LoadingState, FmodError>)
        requires
            st.wf(),
        ensures
            r is Ok <==> event_live(*st, self.raw),
            r is Err ==> r->Err_0.code == FMOD_ERR_INVALID_HANDLE,
            r is Ok ==> exists|b: int, e: int|
                {
                    let sm = st.banks@[b].events_state@[e].sample;
                    #[trigger] st.event_at(b, e) && self.raw == st.banks@[b].event_base + e
                        && r->Ok_0 == (if sm.requested {
                        sm.phase
                    } else {
                        LoadingState::Unloaded
                    })
                },
    {
        let (b, e) = self.locate(st)?;
        let sm = st.banks[b].events_state[e].sample;
        if !sm.requested {
            return Ok(LoadingState::Unloaded);
        }
        let raw_state = sm.phase.to_raw();
        let err = match sm.phase {
            LoadingState::Error(code) => Some(code),
            _ => None,
        };
        proof {
            if !(sm.phase is Error) {
                crate::loading::lemma_raw_round_trip(sm.phase);
            }
        }
        match LoadingState::try_from_ffi(raw_state, err) {
            Ok(state) => Ok(state),
            Err(e2) => Err(e2),
        }
    }
}

/// Any two playable positions an event handle resolves to are the same:
/// event-handle ranges of distinct banks do not overlap.
pub proof fn lemma_event_witness(st: Studio, raw: usize, b1: int, e1: int, b2: int, e2: int)
    requires
        st.wf(),
        st.event_at(b1, e1),
        raw == st.banks@[b1].event_base + e1,
        st.event_at(b2, e2),
        raw == st.banks@[b2].event_base + e2,
    ensures
        b1 == b2,
        e1 == e2,
{
    assert(st.banks@[b1].holds_event(raw));
    assert(st.banks@[b2].holds_event(raw));
    st.lemma_event_at(raw, b1);
    st.lemma_event_at(raw, b2);
}

/// Finds a parameter by name in an event's parameter list.
fn find_param_by_name(params: &Vec<crate::model::ParamData>, name: &str) -> (r: Option<usize>)
    ensures
        r is Some ==> 0 <= r->0 < params@.len() && params@[r->0 as int].name@ == name@,
        r is None ==> forall|p: int|
            0 <= p < params@.len() ==> (#[trigger] params@[p]).name@ != name@,
{
    let mut p: usize = 0;
    while p < params.len()
        invariant
            p <= params@.len(),
            forall|q: int| 0 <= q < p ==> (#[trigger] params@[q]).name@ != name@,
        decreases params@.len() - p,
    {
        if crate::text::str_eq_string(name, &params[p].name) {
            return Some(p);
        }
        p = p + 1;
    }
    None
}

/// Finds a parameter by identifier in an event's parameter list.
fn find_param_by_id(params: &Vec<crate::model::ParamData>, id: crate::ids::ParameterID) -> (r:
    Option<usize>)
    ensures
        r is Some ==> 0 <= r->0 < params@.len() && params@[r->0 as int].id == id,
        r is None ==> forall|p: int|
            0 <= p < params@.len() ==> (#[trigger] params@[p]).id != id,
{
    let mut p: usize = 0;
    while p < params.len()
        invariant
            p <= params@.len(),
            forall|q: int| 0 <= q < p ==> (#[trigger] params@[q]).id != id,
        decreases params@.len() - p,
    {
        if params[p].id == id {
            return Some(p);
        }
        p = p + 1;
    }
    None
}

} // verus!
