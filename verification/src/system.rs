//! The studio system: construction, the scheduler step, and bank loading.
//!
//! The system handle is the root of every other handle. Construction and
//! destruction are not safe to overlap with any other call into the engine;
//! that obligation stays with the caller and is not papered over with
//! locking here.

use vstd::prelude::*;

use crate::error::FmodError;
use crate::error::FMOD_ERR_EVENT_ALREADY_LOADED;
use crate::error::FMOD_ERR_FILE_BAD;
use crate::error::FMOD_ERR_FILE_NOTFOUND;
use crate::error::FMOD_ERR_INVALID_HANDLE;
use crate::error::FMOD_ERR_INVALID_PARAM;
use crate::error::FMOD_ERR_MEMORY;
use crate::flags::AdvancedSettings;
use crate::flags::CoreInitFlags;
use crate::flags::InitFlags;
use crate::flags::LoadBankFlags;
use crate::handles::CoreSystem;
use crate::ids::Guid;
use crate::loading::LoadingState;
use crate::model::slot_advanced;
use crate::model::advance_slot_exec;
use crate::model::Studio;
use crate::model::COUNT_CAP;
use crate::userdata::UserdataTable;

verus! {

/// A handle to a studio system.
#[derive(Clone, Copy, Debug, PartialEq, Eq, Structural)]
pub struct System {
    pub raw: usize,
}

/// Builds a studio system, holding the settings that can only be chosen
/// before initialization.
pub struct SystemBuilder {
    pub settings: AdvancedSettings,
}

impl SystemBuilder {
    /// Starts building a system with the engine's default settings.
    ///
    /// Must not overlap any other call into the engine; the caller
    /// serializes construction externally.
    pub fn new() -> (r: SystemBuilder)
        ensures
            r.settings.encryption_key is None,
    {
        SystemBuilder { settings: AdvancedSettings::defaults() }
    }

    /// Replaces the pre-initialization settings.
    pub fn settings(&mut self, settings: AdvancedSettings)
        ensures
            final(self).settings == settings,
    {
        self.settings = settings;
    }

    /// Initializes the engine, producing the system handle and the engine
    /// state it owns. The core system is created along with the studio
    /// system.
    pub fn build(self, max_channels: i32, studio_flags: InitFlags, flags: CoreInitFlags) -> (r:
        (System, Studio))
        ensures
            r.1.wf(),
            r.1.live,
            r.0.raw == r.1.sys_raw,
            r.1.banks@.len() == 0,
            r.1.authored@.len() == 0,
            r.1.geometries@.len() == 0,
            r.1.dsps@.len() == 0,
            r.1.userdata.entries@.len() == 0,
            r.1.global_params@.len() == 0,
            r.1.settings == self.settings,
            r.1.profiling == flags.spec_profiling(),
    {
        let _ = max_channels;
        let _ = studio_flags;
        let studio = Studio {
            live: true,
            profiling: flags.is_profiling(),
            sys_raw: 1,
            core_raw: 2,
            next_raw: 3,
            settings: self.settings,
            listener_count: 1,
            authored: Vec::new(),
            banks: Vec::new(),
            global_params: Vec::new(),
            geometries: Vec::new(),
            dsps: Vec::new(),
            userdata: UserdataTable::new(),
            capture: None,
            captured_files: Vec::new(),
            replays: Vec::new(),
            buffer_stalls: 0,
            buffer_stall_time_ms: 0,
        };
        (System { raw: 1 }, studio)
    }
}

impl System {
    /// Wraps a raw handle value as received from the ABI.
    pub fn from_ffi(value: usize) -> (r: System)
        ensures
            r.raw == value,
    {
        System { raw: value }
    }

    /// The raw handle value, for handing back across the ABI.
    pub fn into_ffi(self) -> (r: usize)
        ensures
            r == self.raw,
    {
        self.raw
    }

    /// Builds a system with default settings and flags.
    ///
    /// Must not overlap any other call into the engine; the caller
    /// serializes construction externally.
    pub fn new() -> (r: (System, Studio))
        ensures
            r.1.wf(),
            r.1.live,
            r.0.raw == r.1.sys_raw,
            r.1.banks@.len() == 0,
            r.1.authored@.len() == 0,
    {
        SystemBuilder::new().build(0, InitFlags::normal(), CoreInitFlags::normal())
    }

    /// Whether this handle refers to the live, initialized system.
    pub fn is_valid(&self, st: &Studio) -> (r: bool)
        ensures
            r == (st.live && self.raw == st.sys_raw),
    {
        st.live && self.raw == st.sys_raw
    }

    /// Whether this handle can act on the engine state at all.
    fn check(&self, st: &Studio) -> (r: Result<(), FmodError>)
        ensures
            r is Ok <==> st.live && self.raw == st.sys_raw,
            r is Err ==> r->Err_0.code == FMOD_ERR_INVALID_HANDLE,
    {
        if st.live && self.raw == st.sys_raw {
            Ok(())
        } else {
            Err(FmodError { code: FMOD_ERR_INVALID_HANDLE })
        }
    }

    /// Tears the system down, freeing everything created under it.
    ///
    /// Every handle obtained from this system is invalid afterwards. Must
    /// not overlap any other call into the engine; the caller serializes
    /// destruction externally.
    pub fn release(self, st: &mut Studio) -> (r: Result<(), FmodError>)
        requires
            old(st).wf(),
        ensures
            final(st).wf(),
            r is Err ==> *final(st) == *old(st) && r->Err_0.code == FMOD_ERR_INVALID_HANDLE,
            r is Ok <==> old(st).live && self.raw == old(st).sys_raw,
            r is Ok ==> !final(st).live && final(st).banks@.len() == 0 && final(st).geometries@.len() == 0 && final(st).dsps@.len() == 0 && final(st).userdata.entries@.len() == 0 && final(st).authored@ == old(st).authored@
                && final(st).next_raw == old(st).next_raw,
    {
        self.check(st)?;
        st.live = false;
        st.banks = Vec::new();
        st.geometries = Vec::new();
        st.dsps = Vec::new();
        st.userdata = UserdataTable::new();
        st.replays = Vec::new();
        st.capture = None;
        Ok(())
    }

    /// One observable step of the engine's own scheduler: every pending
    /// asynchronous load or unload of bank metadata and of sample data
    /// completes, successfully or with its pending error.
    ///
    /// The wrapper never drives state transitions itself; callers poll the
    /// loading-state queries after this.
    pub fn update(&self, st: &mut Studio) -> (r: Result<(), FmodError>)
        requires
            old(st).wf(),
        ensures
            final(st).wf(),
            r is Err ==> *final(st) == *old(st) && r->Err_0.code == FMOD_ERR_INVALID_HANDLE,
            r is Ok <==> old(st).live && self.raw == old(st).sys_raw,
            r is Ok ==> {
                &&& final(st).banks@.len() == old(st).banks@.len()
                &&& forall|i: int|
                    0 <= i < old(st).banks@.len() ==> slot_advanced(
                        #[trigger] old(st).banks@[i],
                        final(st).banks@[i],
                    )
                &&& old(st).eq_except_banks(*final(st))
                &&& final(st).next_raw == old(st).next_raw
            },
    {
        self.check(st)?;
        let ghost pre = *st;
        let n = st.banks.len();
        let mut i: usize = 0;
        while i < n
            invariant
                n == st.banks@.len(),
                n == pre.banks@.len(),
                i <= n,
                forall|j: int|
                    0 <= j < i ==> slot_advanced(#[trigger] pre.banks@[j], st.banks@[j]),
                forall|j: int| i <= j < n ==> st.banks@[j] == pre.banks@[j],
                pre.eq_except_banks(*st),
                st.next_raw == pre.next_raw,
            decreases n - i,
        {
            let ghost before = st.banks@;
            let s = st.banks.remove(i);
            let s2 = advance_slot_exec(s);
            st.banks.insert(i, s2);
            proof {
                assert(st.banks@ =~= before.update(i as int, st.banks@[i as int]));
            }
            i = i + 1;
        }
        proof {
            reveal(slot_advanced);
            assert forall|k: int|
                0 <= k < st.banks@.len() implies (#[trigger] st.banks@[k]).wf(st.next_raw) by {
                assert(slot_advanced(pre.banks@[k], st.banks@[k]));
                assert(pre.banks@[k].wf(pre.next_raw));
                if st.banks@[k].filled {
                    assert forall|e: int|
                        0 <= e < st.banks@[k].events_state@.len() implies (
                    #[trigger] st.banks@[k].events_state@[e]).instances@.len() <= COUNT_CAP by {
                        assert(crate::model::event_slot_advanced(
                            pre.banks@[k].events_state@[e],
                            st.banks@[k].events_state@[e],
                        ));
                        assert(pre.banks@[k].events_state@[e].instances@.len() <= COUNT_CAP);
                    }
                }
            }
            assert forall|i: int, j: int|
                0 <= i < j < st.banks@.len() implies (#[trigger] st.banks@[i]).raw != (
            #[trigger] st.banks@[j]).raw by {
                assert(slot_advanced(pre.banks@[i], st.banks@[i]));
                assert(slot_advanced(pre.banks@[j], st.banks@[j]));
                assert(pre.banks@[i].raw != pre.banks@[j].raw);
            }
            assert forall|i: int, j: int|
                0 <= i < j < st.banks@.len() && (#[trigger] st.banks@[i]).filled && (
            #[trigger] st.banks@[j]).filled implies st.banks@[i].data_idx != st.banks@[
                j].data_idx by {
                assert(slot_advanced(pre.banks@[i], st.banks@[i]));
                assert(slot_advanced(pre.banks@[j], st.banks@[j]));
            }
            assert forall|i: int, j: int|
                0 <= i < st.banks@.len() && 0 <= j < st.banks@.len() && i != j && (
            #[trigger] st.banks@[i]).filled && (#[trigger] st.banks@[j]).filled implies (
            st.banks@[i].event_base + st.banks@[i].n_events <= st.banks@[j].event_base
                || st.banks@[j].event_base + st.banks@[j].n_events <= st.banks@[
                i].event_base) by {
                assert(slot_advanced(pre.banks@[i], st.banks@[i]));
                assert(slot_advanced(pre.banks@[j], st.banks@[j]));
                assert(pre.banks@[i].filled && pre.banks@[j].filled ==> (pre.banks@[
                    i].event_base + pre.banks@[i].n_events <= pre.banks@[j].event_base
                    || pre.banks@[j].event_base + pre.banks@[j].n_events <= pre.banks@[
                    i].event_base));
            }
            assert forall|i: int|
                0 <= i < st.banks@.len() && (#[trigger] st.banks@[i]).filled implies st.banks@[
                i].data_idx < st.authored@.len() && st.banks@[i].n_buses == st.authored@[
                st.banks@[i].data_idx as int].buses@.len() && st.banks@[i].n_vcas
                == st.authored@[st.banks@[i].data_idx as int].vcas@.len() && st.banks@[
                i].n_events == st.authored@[st.banks@[i].data_idx as int].events@.len() by {
                assert(slot_advanced(pre.banks@[i], st.banks@[i]));
                assert(pre.banks@[i].filled);
            }
            assert(st.wf());
        }
        Ok(())
    }

    /// Blocks until all buffered commands and pending bank loads have been
    /// executed: observably, one full scheduler step.
    pub fn flush_commands(&self, st: &mut Studio) -> (r: Result<(), FmodError>)
        requires
            old(st).wf(),
        ensures
            final(st).wf(),
            r is Err ==> *final(st) == *old(st) && r->Err_0.code == FMOD_ERR_INVALID_HANDLE,
            r is Ok <==> old(st).live && self.raw == old(st).sys_raw,
            r is Ok ==> {
                &&& final(st).banks@.len() == old(st).banks@.len()
                &&& forall|i: int|
                    0 <= i < old(st).banks@.len() ==> slot_advanced(
                        #[trigger] old(st).banks@[i],
                        final(st).banks@[i],
                    )
                &&& old(st).eq_except_banks(*final(st))
            },
    {
        self.update(st)
    }

    /// Blocks until all sample loading and unloading has completed:
    /// observably, one full scheduler step.
    pub fn flush_sample_loading(&self, st: &mut Studio) -> (r: Result<(), FmodError>)
        requires
            old(st).wf(),
        ensures
            final(st).wf(),
            r is Err ==> *final(st) == *old(st) && r->Err_0.code == FMOD_ERR_INVALID_HANDLE,
            r is Ok <==> old(st).live && self.raw == old(st).sys_raw,
            r is Ok ==> {
                &&& final(st).banks@.len() == old(st).banks@.len()
                &&& forall|i: int|
                    0 <= i < old(st).banks@.len() ==> slot_advanced(
                        #[trigger] old(st).banks@[i],
                        final(st).banks@[i],
                    )
                &&& old(st).eq_except_banks(*final(st))
            },
    {
        self.update(st)
    }
}

/// A handle to a loaded bank, or to one whose load or unload is in flight.
#[derive(Clone, Copy, Debug, PartialEq, Eq, Structural)]
pub struct Bank {
    pub raw: usize,
}

impl Bank {
    /// Wraps a raw handle value as received from the ABI.
    pub fn from_ffi(value: usize) -> (r: Bank)
        ensures
            r.raw == value,
    {
        Bank { raw: value }
    }

    /// The raw handle value, for handing back across the ABI.
    pub fn into_ffi(self) -> (r: usize)
        ensures
            r == self.raw,
    {
        self.raw
    }
}

impl System {
    /// Loads a bank from an in-memory image the engine copies before use.
    ///
    /// Blocking by default; with the non-blocking flag the call returns at
    /// once with a valid handle whose state reports loading, then loaded or
    /// the load's failure once the scheduler has run. A recognized image
    /// loads the content it was authored with; an unrecognized one fails
    /// with the bad-file code, immediately when blocking, at the poll after
    /// the scheduler step when non-blocking. Incompatible with an
    /// encryption key, and a bank already loaded is not loaded twice.
    pub fn load_bank_memory(&self, st: &mut Studio, buffer: &Vec<u8>, flags: LoadBankFlags) -> (r:
        Result<Bank, FmodError>)
        requires
            old(st).wf(),
        ensures
            final(st).wf(),
            r is Err ==> *final(st) == *old(st),
            !(old(st).live && self.raw == old(st).sys_raw) ==> r is Err && r->Err_0.code
                == FMOD_ERR_INVALID_HANDLE,
            old(st).live && self.raw == old(st).sys_raw && old(st).settings.encryption_key is Some ==> r is Err && r->Err_0.code
                == FMOD_ERR_INVALID_PARAM,
            old(st).live && self.raw == old(st).sys_raw && old(st).settings.encryption_key is None && old(st).spec_find_image(buffer@) is None
                && !flags.spec_nonblocking() ==> r is Err && r->Err_0.code == FMOD_ERR_FILE_BAD,
            old(st).live && self.raw == old(st).sys_raw && old(st).settings.encryption_key is None && (forall|a: int|
                old(st).spec_find_image(buffer@) == Some(a) ==> old(st).spec_content_loaded(
                    a,
                )) && old(st).spec_find_image(buffer@) is Some ==> r is Err && r->Err_0.code
                == FMOD_ERR_EVENT_ALREADY_LOADED,
            old(st).live && self.raw == old(st).sys_raw && old(st).settings.encryption_key is None && old(st).banks@.len() < COUNT_CAP && (forall|a: int|
                old(st).spec_find_image(buffer@) == Some(a) ==> !old(
                    st,
                ).spec_content_loaded(a)) && (old(st).spec_find_image(buffer@) is Some
                || flags.spec_nonblocking()) ==> r is Ok || r->Err_0.code == FMOD_ERR_MEMORY,
            r is Ok ==> {
                let s = final(st).banks@.last();
                &&& old(st).live && self.raw == old(st).sys_raw
                &&& final(st).banks@.len() == old(st).banks@.len() + 1
                &&& forall|i: int|
                    0 <= i < old(st).banks@.len() ==> final(st).banks@[i] == old(st).banks@[i]
                &&& r->Ok_0.raw == s.raw
                &&& s.raw == old(st).next_raw
                &&& !old(st).bank_present(s.raw)
                &&& old(st).eq_except_banks(*final(st))
                &&& flags.spec_nonblocking() ==> s.phase == LoadingState::Loading
                &&& !flags.spec_nonblocking() ==> s.phase == LoadingState::Loaded
                &&& forall|a: int|
                    old(st).spec_find_image(buffer@) == Some(a) ==> s.filled && s.data_idx
                        == a && s.pending_error is None
                &&& old(st).spec_find_image(buffer@) is None ==> !s.filled
                    && s.pending_error == Some(FmodError { code: FMOD_ERR_FILE_BAD })
                &&& s.sample == crate::model::SampleLoad::spec_idle()
                &&& forall|e: int|
                    0 <= e < s.events_state@.len() ==> (#[trigger] s.events_state@[
                    e]).instances@.len() == 0 && s.events_state@[e].sample
                        == crate::model::SampleLoad::spec_idle()
            },
    {
        self.check(st)?;
        if st.settings.encryption_key.is_some() {
            return Err(FmodError { code: FMOD_ERR_INVALID_PARAM });
        }
        let nonblocking = flags.is_nonblocking();
        let found = st.find_image(buffer);
        match found {
            Some(a) => {
                if st.content_loaded(a) {
                    return Err(FmodError { code: FMOD_ERR_EVENT_ALREADY_LOADED });
                }
                if st.banks.len() >= COUNT_CAP {
                    return Err(FmodError { code: FMOD_ERR_MEMORY });
                }
                let raw = st.install_loaded_bank(a, nonblocking)?;
                proof {
                    assert(!old(st).bank_present(raw));
                }
                Ok(Bank { raw })
            },
            None => {
                if !nonblocking {
                    return Err(FmodError { code: FMOD_ERR_FILE_BAD });
                }
                if st.banks.len() >= COUNT_CAP {
                    return Err(FmodError { code: FMOD_ERR_MEMORY });
                }
                let raw = st.install_failed_bank(FmodError { code: FMOD_ERR_FILE_BAD })?;
                proof {
                    assert(!old(st).bank_present(raw));
                }
                Ok(Bank { raw })
            },
        }
    }

    /// Loads a bank from a file the engine knows by name.
    ///
    /// Blocking by default; with the non-blocking flag the call returns at
    /// once with a valid handle whose state reports the outcome once the
    /// scheduler has run. An unknown filename fails with the file-not-found
    /// code. The filename must be representable as a C string.
    pub fn load_bank_file(&self, st: &mut Studio, filename: &str, flags: LoadBankFlags) -> (r:
        Result<Bank, FmodError>)
        requires
            old(st).wf(),
        ensures
            final(st).wf(),
            r is Err ==> *final(st) == *old(st),
            !(old(st).live && self.raw == old(st).sys_raw) ==> r is Err && r->Err_0.code
                == FMOD_ERR_INVALID_HANDLE,
            old(st).live && self.raw == old(st).sys_raw && !crate::text::c_representable(
                filename@,
            ) ==> r is Err && r->Err_0.code == crate::error::FMOD_ERR_INVALID_STRING,
            old(st).live && self.raw == old(st).sys_raw && crate::text::c_representable(
                filename@,
            ) && old(st).spec_find_filename(filename@) is None && !flags.spec_nonblocking()
                ==> r is Err && r->Err_0.code == FMOD_ERR_FILE_NOTFOUND,
            old(st).live && self.raw == old(st).sys_raw && crate::text::c_representable(
                filename@,
            ) && (forall|a: int|
                old(st).spec_find_filename(filename@) == Some(a) ==> old(
                    st,
                ).spec_content_loaded(a)) && old(st).spec_find_filename(filename@) is Some
                ==> r is Err && r->Err_0.code == FMOD_ERR_EVENT_ALREADY_LOADED,
            old(st).live && self.raw == old(st).sys_raw && crate::text::c_representable(
                filename@,
            ) && old(st).banks@.len() < COUNT_CAP && (forall|a: int|
                old(st).spec_find_filename(filename@) == Some(a) ==> !old(
                    st,
                ).spec_content_loaded(a)) && (old(st).spec_find_filename(filename@) is Some
                || flags.spec_nonblocking()) ==> r is Ok || r->Err_0.code == FMOD_ERR_MEMORY,
            r is Ok ==> {
                let s = final(st).banks@.last();
                &&& old(st).live && self.raw == old(st).sys_raw
                &&& final(st).banks@.len() == old(st).banks@.len() + 1
                &&& forall|i: int|
                    0 <= i < old(st).banks@.len() ==> final(st).banks@[i] == old(st).banks@[i]
                &&& r->Ok_0.raw == s.raw
                &&& s.raw == old(st).next_raw
                &&& !old(st).bank_present(s.raw)
                &&& old(st).eq_except_banks(*final(st))
                &&& flags.spec_nonblocking() ==> s.phase == LoadingState::Loading
                &&& !flags.spec_nonblocking() ==> s.phase == LoadingState::Loaded
                &&& forall|a: int|
                    old(st).spec_find_filename(filename@) == Some(a) ==> s.filled
                        && s.data_idx == a && s.pending_error is None
                &&& old(st).spec_find_filename(filename@) is None ==> !s.filled
                    && s.pending_error == Some(FmodError { code: FMOD_ERR_FILE_NOTFOUND })
                &&& s.sample == crate::model::SampleLoad::spec_idle()
                &&& forall|e: int|
                    0 <= e < s.events_state@.len() ==> (#[trigger] s.events_state@[
                    e]).instances@.len() == 0 && s.events_state@[e].sample
                        == crate::model::SampleLoad::spec_idle()
            },
    {
        self.check(st)?;
        crate::text::marshal_out(filename)?;
        let nonblocking = flags.is_nonblocking();
        let found = st.find_filename(filename);
        match found {
            Some(a) => {
                if st.content_loaded(a) {
                    return Err(FmodError { code: FMOD_ERR_EVENT_ALREADY_LOADED });
                }
                if st.banks.len() >= COUNT_CAP {
                    return Err(FmodError { code: FMOD_ERR_MEMORY });
                }
                let raw = st.install_loaded_bank(a, nonblocking)?;
                proof {
                    assert(!old(st).bank_present(raw));
                }
                Ok(Bank { raw })
            },
            None => {
                if !nonblocking {
                    return Err(FmodError { code: FMOD_ERR_FILE_NOTFOUND });
                }
                if st.banks.len() >= COUNT_CAP {
                    return Err(FmodError { code: FMOD_ERR_MEMORY });
                }
                let raw = st.install_failed_bank(FmodError { code: FMOD_ERR_FILE_NOTFOUND })?;
                proof {
                    assert(!old(st).bank_present(raw));
                }
                Ok(Bank { raw })
            },
        }
    }

    /// Unloads every loaded bank at once, invalidating all bank handles.
    pub fn unload_all_banks(&self, st: &mut Studio) -> (r: Result<(), FmodError>)
        requires
            old(st).wf(),
        ensures
            final(st).wf(),
            r is Err ==> *final(st) == *old(st) && r->Err_0.code == FMOD_ERR_INVALID_HANDLE,
            r is Ok <==> old(st).live && self.raw == old(st).sys_raw,
            r is Ok ==> final(st).banks@.len() == 0 && old(st).eq_except_banks(*final(st))
                && final(st).next_raw == old(st).next_raw,
    {
        self.check(st)?;
        st.banks = Vec::new();
        Ok(())
    }

    /// The number of banks the engine holds, loaded or in flight.
    pub fn bank_count(&self, st: &Studio) -> (r: Result<i32, FmodError>)
        requires
            st.wf(),
        ensures
            r is Ok <==> st.live && self.raw == st.sys_raw,
            r is Err ==> r->Err_0.code == FMOD_ERR_INVALID_HANDLE,
            r is Ok ==> r->Ok_0 == st.banks@.len(),
    {
        self.check(st)?;
        Ok(st.banks.len() as i32)
    }

    /// The handles of all banks the engine holds, retrieved with the
    /// two-phase count-then-fill protocol; the fill count must agree with
    /// the discovery count.
    pub fn get_bank_list(&self, st: &Studio) -> (r: Result<Vec<Bank>, FmodError>)
        requires
            st.wf(),
        ensures
            r is Ok <==> st.live && self.raw == st.sys_raw,
            r is Err ==> r->Err_0.code == FMOD_ERR_INVALID_HANDLE,
            r is Ok ==> {
                &&& r->Ok_0@.len() == st.banks@.len()
                &&& forall|i: int|
                    0 <= i < st.banks@.len() ==> (#[trigger] r->Ok_0@[i]).raw == st.banks@[
                        i].raw
            },
    {
        self.check(st)?;
        let mut raws: Vec<usize> = Vec::new();
        let mut i: usize = 0;
        while i < st.banks.len()
            invariant
                i <= st.banks@.len(),
                raws@.len() == i,
                forall|j: int| 0 <= j < i ==> raws@[j] == (#[trigger] st.banks@[j]).raw,
            decreases st.banks@.len() - i,
        {
            raws.push(st.banks[i].raw);
            i = i + 1;
        }
        let fetched = match crate::protocol::fetch_list(&raws) {
            Ok(v) => v,
            Err(_) => {
                return Err(FmodError { code: crate::error::FMOD_ERR_INTERNAL });
            },
        };
        let mut out: Vec<Bank> = Vec::new();
        let mut k: usize = 0;
        while k < fetched.len()
            invariant
                k <= fetched@.len(),
                out@.len() == k,
                fetched@.len() == st.banks@.len(),
                forall|j: int| 0 <= j < fetched@.len() ==> fetched@[j] == (#[trigger] st.banks@[j]).raw,
                forall|j: int| 0 <= j < k ==> (#[trigger] out@[j]).raw == st.banks@[j].raw,
            decreases fetched@.len() - k,
        {
            out.push(Bank { raw: fetched[k] });
            k = k + 1;
        }
        Ok(out)
    }
}

impl System {
    /// Retrieves a loaded bank by path.
    ///
    /// Path lookups go through the loaded string tables, so they only
    /// succeed while a strings-carrying bank is loaded. The path must be
    /// representable as a C string.
    pub fn get_bank(&self, st: &Studio, path: &str) -> (r: Result<Bank, FmodError>)
        requires
            st.wf(),
        ensures
            !(st.live && self.raw == st.sys_raw) ==> r is Err && r->Err_0.code
                == FMOD_ERR_INVALID_HANDLE,
            st.live && self.raw == st.sys_raw && !crate::text::c_representable(path@) ==> r
                is Err && r->Err_0.code == crate::error::FMOD_ERR_INVALID_STRING,
            r is Ok ==> exists|g: Guid|
                #[trigger] st.path_maps(path@, g) && st.bank_id_found(g) && (exists|b: int|
                    #[trigger] st.bank_id_at(b, g) && r->Ok_0.raw == st.banks@[b].raw),
            st.live && self.raw == st.sys_raw && crate::text::c_representable(path@)
                && !st.path_found(path@) ==> r is Err && r->Err_0.code
                == crate::error::FMOD_ERR_EVENT_NOTFOUND,
            st.live && self.raw == st.sys_raw && crate::text::c_representable(path@) && (
            forall|g: Guid| #[trigger] st.path_maps(path@, g) ==> !st.bank_id_found(g))
                ==> r is Err && r->Err_0.code == crate::error::FMOD_ERR_EVENT_NOTFOUND,
            st.live && self.raw == st.sys_raw && crate::text::c_representable(path@) && (
            exists|g: Guid| #[trigger] st.path_maps(path@, g) && st.bank_id_found(g)) ==> r
                is Ok,
    {
        self.check(st)?;
        crate::text::marshal_out(path)?;
        let g = match st.lookup_guid(path) {
            Some(g) => g,
            None => {
                return Err(FmodError { code: crate::error::FMOD_ERR_EVENT_NOTFOUND });
            },
        };
        proof {
            assert forall|g2: Guid| #[trigger] st.path_maps(path@, g2) implies g2 == g by {
                st.lemma_path_maps_functional(path@, g2, g);
            }
        }
        match st.find_bank_by_guid(g) {
            Some(b) => Ok(Bank { raw: st.banks[b].raw }),
            None => Err(FmodError { code: crate::error::FMOD_ERR_EVENT_NOTFOUND }),
        }
    }

    /// Retrieves a loaded bank by identifier.
    pub fn get_bank_by_id(&self, st: &Studio, id: crate::ids::Guid) -> (r: Result<
        Bank,
        FmodError,
    >)
        requires
            st.wf(),
        ensures
            !(st.live && self.raw == st.sys_raw) ==> r is Err && r->Err_0.code
                == FMOD_ERR_INVALID_HANDLE,
            st.live && self.raw == st.sys_raw ==> {
                &&& r is Ok <==> st.bank_id_found(id)
                &&& r is Ok ==> exists|b: int|
                    #[trigger] st.bank_id_at(b, id) && r->Ok_0.raw == st.banks@[b].raw
                &&& !st.bank_id_found(id) ==> r is Err && r->Err_0.code
                    == crate::error::FMOD_ERR_EVENT_NOTFOUND
            },
    {
        self.check(st)?;
        match st.find_bank_by_guid(id) {
            Some(b) => Ok(Bank { raw: st.banks[b].raw }),
            None => Err(FmodError { code: crate::error::FMOD_ERR_EVENT_NOTFOUND }),
        }
    }

    /// Retrieves a loaded event description by path.
    ///
    /// Path lookups go through the loaded string tables; the path must be
    /// representable as a C string.
    pub fn get_event(&self, st: &Studio, path: &str) -> (r: Result<
        crate::event::EventDescription,
        FmodError,
    >)
        requires
            st.wf(),
        ensures
            !(st.live && self.raw == st.sys_raw) ==> r is Err && r->Err_0.code
                == FMOD_ERR_INVALID_HANDLE,
            st.live && self.raw == st.sys_raw && !crate::text::c_representable(path@) ==> r
                is Err && r->Err_0.code == crate::error::FMOD_ERR_INVALID_STRING,
            r is Ok ==> exists|g: Guid|
                #[trigger] st.path_maps(path@, g) && (exists|b: int, e: int|
                    #[trigger] st.event_at(b, e) && st.event_data(b, e).id == g
                        && r->Ok_0.raw == st.banks@[b].event_base + e),
            st.live && self.raw == st.sys_raw && crate::text::c_representable(path@)
                && !st.path_found(path@) ==> r is Err && r->Err_0.code
                == crate::error::FMOD_ERR_EVENT_NOTFOUND,
            st.live && self.raw == st.sys_raw && crate::text::c_representable(path@) && (
            forall|g: Guid| #[trigger] st.path_maps(path@, g) ==> !st.event_id_found(g))
                ==> r is Err && r->Err_0.code == crate::error::FMOD_ERR_EVENT_NOTFOUND,
            st.live && self.raw == st.sys_raw && crate::text::c_representable(path@) && (
            exists|g: Guid| #[trigger] st.path_maps(path@, g) && st.event_id_found(g)) ==> r
                is Ok,
    {
        self.check(st)?;
        crate::text::marshal_out(path)?;
        let g = match st.lookup_guid(path) {
            Some(g) => g,
            None => {
                return Err(FmodError { code: crate::error::FMOD_ERR_EVENT_NOTFOUND });
            },
        };
        proof {
            assert forall|g2: Guid| #[trigger] st.path_maps(path@, g2) implies g2 == g by {
                st.lemma_path_maps_functional(path@, g2, g);
            }
        }
        match st.find_event_by_id(g) {
            Some((b, e)) => {
                let base = st.banks[b].event_base;
                proof {
                    assert(st.event_at(b as int, e as int));
                }
                Ok(crate::event::EventDescription { raw: base + e })
            },
            None => Err(FmodError { code: crate::error::FMOD_ERR_EVENT_NOTFOUND }),
        }
    }

    /// Retrieves a loaded event description by identifier.
    pub fn get_event_by_id(&self, st: &Studio, id: crate::ids::Guid) -> (r: Result<
        crate::event::EventDescription,
        FmodError,
    >)
        requires
            st.wf(),
        ensures
            !(st.live && self.raw == st.sys_raw) ==> r is Err && r->Err_0.code
                == FMOD_ERR_INVALID_HANDLE,
            st.live && self.raw == st.sys_raw ==> {
                &&& r is Ok <==> st.event_id_found(id)
                &&& r is Ok ==> exists|b: int, e: int|
                    #[trigger] st.event_at(b, e) && st.event_data(b, e).id == id
                        && r->Ok_0.raw == st.banks@[b].event_base + e
                &&& !st.event_id_found(id) ==> r is Err && r->Err_0.code
                    == crate::error::FMOD_ERR_EVENT_NOTFOUND
            },
    {
        self.check(st)?;
        match st.find_event_by_id(id) {
            Some((b, e)) => {
                let base = st.banks[b].event_base;
                proof {
                    assert(st.event_at(b as int, e as int));
                }
                Ok(crate::event::EventDescription { raw: base + e })
            },
            None => Err(FmodError { code: crate::error::FMOD_ERR_EVENT_NOTFOUND }),
        }
    }

    /// Retrieves the identifier a path maps to through the loaded string
    /// tables. The path must be representable as a C string.
    pub fn lookup_id(&self, st: &Studio, path: &str) -> (r: Result<crate::ids::Guid, FmodError>)
        requires
            st.wf(),
        ensures
            !(st.live && self.raw == st.sys_raw) ==> r is Err && r->Err_0.code
                == FMOD_ERR_INVALID_HANDLE,
            st.live && self.raw == st.sys_raw && !crate::text::c_representable(path@) ==> r
                is Err && r->Err_0.code == crate::error::FMOD_ERR_INVALID_STRING,
            r is Ok ==> st.path_maps(path@, r->Ok_0),
            st.live && self.raw == st.sys_raw && crate::text::c_representable(path@)
                && !st.path_found(path@) ==> r is Err && r->Err_0.code
                == crate::error::FMOD_ERR_EVENT_NOTFOUND,
            st.live && self.raw == st.sys_raw && crate::text::c_representable(path@)
                && st.path_found(path@) ==> r is Ok,
    {
        self.check(st)?;
        crate::text::marshal_out(path)?;
        match st.lookup_guid(path) {
            Some(g) => Ok(g),
            None => Err(FmodError { code: crate::error::FMOD_ERR_EVENT_NOTFOUND }),
        }
    }

    /// Retrieves the path an identifier maps to through the loaded string
    /// tables, with the two-phase size-discovery protocol.
    pub fn lookup_path(&self, st: &Studio, id: crate::ids::Guid) -> (r: Result<String, FmodError>)
        requires
            st.wf(),
        ensures
            !(st.live && self.raw == st.sys_raw) ==> r is Err && r->Err_0.code
                == FMOD_ERR_INVALID_HANDLE,
            st.live && self.raw == st.sys_raw ==> {
                &&& !st.id_found(id) ==> r is Err && r->Err_0.code
                    == crate::error::FMOD_ERR_EVENT_NOTFOUND
                &&& r is Ok ==> exists|b: int, k: int|
                    #[trigger] st.string_at(b, k) && st.string_entry(b, k).id == id
                        && r->Ok_0@ == st.string_entry(b, k).path@
                &&& st.id_found(id) ==> r is Ok || r->Err_0.code == FMOD_ERR_MEMORY
            },
    {
        self.check(st)?;
        let (b, k) = match st.find_string_by_id(id) {
            Some(pos) => pos,
            None => {
                return Err(FmodError { code: crate::error::FMOD_ERR_EVENT_NOTFOUND });
            },
        };
        let text = &st.authored[st.banks[b].data_idx].strings[k].path;
        match crate::protocol::fetch_string(text) {
            Ok(s) => {
                proof {
                    assert(st.string_at(b as int, k as int) && st.string_entry(
                        b as int,
                        k as int,
                    ).id == id && s@ == st.string_entry(b as int, k as int).path@);
                }
                Ok(s)
            },
            Err(crate::protocol::QueryError::Native(e)) => Err(e),
            Err(crate::protocol::QueryError::Mismatch { .. }) => Err(
                FmodError { code: crate::error::FMOD_ERR_INTERNAL },
            ),
        }
    }

    /// Sets the number of listeners in the scene, between one and the
    /// engine's limit of eight.
    pub fn set_listener_count(&self, st: &mut Studio, amount: i32) -> (r: Result<(), FmodError>)
        requires
            old(st).wf(),
        ensures
            final(st).wf(),
            r is Err ==> *final(st) == *old(st),
            !(old(st).live && self.raw == old(st).sys_raw) ==> r is Err && r->Err_0.code
                == FMOD_ERR_INVALID_HANDLE,
            old(st).live && self.raw == old(st).sys_raw && !(1 <= amount <= 8) ==> r is Err
                && r->Err_0.code == FMOD_ERR_INVALID_PARAM,
            r is Ok <==> old(st).live && self.raw == old(st).sys_raw && 1 <= amount <= 8,
            r is Ok ==> *final(st) == (Studio { listener_count: amount, ..*old(st) }),
    {
        self.check(st)?;
        if amount < 1 || amount > 8 {
            return Err(FmodError { code: FMOD_ERR_INVALID_PARAM });
        }
        st.listener_count = amount;
        Ok(())
    }

    /// The number of listeners in the scene.
    pub fn get_listener_count(&self, st: &Studio) -> (r: Result<i32, FmodError>)
        requires
            st.wf(),
        ensures
            r is Ok <==> st.live && self.raw == st.sys_raw,
            r is Err ==> r->Err_0.code == FMOD_ERR_INVALID_HANDLE,
            r is Ok ==> r->Ok_0 == st.listener_count,
    {
        self.check(st)?;
        Ok(st.listener_count)
    }

    /// The core mixer system this studio system wraps.
    pub fn get_core_system(&self, st: &Studio) -> (r: Result<CoreSystem, FmodError>)
        requires
            st.wf(),
        ensures
            r is Ok <==> st.live && self.raw == st.sys_raw,
            r is Err ==> r->Err_0.code == FMOD_ERR_INVALID_HANDLE,
            r is Ok ==> r->Ok_0.raw == st.core_raw,
    {
        self.check(st)?;
        Ok(CoreSystem { raw: st.core_raw })
    }

    /// The settings the system was built with.
    pub fn get_advanced_settings(&self, st: &Studio) -> (r: Result<AdvancedSettings, FmodError>)
        requires
            st.wf(),
        ensures
            r is Ok <==> st.live && self.raw == st.sys_raw,
            r is Err ==> r->Err_0.code == FMOD_ERR_INVALID_HANDLE,
            r is Ok ==> r->Ok_0 == st.settings,
    {
        self.check(st)?;
        let key = match &st.settings.encryption_key {
            Some(s) => Some(s.clone()),
            None => None,
        };
        Ok(
            AdvancedSettings {
                command_queue_size: st.settings.command_queue_size,
                handle_initial_size: st.settings.handle_initial_size,
                studio_update_period: st.settings.studio_update_period,
                idle_sample_data_pool_size: st.settings.idle_sample_data_pool_size,
                streaming_schedule_delay: st.settings.streaming_schedule_delay,
                encryption_key: key,
            },
        )
    }

    /// The number of global parameters the engine knows.
    pub fn parameter_description_count(&self, st: &Studio) -> (r: Result<i32, FmodError>)
        requires
            st.wf(),
        ensures
            r is Ok <==> st.live && self.raw == st.sys_raw,
            r is Err ==> r->Err_0.code == FMOD_ERR_INVALID_HANDLE,
            r is Ok ==> r->Ok_0 == st.global_params@.len(),
    {
        self.check(st)?;
        Ok(st.global_params.len() as i32)
    }

    /// Retrieves a global parameter's label by parameter name, with the
    /// two-phase size-discovery protocol. The name must be representable as
    /// a C string; an unknown name or label position reports the not-found
    /// code.
    pub fn get_parameter_label_by_name(&self, st: &Studio, name: &str, label_index: i32) -> (r:
        Result<String, FmodError>)
        requires
            st.wf(),
        ensures
            !(st.live && self.raw == st.sys_raw) ==> r is Err && r->Err_0.code
                == FMOD_ERR_INVALID_HANDLE,
            st.live && self.raw == st.sys_raw && !crate::text::c_representable(name@) ==> r
                is Err && r->Err_0.code == crate::error::FMOD_ERR_INVALID_STRING,
            r is Ok ==> exists|p: int|
                #[trigger] st.param_name_at(p, name@) && 0 <= label_index
                    < st.global_params@[p].labels@.len() && r->Ok_0@ == st.global_params@[
                    p].labels@[label_index as int]@,
            st.live && self.raw == st.sys_raw && crate::text::c_representable(name@) && !(
            exists|p: int| #[trigger] st.param_name_at(p, name@)) ==> r is Err
                && r->Err_0.code == crate::error::FMOD_ERR_EVENT_NOTFOUND,
            st.live && self.raw == st.sys_raw && crate::text::c_representable(name@) && (
            exists|p: int| #[trigger] st.param_name_at(p, name@)) && (forall|p: int|
                #[trigger] st.param_name_at(p, name@) ==> !(0 <= label_index
                    < st.global_params@[p].labels@.len())) ==> r is Err && r->Err_0.code
                == crate::error::FMOD_ERR_EVENT_NOTFOUND,
            st.live && self.raw == st.sys_raw && crate::text::c_representable(name@) && (
            exists|p: int| #[trigger] st.param_name_at(p, name@)) && (forall|p: int|
                #[trigger] st.param_name_at(p, name@) ==> 0 <= label_index
                    < st.global_params@[p].labels@.len()) ==> r is Ok || r->Err_0.code
                == FMOD_ERR_MEMORY,
    {
        self.check(st)?;
        crate::text::marshal_out(name)?;
        let p = match st.find_param_by_name(name) {
            Some(p) => p,
            None => {
                return Err(FmodError { code: crate::error::FMOD_ERR_EVENT_NOTFOUND });
            },
        };
        let labels = &st.global_params[p].labels;
        if label_index < 0 || label_index as usize >= labels.len() {
            return Err(FmodError { code: crate::error::FMOD_ERR_EVENT_NOTFOUND });
        }
        match crate::protocol::fetch_string(&labels[label_index as usize]) {
            Ok(s) => {
                proof {
                    assert(st.param_name_at(p as int, name@) && 0 <= label_index
                        < st.global_params@[p as int].labels@.len() && s@
                        == st.global_params@[p as int].labels@[label_index as int]@);
                }
                Ok(s)
            },
            Err(crate::protocol::QueryError::Native(e)) => Err(e),
            Err(crate::protocol::QueryError::Mismatch { .. }) => Err(
                FmodError { code: crate::error::FMOD_ERR_INTERNAL },
            ),
        }
    }

    /// Retrieves a global parameter's label by parameter identifier, with
    /// the two-phase size-discovery protocol. An unknown identifier or
    /// label position reports the not-found code.
    pub fn get_parameter_label_by_id(
        &self,
        st: &Studio,
        id: crate::ids::ParameterID,
        label_index: i32,
    ) -> (r: Result<String, FmodError>)
        requires
            st.wf(),
        ensures
            !(st.live && self.raw == st.sys_raw) ==> r is Err && r->Err_0.code
                == FMOD_ERR_INVALID_HANDLE,
            r is Ok ==> exists|p: int|
                #[trigger] st.param_id_at(p, id) && 0 <= label_index < st.global_params@[
                    p].labels@.len() && r->Ok_0@ == st.global_params@[p].labels@[
                    label_index as int]@,
            st.live && self.raw == st.sys_raw && !(exists|p: int|
                #[trigger] st.param_id_at(p, id)) ==> r is Err && r->Err_0.code
                == crate::error::FMOD_ERR_EVENT_NOTFOUND,
            st.live && self.raw == st.sys_raw && (exists|p: int|
                #[trigger] st.param_id_at(p, id)) && (forall|p: int|
                #[trigger] st.param_id_at(p, id) ==> !(0 <= label_index < st.global_params@[
                    p].labels@.len())) ==> r is Err && r->Err_0.code
                == crate::error::FMOD_ERR_EVENT_NOTFOUND,
            st.live && self.raw == st.sys_raw && (exists|p: int|
                #[trigger] st.param_id_at(p, id)) && (forall|p: int|
                #[trigger] st.param_id_at(p, id) ==> 0 <= label_index < st.global_params@[
                    p].labels@.len()) ==> r is Ok || r->Err_0.code == FMOD_ERR_MEMORY,
    {
        self.check(st)?;
        let p = match st.find_param_by_id(id) {
            Some(p) => p,
            None => {
                return Err(FmodError { code: crate::error::FMOD_ERR_EVENT_NOTFOUND });
            },
        };
        let labels = &st.global_params[p].labels;
        if label_index < 0 || label_index as usize >= labels.len() {
            return Err(FmodError { code: crate::error::FMOD_ERR_EVENT_NOTFOUND });
        }
        match crate::protocol::fetch_string(&labels[label_index as usize]) {
            Ok(s) => {
                proof {
                    assert(st.param_id_at(p as int, id) && 0 <= label_index
                        < st.global_params@[p as int].labels@.len() && s@
                        == st.global_params@[p as int].labels@[label_index as int]@);
                }
                Ok(s)
            },
            Err(crate::protocol::QueryError::Native(e)) => Err(e),
            Err(crate::protocol::QueryError::Mismatch { .. }) => Err(
                FmodError { code: crate::error::FMOD_ERR_INTERNAL },
            ),
        }
    }
}

/// Cumulative stall statistics of the studio command queue.
#[derive(Clone, Copy, Debug, PartialEq, Eq, Structural)]
pub struct BufferUsage {
    pub stall_count: u32,
    pub stall_time_ms: u32,
}

impl System {
    /// Starts recording the commands issued to the engine into the named
    /// capture file. The filename must be representable as a C string.
    pub fn start_command_capture(
        &self,
        st: &mut Studio,
        filename: &str,
        flags: crate::flags::CommandCaptureFlags,
    ) -> (r: Result<(), FmodError>)
        requires
            old(st).wf(),
        ensures
            final(st).wf(),
            r is Err ==> *final(st) == *old(st),
            !(old(st).live && self.raw == old(st).sys_raw) ==> r is Err && r->Err_0.code
                == FMOD_ERR_INVALID_HANDLE,
            old(st).live && self.raw == old(st).sys_raw && !crate::text::c_representable(
                filename@,
            ) ==> r is Err && r->Err_0.code == crate::error::FMOD_ERR_INVALID_STRING,
            r is Ok <==> old(st).live && self.raw == old(st).sys_raw
                && crate::text::c_representable(filename@),
            r is Ok ==> final(st).capture is Some && final(st).capture->0@ == filename@
                && *final(st) == (Studio { capture: final(st).capture, ..*old(st) }),
    {
        let _ = flags;
        self.check(st)?;
        crate::text::marshal_out(filename)?;
        st.capture = Some(filename.to_owned());
        Ok(())
    }

    /// Stops recording, making the capture file loadable for replay; fails
    /// with the invalid-parameter code when no capture is running.
    pub fn stop_command_capture(&self, st: &mut Studio) -> (r: Result<(), FmodError>)
        requires
            old(st).wf(),
        ensures
            final(st).wf(),
            r is Err ==> *final(st) == *old(st),
            !(old(st).live && self.raw == old(st).sys_raw) ==> r is Err && r->Err_0.code
                == FMOD_ERR_INVALID_HANDLE,
            old(st).live && self.raw == old(st).sys_raw && old(st).capture is None ==> r
                is Err && r->Err_0.code == FMOD_ERR_INVALID_PARAM,
            r is Ok <==> old(st).live && self.raw == old(st).sys_raw && old(
                st,
            ).capture is Some,
            r is Ok ==> final(st).capture is None && final(st).captured_files@ == old(
                st,
            ).captured_files@.push(old(st).capture->0) && *final(st) == (Studio {
                capture: final(st).capture,
                captured_files: final(st).captured_files,
                ..*old(st)
            }),
    {
        self.check(st)?;
        let mut taken: Option<String> = None;
        core::mem::swap(&mut taken, &mut st.capture);
        match taken {
            Some(f) => {
                st.captured_files.push(f);
                Ok(())
            },
            None => Err(FmodError { code: FMOD_ERR_INVALID_PARAM }),
        }
    }

    /// Loads a previously captured command file for replay. An unknown
    /// filename fails with the file-not-found code; the filename must be
    /// representable as a C string.
    pub fn load_command_replay(
        &self,
        st: &mut Studio,
        filename: &str,
        flags: crate::flags::CommandReplayFlags,
    ) -> (r: Result<crate::handles::CommandReplay, FmodError>)
        requires
            old(st).wf(),
        ensures
            final(st).wf(),
            r is Err ==> *final(st) == *old(st),
            !(old(st).live && self.raw == old(st).sys_raw) ==> r is Err && r->Err_0.code
                == FMOD_ERR_INVALID_HANDLE,
            old(st).live && self.raw == old(st).sys_raw && !crate::text::c_representable(
                filename@,
            ) ==> r is Err && r->Err_0.code == crate::error::FMOD_ERR_INVALID_STRING,
            old(st).live && self.raw == old(st).sys_raw && crate::text::c_representable(
                filename@,
            ) && (forall|i: int|
                0 <= i < old(st).captured_files@.len() ==> (#[trigger] old(
                    st,
                ).captured_files@[i])@ != filename@) ==> r is Err && r->Err_0.code
                == crate::error::FMOD_ERR_FILE_NOTFOUND,
            old(st).live && self.raw == old(st).sys_raw && crate::text::c_representable(
                filename@,
            ) && old(st).next_raw < usize::MAX && (exists|i: int|
                0 <= i < old(st).captured_files@.len() && (#[trigger] old(
                    st,
                ).captured_files@[i])@ == filename@) ==> r is Ok,
            r is Ok ==> (exists|i: int|
                0 <= i < old(st).captured_files@.len() && (#[trigger] old(
                    st,
                ).captured_files@[i])@ == filename@) && r->Ok_0.raw == old(st).next_raw
                && final(st).replays@ == old(st).replays@.push(r->Ok_0.raw) && *final(st)
                == (Studio {
                replays: final(st).replays,
                next_raw: final(st).next_raw,
                ..*old(st)
            }),
    {
        let _ = flags;
        self.check(st)?;
        crate::text::marshal_out(filename)?;
        let found = find_captured(&st.captured_files, filename);
        if !found {
            return Err(FmodError { code: crate::error::FMOD_ERR_FILE_NOTFOUND });
        }
        if st.next_raw == usize::MAX {
            return Err(FmodError { code: FMOD_ERR_MEMORY });
        }
        let ghost pre = *st;
        let raw = st.next_raw;
        st.replays.push(raw);
        st.next_raw = st.next_raw + 1;
        proof {
            assert forall|k: int|
                0 <= k < st.banks@.len() implies (#[trigger] st.banks@[k]).wf(
                st.next_raw,
            ) by {
                assert(pre.banks@[k].wf(pre.next_raw));
            }
            assert forall|k: int|
                0 <= k < st.geometries@.len() implies (#[trigger] st.geometries@[k]).wf(
                st.next_raw,
            ) by {
                assert(pre.geometries@[k].wf(pre.next_raw));
            }
            assert forall|k: int|
                0 <= k < st.dsps@.len() implies 0 < (#[trigger] st.dsps@[k]).raw
                < st.next_raw by {
                assert(0 < pre.dsps@[k].raw < pre.next_raw);
            }
            assert(st.wf());
        }
        Ok(crate::handles::CommandReplay { raw })
    }

    /// The cumulative stall statistics of the command queue.
    pub fn get_buffer_usage(&self, st: &Studio) -> (r: Result<BufferUsage, FmodError>)
        requires
            st.wf(),
        ensures
            r is Ok <==> st.live && self.raw == st.sys_raw,
            r is Err ==> r->Err_0.code == FMOD_ERR_INVALID_HANDLE,
            r is Ok ==> r->Ok_0 == (BufferUsage {
                stall_count: st.buffer_stalls,
                stall_time_ms: st.buffer_stall_time_ms,
            }),
    {
        self.check(st)?;
        Ok(BufferUsage { stall_count: st.buffer_stalls, stall_time_ms: st.buffer_stall_time_ms })
    }

    /// Resets the cumulative stall statistics to zero.
    pub fn reset_buffer_usage(&self, st: &mut Studio) -> (r: Result<(), FmodError>)
        requires
            old(st).wf(),
        ensures
            final(st).wf(),
            r is Err ==> *final(st) == *old(st) && r->Err_0.code == FMOD_ERR_INVALID_HANDLE,
            r is Ok <==> old(st).live && self.raw == old(st).sys_raw,
            r is Ok ==> *final(st) == (Studio {
                buffer_stalls: 0,
                buffer_stall_time_ms: 0,
                ..*old(st)
            }),
    {
        self.check(st)?;
        st.buffer_stalls = 0;
        st.buffer_stall_time_ms = 0;
        Ok(())
    }
}

impl System {
    /// Retrieves a bus of the global mixer by path, through the loaded
    /// string tables. The path must be representable as a C string.
    pub fn get_bus(&self, st: &Studio, path: &str) -> (r: Result<
        crate::handles::Bus,
        FmodError,
    >)
        requires
            st.wf(),
        ensures
            !(st.live && self.raw == st.sys_raw) ==> r is Err && r->Err_0.code
                == FMOD_ERR_INVALID_HANDLE,
            st.live && self.raw == st.sys_raw && !crate::text::c_representable(path@) ==> r
                is Err && r->Err_0.code == crate::error::FMOD_ERR_INVALID_STRING,
            r is Ok ==> exists|g: Guid|
                #[trigger] st.path_maps(path@, g) && (exists|b: int, k: int|
                    #[trigger] st.bus_at(b, k) && st.bus_id(b, k) == g && r->Ok_0.raw
                        == st.banks@[b].bus_base + k),
            st.live && self.raw == st.sys_raw && crate::text::c_representable(path@)
                && !st.path_found(path@) ==> r is Err && r->Err_0.code
                == crate::error::FMOD_ERR_EVENT_NOTFOUND,
            st.live && self.raw == st.sys_raw && crate::text::c_representable(path@) && (
            forall|g: Guid| #[trigger] st.path_maps(path@, g) ==> !st.bus_id_found(g)) ==> r
                is Err && r->Err_0.code == crate::error::FMOD_ERR_EVENT_NOTFOUND,
            st.live && self.raw == st.sys_raw && crate::text::c_representable(path@) && (
            exists|g: Guid| #[trigger] st.path_maps(path@, g) && st.bus_id_found(g)) ==> r
                is Ok,
    {
        self.check(st)?;
        crate::text::marshal_out(path)?;
        let g = match st.lookup_guid(path) {
            Some(g) => g,
            None => {
                return Err(FmodError { code: crate::error::FMOD_ERR_EVENT_NOTFOUND });
            },
        };
        proof {
            assert forall|g2: Guid| #[trigger] st.path_maps(path@, g2) implies g2 == g by {
                st.lemma_path_maps_functional(path@, g2, g);
            }
        }
        self.get_bus_by_id(st, g)
    }

    /// Retrieves a bus of the global mixer by identifier.
    pub fn get_bus_by_id(&self, st: &Studio, id: Guid) -> (r: Result<
        crate::handles::Bus,
        FmodError,
    >)
        requires
            st.wf(),
        ensures
            !(st.live && self.raw == st.sys_raw) ==> r is Err && r->Err_0.code
                == FMOD_ERR_INVALID_HANDLE,
            st.live && self.raw == st.sys_raw ==> {
                &&& r is Ok <==> st.bus_id_found(id)
                &&& r is Ok ==> exists|b: int, k: int|
                    #[trigger] st.bus_at(b, k) && st.bus_id(b, k) == id && r->Ok_0.raw
                        == st.banks@[b].bus_base + k
                &&& !st.bus_id_found(id) ==> r is Err && r->Err_0.code
                    == crate::error::FMOD_ERR_EVENT_NOTFOUND
            },
    {
        self.check(st)?;
        match st.find_bus_by_id(id) {
            Some((b, k)) => {
                let base = st.banks[b].bus_base;
                proof {
                    assert(st.bus_at(b as int, k as int));
                }
                Ok(crate::handles::Bus { raw: base + k })
            },
            None => Err(FmodError { code: crate::error::FMOD_ERR_EVENT_NOTFOUND }),
        }
    }

    /// Retrieves a VCA of the global mixer by path, through the loaded
    /// string tables. The path must be representable as a C string.
    pub fn get_vca(&self, st: &Studio, path: &str) -> (r: Result<
        crate::handles::Vca,
        FmodError,
    >)
        requires
            st.wf(),
        ensures
            !(st.live && self.raw == st.sys_raw) ==> r is Err && r->Err_0.code
                == FMOD_ERR_INVALID_HANDLE,
            st.live && self.raw == st.sys_raw && !crate::text::c_representable(path@) ==> r
                is Err && r->Err_0.code == crate::error::FMOD_ERR_INVALID_STRING,
            r is Ok ==> exists|g: Guid|
                #[trigger] st.path_maps(path@, g) && (exists|b: int, k: int|
                    #[trigger] st.vca_at(b, k) && st.vca_id(b, k) == g && r->Ok_0.raw
                        == st.banks@[b].vca_base + k),
            st.live && self.raw == st.sys_raw && crate::text::c_representable(path@)
                && !st.path_found(path@) ==> r is Err && r->Err_0.code
                == crate::error::FMOD_ERR_EVENT_NOTFOUND,
            st.live && self.raw == st.sys_raw && crate::text::c_representable(path@) && (
            forall|g: Guid| #[trigger] st.path_maps(path@, g) ==> !st.vca_id_found(g)) ==> r
                is Err && r->Err_0.code == crate::error::FMOD_ERR_EVENT_NOTFOUND,
            st.live && self.raw == st.sys_raw && crate::text::c_representable(path@) && (
            exists|g: Guid| #[trigger] st.path_maps(path@, g) && st.vca_id_found(g)) ==> r
                is Ok,
    {
        self.check(st)?;
        crate::text::marshal_out(path)?;
        let g = match st.lookup_guid(path) {
            Some(g) => g,
            None => {
                return Err(FmodError { code: crate::error::FMOD_ERR_EVENT_NOTFOUND });
            },
        };
        proof {
            assert forall|g2: Guid| #[trigger] st.path_maps(path@, g2) implies g2 == g by {
                st.lemma_path_maps_functional(path@, g2, g);
            }
        }
        self.get_vca_by_id(st, g)
    }

    /// Retrieves a VCA of the global mixer by identifier.
    pub fn get_vca_by_id(&self, st: &Studio, id: Guid) -> (r: Result<
        crate::handles::Vca,
        FmodError,
    >)
        requires
            st.wf(),
        ensures
            !(st.live && self.raw == st.sys_raw) ==> r is Err && r->Err_0.code
                == FMOD_ERR_INVALID_HANDLE,
            st.live && self.raw == st.sys_raw ==> {
                &&& r is Ok <==> st.vca_id_found(id)
                &&& r is Ok ==> exists|b: int, k: int|
                    #[trigger] st.vca_at(b, k) && st.vca_id(b, k) == id && r->Ok_0.raw
                        == st.banks@[b].vca_base + k
                &&& !st.vca_id_found(id) ==> r is Err && r->Err_0.code
                    == crate::error::FMOD_ERR_EVENT_NOTFOUND
            },
    {
        self.check(st)?;
        match st.find_vca_by_id(id) {
            Some((b, k)) => {
                let base = st.banks[b].vca_base;
                proof {
                    assert(st.vca_at(b as int, k as int));
                }
                Ok(crate::handles::Vca { raw: base + k })
            },
            None => Err(FmodError { code: crate::error::FMOD_ERR_EVENT_NOTFOUND }),
        }
    }
}

/// Whether a capture file of this name was recorded.
fn find_captured(files: &Vec<String>, filename: &str) -> (r: bool)
    ensures
        r == exists|i: int|
            0 <= i < files@.len() && (#[trigger] files@[i])@ == filename@,
{
    let mut i: usize = 0;
    while i < files.len()
        invariant
            i <= files@.len(),
            forall|j: int| 0 <= j < i ==> (#[trigger] files@[j])@ != filename@,
        decreases files@.len() - i,
    {
        if crate::text::str_eq_string(filename, &files[i]) {
            return true;
        }
        i = i + 1;
    }
    false
}

} // verus!
