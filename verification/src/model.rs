//! The observable state of the native studio engine.
//!
//! The engine owns every object; the wrapper only holds opaque handles into
//! it. This module models that ownership as an explicit value: the authored
//! content the engine can load, the banks currently loaded or in flight, the
//! geometry and DSP objects of the core layer, and the userdata side table.
//! Handles are never reused: each is drawn from a monotone counter, so a
//! handle that has gone stale stays stale.

use vstd::prelude::*;

use crate::error::FmodError;
use crate::flags::AdvancedSettings;
use crate::ids::Guid;
use crate::ids::ParameterID;
use crate::loading::LoadingState;
use crate::userdata::UserdataTable;

verus! {

/// The largest count the native ABI can report, as counts cross it as
/// 32-bit signed integers.
pub const COUNT_CAP: usize = 0x7fff_ffff;

/// Compares two byte buffers by contents.
pub fn bytes_eq(a: &Vec<u8>, b: &Vec<u8>) -> (r: bool)
    ensures
        r == (a@ == b@),
{
    if a.len() != b.len() {
        proof {
            assert(a@.len() != b@.len());
        }
        return false;
    }
    let mut i: usize = 0;
    while i < a.len()
        invariant
            a@.len() == b@.len(),
            i <= a@.len(),
            forall|j: int| 0 <= j < i ==> a@[j] == b@[j],
        decreases a@.len() - i,
    {
        if a[i] != b[i] {
            return false;
        }
        i = i + 1;
    }
    proof {
        assert(a@ =~= b@);
    }
    true
}

/// An authored parameter: its identifier, name, and labelled values.
#[derive(Clone, Debug, PartialEq, Eq)]
pub struct ParamData {
    pub id: ParameterID,
    pub name: String,
    pub labels: Vec<String>,
}

/// Counts of a parameter fit the ABI.
pub open spec fn param_wf(p: ParamData) -> bool {
    p.labels@.len() <= COUNT_CAP
}

/// An authored event: its identifier, timeline length, flags, and
/// parameters.
#[derive(Clone, Debug, PartialEq, Eq)]
pub struct EventData {
    pub id: Guid,
    pub length_ms: i32,
    pub is_3d: bool,
    pub is_doppler: bool,
    pub is_oneshot: bool,
    pub is_snapshot: bool,
    pub is_stream: bool,
    pub has_sustain_point: bool,
    pub params: Vec<ParamData>,
}

/// Counts of an event fit the ABI.
pub open spec fn event_wf(e: EventData) -> bool {
    &&& e.length_ms >= 0
    &&& e.params@.len() <= COUNT_CAP
    &&& forall|i: int| 0 <= i < e.params@.len() ==> param_wf(#[trigger] e.params@[i])
}

/// One entry of a bank's string table: an identifier and its path.
#[derive(Clone, Debug, PartialEq, Eq)]
pub struct StringEntry {
    pub id: Guid,
    pub path: String,
}

/// The authored content of one bank: what the engine learns when it loads
/// the bank's image or file.
#[derive(Clone, Debug, PartialEq, Eq)]
pub struct BankData {
    pub id: Guid,
    pub filename: String,
    pub image: Vec<u8>,
    pub events: Vec<EventData>,
    pub buses: Vec<Guid>,
    pub vcas: Vec<Guid>,
    pub strings: Vec<StringEntry>,
}

impl BankData {
    /// The content of a bank the engine failed to parse: nothing.
    pub fn empty() -> (r: BankData)
        ensures
            bank_data_wf(r),
            r.events@.len() == 0,
            r.buses@.len() == 0,
            r.vcas@.len() == 0,
            r.strings@.len() == 0,
    {
        BankData {
            id: crate::ids::Guid::zeroed(),
            filename: String::new(),
            image: Vec::new(),
            events: Vec::new(),
            buses: Vec::new(),
            vcas: Vec::new(),
            strings: Vec::new(),
        }
    }
}

/// The identifiers and paths inside a bank's content are pairwise
/// distinct, as authored identifiers denote one object each.
pub open spec fn bank_data_unique(d: BankData) -> bool {
    &&& forall|i: int, j: int|
        0 <= i < j < d.events@.len() ==> (#[trigger] d.events@[i]).id != (
        #[trigger] d.events@[j]).id
    &&& forall|i: int, j: int|
        0 <= i < j < d.strings@.len() ==> (#[trigger] d.strings@[i]).path@ != (
        #[trigger] d.strings@[j]).path@
}

/// Every path in a bank's string table can cross the boundary as a C
/// string, as the engine stores them.
pub open spec fn bank_paths_representable(d: BankData) -> bool {
    forall|k: int|
        0 <= k < d.strings@.len() ==> crate::text::c_representable(
            (#[trigger] d.strings@[k]).path@,
        )
}

/// Counts of a bank's content fit the ABI.
pub open spec fn bank_data_wf(d: BankData) -> bool {
    &&& d.events@.len() <= COUNT_CAP
    &&& d.buses@.len() <= COUNT_CAP
    &&& d.vcas@.len() <= COUNT_CAP
    &&& d.strings@.len() <= COUNT_CAP
    &&& forall|i: int| 0 <= i < d.events@.len() ==> event_wf(#[trigger] d.events@[i])
}

/// The sample-data loading machine of one bank or event: whether an explicit
/// load was requested, how many load requests are outstanding, and the state
/// the engine reports.
///
/// The reported state only advances once a load has been explicitly
/// requested; before that the engine reports "unloaded" even if sample data
/// happens to be resident through other paths. That quirk is preserved, not
/// corrected.
#[derive(Clone, Copy, Debug, PartialEq, Eq, Structural)]
pub struct SampleLoad {
    pub requested: bool,
    pub refs: u32,
    pub phase: LoadingState,
}

impl SampleLoad {
    /// The machine before any request.
    pub open spec fn spec_idle() -> SampleLoad {
        SampleLoad { requested: false, refs: 0, phase: LoadingState::Unloaded }
    }

    /// The machine before any request.
    pub fn idle() -> (r: SampleLoad)
        ensures
            r == SampleLoad::spec_idle(),
    {
        SampleLoad { requested: false, refs: 0, phase: LoadingState::Unloaded }
    }
}

/// The running state of one loaded event: its live instances and its
/// sample-data machine.
#[derive(Clone, Debug, PartialEq, Eq)]
pub struct EventSlot {
    pub instances: Vec<usize>,
    pub sample: SampleLoad,
}

/// One bank the engine knows as loaded or in flight.
///
/// Handles for the bank's buses, VCAs and events are consecutive ranges
/// starting at the recorded bases, assigned when loading completes.
#[derive(Clone, Debug, PartialEq, Eq)]
pub struct BankSlot {
    pub raw: usize,
    pub data_idx: usize,
    pub n_buses: usize,
    pub n_vcas: usize,
    pub n_events: usize,
    pub phase: LoadingState,
    pub pending_error: Option<FmodError>,
    pub filled: bool,
    pub bus_base: usize,
    pub vca_base: usize,
    pub event_base: usize,
    pub events_state: Vec<EventSlot>,
    pub sample: SampleLoad,
}

impl BankSlot {
    /// Well-formedness of one bank slot against the allocation bound.
    pub open spec fn wf(self, bound: usize) -> bool {
        &&& 0 < self.raw < bound
        &&& self.phase is Loaded ==> self.filled
        &&& self.phase is Loading && self.pending_error is None ==> self.filled
        &&& self.filled ==> {
            &&& self.bus_base + self.n_buses <= bound
            &&& self.vca_base + self.n_vcas <= bound
            &&& self.event_base + self.n_events <= bound
            &&& 0 < self.event_base
            &&& self.events_state@.len() == self.n_events
            &&& forall|i: int|
                0 <= i < self.events_state@.len() ==> (#[trigger] self.events_state@[
                i].instances@.len()) <= COUNT_CAP
        }
    }

    /// Whether an event handle value belongs to this bank's event range.
    pub open spec fn holds_event(self, raw: usize) -> bool {
        self.filled && self.event_base <= raw < self.event_base + self.n_events
    }
}

/// One geometry object of the core layer: its fixed capacity, activity
/// flag, polygons (by vertex count), running vertex total, and the value in
/// its native userdata slot (zero when empty).
#[derive(Clone, Debug, PartialEq, Eq)]
pub struct GeometrySlot {
    pub raw: usize,
    pub max_polygons: i32,
    pub max_vertices: i32,
    pub active: bool,
    pub polygons: Vec<i32>,
    pub vertex_count: i32,
    pub userdata_slot: usize,
}

/// The total vertex count of a polygon sequence.
pub open spec fn vertex_total(polys: Seq<i32>) -> int
    decreases polys.len(),
{
    if polys.len() == 0 {
        0
    } else {
        vertex_total(polys.drop_last()) + polys.last()
    }
}

impl GeometrySlot {
    /// Well-formedness of one geometry slot against the allocation bound.
    pub open spec fn wf(self, bound: usize) -> bool {
        &&& 0 < self.raw < bound
        &&& 0 <= self.max_polygons
        &&& 0 <= self.max_vertices
        &&& self.polygons@.len() <= self.max_polygons
        &&& forall|i: int| 0 <= i < self.polygons@.len() ==> #[trigger] self.polygons@[i] >= 3
        &&& self.vertex_count == vertex_total(self.polygons@)
        &&& 0 <= self.vertex_count <= self.max_vertices
    }
}

/// One DSP unit of the core layer: whether it is attached to the mixing
/// graph, and its profiled mixer-thread cost.
#[derive(Clone, Copy, Debug, PartialEq, Eq, Structural)]
pub struct DspSlot {
    pub raw: usize,
    pub attached: bool,
    pub cpu_exclusive: u32,
    pub cpu_inclusive: u32,
}

/// The observable state of the engine: one studio system and the core
/// system it wraps.
#[derive(Clone, Debug, PartialEq, Eq)]
pub struct Studio {
    pub live: bool,
    pub profiling: bool,
    pub sys_raw: usize,
    pub core_raw: usize,
    pub next_raw: usize,
    pub settings: AdvancedSettings,
    pub listener_count: i32,
    pub authored: Vec<BankData>,
    pub banks: Vec<BankSlot>,
    pub global_params: Vec<ParamData>,
    pub geometries: Vec<GeometrySlot>,
    pub dsps: Vec<DspSlot>,
    pub userdata: UserdataTable,
    pub capture: Option<String>,
    pub captured_files: Vec<String>,
    pub replays: Vec<usize>,
    pub buffer_stalls: u32,
    pub buffer_stall_time_ms: u32,
}

impl Studio {
    /// Well-formedness of the whole engine state.
    ///
    /// Handles are nonzero and below the allocation cursor; bank handles,
    /// geometry handles and DSP handles are pairwise distinct; the event
    /// ranges of distinct banks do not overlap; counts fit the ABI; and
    /// every userdata association is owned by a live geometry whose native
    /// slot holds the association's key.
    pub open spec fn wf(self) -> bool {
        &&& 0 < self.sys_raw < self.next_raw
        &&& 0 < self.core_raw < self.next_raw
        &&& self.banks@.len() <= COUNT_CAP
        &&& self.geometries@.len() <= COUNT_CAP
        &&& self.dsps@.len() <= COUNT_CAP
        &&& self.global_params@.len() <= COUNT_CAP
        &&& forall|i: int| 0 <= i < self.banks@.len() ==> (#[trigger] self.banks@[i]).wf(
            self.next_raw,
        )
        &&& forall|i: int, j: int|
            0 <= i < j < self.banks@.len() ==> (#[trigger] self.banks@[i]).raw != (
            #[trigger] self.banks@[j]).raw
        &&& forall|i: int, j: int|
            0 <= i < j < self.authored@.len() ==> (#[trigger] self.authored@[i]).id != (
            #[trigger] self.authored@[j]).id && self.authored@[i].filename@ != self.authored@[
                j].filename@ && self.authored@[i].image@ != self.authored@[j].image@
        &&& forall|a1: int, e1: int, a2: int, e2: int|
            0 <= a1 < self.authored@.len() && 0 <= e1 < self.authored@[a1].events@.len()
                && 0 <= a2 < self.authored@.len() && 0 <= e2 < self.authored@[
                a2].events@.len() && (a1 != a2 || e1 != e2) ==> (
            #[trigger] self.authored@[a1].events@[e1]).id != (#[trigger] self.authored@[
                a2].events@[e2]).id
        &&& forall|a1: int, k1: int, a2: int, k2: int|
            0 <= a1 < self.authored@.len() && 0 <= k1 < self.authored@[a1].strings@.len()
                && 0 <= a2 < self.authored@.len() && 0 <= k2 < self.authored@[
                a2].strings@.len() && (a1 != a2 || k1 != k2) ==> (
            #[trigger] self.authored@[a1].strings@[k1]).path@ != (
            #[trigger] self.authored@[a2].strings@[k2]).path@
        &&& forall|a: int, k: int|
            0 <= a < self.authored@.len() && 0 <= k < self.authored@[a].strings@.len()
                ==> crate::text::c_representable(
                (#[trigger] self.authored@[a].strings@[k]).path@,
            )
        &&& forall|i: int, j: int|
            0 <= i < j < self.banks@.len() && (#[trigger] self.banks@[i]).filled && (
            #[trigger] self.banks@[j]).filled ==> self.banks@[i].data_idx != self.banks@[
                j].data_idx
        &&& forall|i: int| 0 <= i < self.authored@.len() ==> bank_data_wf(
            #[trigger] self.authored@[i],
        )
        &&& forall|i: int|
            0 <= i < self.banks@.len() && (#[trigger] self.banks@[i]).filled ==> self.banks@[
                i].data_idx < self.authored@.len() && self.banks@[i].n_buses == self.authored@[
                self.banks@[i].data_idx as int].buses@.len() && self.banks@[i].n_vcas
                == self.authored@[self.banks@[i].data_idx as int].vcas@.len() && self.banks@[
                i].n_events == self.authored@[self.banks@[i].data_idx as int].events@.len()
        &&& forall|i: int, j: int|
            0 <= i < self.banks@.len() && 0 <= j < self.banks@.len() && i != j && (
            #[trigger] self.banks@[i]).filled && (#[trigger] self.banks@[j]).filled ==> (
            self.banks@[i].event_base + self.banks@[i].n_events <= self.banks@[
                j].event_base || self.banks@[j].event_base + self.banks@[j].n_events
                <= self.banks@[i].event_base)
        &&& forall|i: int| 0 <= i < self.geometries@.len() ==> (
        #[trigger] self.geometries@[i]).wf(self.next_raw)
        &&& forall|i: int, j: int|
            0 <= i < j < self.geometries@.len() ==> (#[trigger] self.geometries@[i]).raw != (
            #[trigger] self.geometries@[j]).raw
        &&& forall|i: int|
            0 <= i < self.dsps@.len() ==> 0 < (#[trigger] self.dsps@[i]).raw < self.next_raw
        &&& forall|i: int, j: int|
            0 <= i < j < self.dsps@.len() ==> (#[trigger] self.dsps@[i]).raw != (
            #[trigger] self.dsps@[j]).raw
        &&& forall|i: int|
            0 <= i < self.dsps@.len() ==> (#[trigger] self.dsps@[i]).cpu_exclusive
                <= self.dsps@[i].cpu_inclusive
        &&& forall|i: int| 0 <= i < self.global_params@.len() ==> param_wf(
            #[trigger] self.global_params@[i],
        )
        &&& self.userdata.wf()
        &&& 1 <= self.listener_count <= 8
    }

    /// The position of the bank holding a handle value, when one does.
    pub open spec fn spec_find_bank(self, raw: usize) -> Option<int> {
        if exists|i: int| 0 <= i < self.banks@.len() && (#[trigger] self.banks@[i]).raw == raw {
            Some(
                choose|i: int|
                    0 <= i < self.banks@.len() && (#[trigger] self.banks@[i]).raw == raw,
            )
        } else {
            None
        }
    }

    /// Whether a bank handle refers to a bank the engine still holds.
    pub open spec fn bank_live(self, raw: usize) -> bool {
        self.live && self.bank_present(raw)
    }

    /// Whether a bank handle still resolves to a slot.
    pub open spec fn bank_present(self, raw: usize) -> bool {
        exists|i: int| 0 <= i < self.banks@.len() && (#[trigger] self.banks@[i]).raw == raw
    }

    /// Everything outside the bank list and the allocation cursor agrees
    /// between two states.
    pub open spec fn eq_except_banks(self, other: Studio) -> bool {
        other == (Studio { banks: other.banks, next_raw: other.next_raw, ..self })
    }

    /// With distinct bank handles, any slot holding the handle determines
    /// the lookup.
    pub proof fn lemma_bank_at(self, raw: usize, i: int)
        requires
            self.wf(),
            0 <= i < self.banks@.len(),
            self.banks@[i].raw == raw,
        ensures
            self.spec_find_bank(raw) == Some(i),
    {
        let j = choose|j: int|
            0 <= j < self.banks@.len() && (#[trigger] self.banks@[j]).raw == raw;
        if i < j {
            assert(self.banks@[i].raw != self.banks@[j].raw);
        } else if j < i {
            assert(self.banks@[j].raw != self.banks@[i].raw);
        }
    }

    /// Finds the position of the bank holding a handle value.
    pub fn find_bank(&self, raw: usize) -> (r: Option<usize>)
        requires
            self.wf(),
        ensures
            r is Some ==> self.spec_find_bank(raw) == Some(r->0 as int) && 0 <= r->0
                < self.banks@.len() && self.banks@[r->0 as int].raw == raw,
            r is None ==> self.spec_find_bank(raw) is None && !self.bank_present(raw),
    {
        let mut i: usize = 0;
        while i < self.banks.len()
            invariant
                self.wf(),
                i <= self.banks@.len(),
                forall|j: int| 0 <= j < i ==> (#[trigger] self.banks@[j]).raw != raw,
            decreases self.banks@.len() - i,
        {
            if self.banks[i].raw == raw {
                proof {
                    self.lemma_bank_at(raw, i as int);
                }
                return Some(i);
            }
            i = i + 1;
        }
        None
    }

    /// The position of the geometry holding a handle value, when one does.
    pub open spec fn spec_find_geometry(self, raw: usize) -> Option<int> {
        if exists|i: int|
            0 <= i < self.geometries@.len() && (#[trigger] self.geometries@[i]).raw == raw {
            Some(
                choose|i: int|
                    0 <= i < self.geometries@.len() && (#[trigger] self.geometries@[i]).raw
                        == raw,
            )
        } else {
            None
        }
    }

    /// With distinct geometry handles, any slot holding the handle
    /// determines the lookup.
    pub proof fn lemma_geometry_at(self, raw: usize, i: int)
        requires
            self.wf(),
            0 <= i < self.geometries@.len(),
            self.geometries@[i].raw == raw,
        ensures
            self.spec_find_geometry(raw) == Some(i),
    {
        let j = choose|j: int|
            0 <= j < self.geometries@.len() && (#[trigger] self.geometries@[j]).raw == raw;
        if i < j {
            assert(self.geometries@[i].raw != self.geometries@[j].raw);
        } else if j < i {
            assert(self.geometries@[j].raw != self.geometries@[i].raw);
        }
    }

    /// Finds the position of the geometry holding a handle value.
    pub fn find_geometry(&self, raw: usize) -> (r: Option<usize>)
        requires
            self.wf(),
        ensures
            r is Some ==> self.spec_find_geometry(raw) == Some(r->0 as int) && 0 <= r->0
                < self.geometries@.len() && self.geometries@[r->0 as int].raw == raw,
            r is None ==> self.spec_find_geometry(raw) is None,
    {
        let mut i: usize = 0;
        while i < self.geometries.len()
            invariant
                self.wf(),
                i <= self.geometries@.len(),
                forall|j: int| 0 <= j < i ==> (#[trigger] self.geometries@[j]).raw != raw,
            decreases self.geometries@.len() - i,
        {
            if self.geometries[i].raw == raw {
                proof {
                    self.lemma_geometry_at(raw, i as int);
                }
                return Some(i);
            }
            i = i + 1;
        }
        None
    }

    /// The position of the DSP unit holding a handle value, when one does.
    pub open spec fn spec_find_dsp(self, raw: usize) -> Option<int> {
        if exists|i: int| 0 <= i < self.dsps@.len() && (#[trigger] self.dsps@[i]).raw == raw {
            Some(
                choose|i: int|
                    0 <= i < self.dsps@.len() && (#[trigger] self.dsps@[i]).raw == raw,
            )
        } else {
            None
        }
    }

    /// With distinct DSP handles, any slot holding the handle determines
    /// the lookup.
    pub proof fn lemma_dsp_at(self, raw: usize, i: int)
        requires
            self.wf(),
            0 <= i < self.dsps@.len(),
            self.dsps@[i].raw == raw,
        ensures
            self.spec_find_dsp(raw) == Some(i),
    {
        let j = choose|j: int|
            0 <= j < self.dsps@.len() && (#[trigger] self.dsps@[j]).raw == raw;
        if i < j {
            assert(self.dsps@[i].raw != self.dsps@[j].raw);
        } else if j < i {
            assert(self.dsps@[j].raw != self.dsps@[i].raw);
        }
    }

    /// Finds the position of the DSP unit holding a handle value.
    pub fn find_dsp(&self, raw: usize) -> (r: Option<usize>)
        requires
            self.wf(),
        ensures
            r is Some ==> self.spec_find_dsp(raw) == Some(r->0 as int) && 0 <= r->0
                < self.dsps@.len() && self.dsps@[r->0 as int].raw == raw,
            r is None ==> self.spec_find_dsp(raw) is None,
    {
        let mut i: usize = 0;
        while i < self.dsps.len()
            invariant
                self.wf(),
                i <= self.dsps@.len(),
                forall|j: int| 0 <= j < i ==> (#[trigger] self.dsps@[j]).raw != raw,
            decreases self.dsps@.len() - i,
        {
            if self.dsps[i].raw == raw {
                proof {
                    self.lemma_dsp_at(raw, i as int);
                }
                return Some(i);
            }
            i = i + 1;
        }
        None
    }

    /// The bank and event positions an event handle resolves to, when it
    /// belongs to some bank's event range.
    pub open spec fn spec_find_event(self, raw: usize) -> Option<(int, int)> {
        if exists|i: int| 0 <= i < self.banks@.len() && (#[trigger] self.banks@[i]).holds_event(
            raw,
        ) {
            let i = choose|i: int|
                0 <= i < self.banks@.len() && (#[trigger] self.banks@[i]).holds_event(raw);
            Some((i, raw - self.banks@[i].event_base))
        } else {
            None
        }
    }

    /// With disjoint event ranges, any bank whose range holds the handle
    /// determines the lookup.
    pub proof fn lemma_event_at(self, raw: usize, i: int)
        requires
            self.wf(),
            0 <= i < self.banks@.len(),
            self.banks@[i].holds_event(raw),
        ensures
            self.spec_find_event(raw) == Some((i, raw - self.banks@[i].event_base)),
    {
        let j = choose|j: int|
            0 <= j < self.banks@.len() && (#[trigger] self.banks@[j]).holds_event(raw);
        if i != j {
            assert(self.banks@[i].filled && self.banks@[j].filled);
        }
    }

    /// Finds the bank and event positions an event handle resolves to.
    pub fn find_event(&self, raw: usize) -> (r: Option<(usize, usize)>)
        requires
            self.wf(),
        ensures
            r is Some ==> {
                let (b, e) = r->0;
                &&& self.spec_find_event(raw) == Some((b as int, e as int))
                &&& 0 <= b < self.banks@.len()
                &&& self.banks@[b as int].filled
                &&& 0 <= e < self.banks@[b as int].n_events
                &&& raw == self.banks@[b as int].event_base + e
            },
            r is None ==> self.spec_find_event(raw) is None,
    {
        let mut i: usize = 0;
        while i < self.banks.len()
            invariant
                self.wf(),
                i <= self.banks@.len(),
                forall|j: int| 0 <= j < i ==> !(#[trigger] self.banks@[j]).holds_event(raw),
            decreases self.banks@.len() - i,
        {
            let slot = &self.banks[i];
            if slot.filled {
                let base = slot.event_base;
                let count = slot.n_events;
                if base <= raw && raw - base < count {
                    proof {
                        assert(self.banks@[i as int].holds_event(raw));
                        self.lemma_event_at(raw, i as int);
                    }
                    return Some((i, raw - base));
                }
            }
            proof {
                assert(!self.banks@[i as int].holds_event(raw));
            }
            i = i + 1;
        }
        None
    }

    /// Checks that a parameter fits the ABI.
    pub fn check_param(p: &ParamData) -> (r: bool)
        ensures
            r == param_wf(*p),
    {
        p.labels.len() <= COUNT_CAP
    }

    /// Checks that an event and its parameters fit the ABI.
    pub fn check_event(e: &EventData) -> (r: bool)
        ensures
            r == event_wf(*e),
    {
        if e.length_ms < 0 || e.params.len() > COUNT_CAP {
            return false;
        }
        let mut i: usize = 0;
        while i < e.params.len()
            invariant
                i <= e.params@.len(),
                e.length_ms >= 0,
                e.params@.len() <= COUNT_CAP,
                forall|j: int| 0 <= j < i ==> param_wf(#[trigger] e.params@[j]),
            decreases e.params@.len() - i,
        {
            if !Studio::check_param(&e.params[i]) {
                return false;
            }
            i = i + 1;
        }
        true
    }

    /// Checks that a bank's content fits the ABI.
    pub fn check_bank_data(d: &BankData) -> (r: bool)
        ensures
            r == bank_data_wf(*d),
    {
        if d.events.len() > COUNT_CAP || d.buses.len() > COUNT_CAP || d.vcas.len() > COUNT_CAP
            || d.strings.len() > COUNT_CAP {
            return false;
        }
        let mut i: usize = 0;
        while i < d.events.len()
            invariant
                i <= d.events@.len(),
                d.events@.len() <= COUNT_CAP,
                d.buses@.len() <= COUNT_CAP,
                d.vcas@.len() <= COUNT_CAP,
                d.strings@.len() <= COUNT_CAP,
                forall|j: int| 0 <= j < i ==> event_wf(#[trigger] d.events@[j]),
            decreases d.events@.len() - i,
        {
            if !Studio::check_event(&d.events[i]) {
                return false;
            }
            i = i + 1;
        }
        true
    }

    /// Checks that a bank's event identifiers are pairwise distinct.
    pub fn check_events_unique(v: &Vec<EventData>) -> (r: bool)
        ensures
            r == (forall|i: int, j: int|
                0 <= i < j < v@.len() ==> (#[trigger] v@[i]).id != (#[trigger] v@[j]).id),
    {
        let mut i: usize = 0;
        while i < v.len()
            invariant
                i <= v@.len(),
                forall|i2: int, j2: int|
                    0 <= i2 < i && i2 < j2 < v@.len() ==> (#[trigger] v@[i2]).id != (
                    #[trigger] v@[j2]).id,
            decreases v@.len() - i,
        {
            let mut j: usize = i + 1;
            while j < v.len()
                invariant
                    i < j <= v@.len() || (i + 1 == j && j > v@.len()),
                    i < v@.len(),
                    forall|j2: int| i < j2 < j ==> (#[trigger] v@[j2]).id != v@[i as int].id,
                decreases v@.len() - j,
            {
                if v[j].id == v[i].id {
                    return false;
                }
                j = j + 1;
            }
            i = i + 1;
        }
        true
    }

    /// Checks that a bank's string-table paths are pairwise distinct.
    pub fn check_paths_unique(v: &Vec<StringEntry>) -> (r: bool)
        ensures
            r == (forall|i: int, j: int|
                0 <= i < j < v@.len() ==> (#[trigger] v@[i]).path@ != (
                #[trigger] v@[j]).path@),
    {
        let mut i: usize = 0;
        while i < v.len()
            invariant
                i <= v@.len(),
                forall|i2: int, j2: int|
                    0 <= i2 < i && i2 < j2 < v@.len() ==> (#[trigger] v@[i2]).path@ != (
                    #[trigger] v@[j2]).path@,
            decreases v@.len() - i,
        {
            let mut j: usize = i + 1;
            while j < v.len()
                invariant
                    i < j <= v@.len() || (i + 1 == j && j > v@.len()),
                    i < v@.len(),
                    forall|j2: int|
                        i < j2 < j ==> (#[trigger] v@[j2]).path@ != v@[i as int].path@,
                decreases v@.len() - j,
            {
                if crate::text::str_eq_string(v[i].path.as_str(), &v[j].path) {
                    return false;
                }
                j = j + 1;
            }
            i = i + 1;
        }
        true
    }

    /// Whether any authored bank holds an event with this identifier.
    fn authored_has_event_id(&self, g: Guid) -> (r: bool)
        ensures
            r == (exists|a: int, e: int|
                0 <= a < self.authored@.len() && 0 <= e < self.authored@[a].events@.len()
                    && (#[trigger] self.authored@[a].events@[e]).id == g),
    {
        let mut a: usize = 0;
        while a < self.authored.len()
            invariant
                a <= self.authored@.len(),
                forall|a2: int, e2: int|
                    0 <= a2 < a && 0 <= e2 < self.authored@[a2].events@.len() ==> (
                    #[trigger] self.authored@[a2].events@[e2]).id != g,
            decreases self.authored@.len() - a,
        {
            let events = &self.authored[a].events;
            let mut e: usize = 0;
            while e < events.len()
                invariant
                    a < self.authored@.len(),
                    events == &self.authored@[a as int].events,
                    e <= events@.len(),
                    forall|e2: int| 0 <= e2 < e ==> (#[trigger] events@[e2]).id != g,
                decreases events@.len() - e,
            {
                if events[e].id == g {
                    return true;
                }
                e = e + 1;
            }
            a = a + 1;
        }
        false
    }

    /// Whether any authored bank's string table holds this path.
    fn authored_has_path(&self, path: &String) -> (r: bool)
        ensures
            r == (exists|a: int, k: int|
                0 <= a < self.authored@.len() && 0 <= k < self.authored@[a].strings@.len()
                    && (#[trigger] self.authored@[a].strings@[k]).path@ == path@),
    {
        let mut a: usize = 0;
        while a < self.authored.len()
            invariant
                a <= self.authored@.len(),
                forall|a2: int, k2: int|
                    0 <= a2 < a && 0 <= k2 < self.authored@[a2].strings@.len() ==> (
                    #[trigger] self.authored@[a2].strings@[k2]).path@ != path@,
            decreases self.authored@.len() - a,
        {
            let strings = &self.authored[a].strings;
            let mut k: usize = 0;
            while k < strings.len()
                invariant
                    a < self.authored@.len(),
                    strings == &self.authored@[a as int].strings,
                    k <= strings@.len(),
                    forall|k2: int| 0 <= k2 < k ==> (#[trigger] strings@[k2]).path@ != path@,
                decreases strings@.len() - k,
            {
                if crate::text::str_eq_string(path.as_str(), &strings[k].path) {
                    return true;
                }
                k = k + 1;
            }
            a = a + 1;
        }
        false
    }

    /// Whether new content reuses an event identifier or string path
    /// already authored: authored identifiers denote one object each.
    pub open spec fn spec_guid_conflict(self, d: BankData) -> bool {
        ||| exists|a: int, e: int, i: int|
            0 <= a < self.authored@.len() && 0 <= e < self.authored@[a].events@.len() && 0
                <= i < d.events@.len() && (#[trigger] self.authored@[a].events@[e]).id == (
            #[trigger] d.events@[i]).id
        ||| exists|a: int, k: int, i: int|
            0 <= a < self.authored@.len() && 0 <= k < self.authored@[a].strings@.len() && 0
                <= i < d.strings@.len() && (#[trigger] self.authored@[a].strings@[
            k]).path@ == (#[trigger] d.strings@[i]).path@
    }

    /// Scans the authored banks for reused event identifiers or paths.
    fn guid_conflicts(&self, d: &BankData) -> (r: bool)
        ensures
            r == self.spec_guid_conflict(*d),
    {
        let mut i: usize = 0;
        while i < d.events.len()
            invariant
                i <= d.events@.len(),
                forall|a: int, e: int, i2: int|
                    0 <= a < self.authored@.len() && 0 <= e < self.authored@[
                        a].events@.len() && 0 <= i2 < i ==> (#[trigger] self.authored@[
                        a].events@[e]).id != (#[trigger] d.events@[i2]).id,
            decreases d.events@.len() - i,
        {
            if self.authored_has_event_id(d.events[i].id) {
                return true;
            }
            i = i + 1;
        }
        let mut k: usize = 0;
        while k < d.strings.len()
            invariant
                k <= d.strings@.len(),
                forall|a: int, e: int, i2: int|
                    0 <= a < self.authored@.len() && 0 <= e < self.authored@[
                        a].events@.len() && 0 <= i2 < d.events@.len() ==> (
                    #[trigger] self.authored@[a].events@[e]).id != (#[trigger] d.events@[
                        i2]).id,
                forall|a: int, k2: int, i2: int|
                    0 <= a < self.authored@.len() && 0 <= k2 < self.authored@[
                        a].strings@.len() && 0 <= i2 < k ==> (#[trigger] self.authored@[
                        a].strings@[k2]).path@ != (#[trigger] d.strings@[i2]).path@,
            decreases d.strings@.len() - k,
        {
            if self.authored_has_path(&d.strings[k].path) {
                return true;
            }
            k = k + 1;
        }
        false
    }

    /// Whether newly authored content collides with the existing asset
    /// namespace: an identifier, filename or image already authored.
    pub open spec fn spec_authored_conflict(self, data: BankData) -> bool {
        exists|i: int|
            0 <= i < self.authored@.len() && ((#[trigger] self.authored@[i]).id == data.id
                || self.authored@[i].filename@ == data.filename@ || self.authored@[i].image@
                == data.image@)
    }

    /// Scans the authored banks for a collision with new content.
    fn authored_conflicts(&self, data: &BankData) -> (r: bool)
        ensures
            r == self.spec_authored_conflict(*data),
    {
        let mut i: usize = 0;
        while i < self.authored.len()
            invariant
                i <= self.authored@.len(),
                forall|j: int|
                    0 <= j < i ==> !((#[trigger] self.authored@[j]).id == data.id
                        || self.authored@[j].filename@ == data.filename@ && true
                        || self.authored@[j].image@ == data.image@),
            decreases self.authored@.len() - i,
        {
            let a = &self.authored[i];
            if a.id == data.id || crate::text::str_eq_string(data.filename.as_str(), &a.filename)
                || bytes_eq(&a.image, &data.image) {
                return true;
            }
            i = i + 1;
        }
        false
    }

    /// Checks that every string-table path is representable as a C string.
    pub fn check_paths_representable(v: &Vec<StringEntry>) -> (r: bool)
        ensures
            r == (forall|k: int|
                0 <= k < v@.len() ==> crate::text::c_representable(
                    (#[trigger] v@[k]).path@,
                )),
    {
        let mut k: usize = 0;
        while k < v.len()
            invariant
                k <= v@.len(),
                forall|k2: int|
                    0 <= k2 < k ==> crate::text::c_representable(
                        (#[trigger] v@[k2]).path@,
                    ),
            decreases v@.len() - k,
        {
            if crate::text::marshal_out(v[k].path.as_str()).is_err() {
                return false;
            }
            k = k + 1;
        }
        true
    }

    /// Registers authored content the engine can later load: the asset
    /// universe behind the load calls.
    ///
    /// Succeeds exactly when the content fits the ABI, its identifier,
    /// filename and image differ from everything authored before, and its
    /// event identifiers and string paths are new and pairwise distinct:
    /// the engine's asset namespace holds each only once.
    pub fn author_bank(&mut self, data: BankData) -> (r: Result<(), FmodError>)
        requires
            old(self).wf(),
        ensures
            final(self).wf(),
            r is Ok ==> *final(self) == (Studio {
                authored: final(self).authored,
                ..*old(self)
            }) && final(self).authored@ == old(self).authored@.push(data) && bank_data_wf(
                data,
            ),
            r is Err ==> *final(self) == *old(self) && r->Err_0.code
                == crate::error::FMOD_ERR_INVALID_PARAM,
            r is Ok <==> bank_data_wf(data) && !old(self).spec_authored_conflict(data)
                && bank_data_unique(data) && bank_paths_representable(data) && !old(
                self,
            ).spec_guid_conflict(data),
    {
        if !Studio::check_bank_data(&data) {
            return Err(FmodError { code: crate::error::FMOD_ERR_INVALID_PARAM });
        }
        if self.authored_conflicts(&data) {
            return Err(FmodError { code: crate::error::FMOD_ERR_INVALID_PARAM });
        }
        if !Studio::check_events_unique(&data.events) || !Studio::check_paths_unique(
            &data.strings,
        ) || !Studio::check_paths_representable(&data.strings) {
            return Err(FmodError { code: crate::error::FMOD_ERR_INVALID_PARAM });
        }
        if self.guid_conflicts(&data) {
            return Err(FmodError { code: crate::error::FMOD_ERR_INVALID_PARAM });
        }
        let ghost pre = *self;
        self.authored.push(data);
        proof {
            let n = pre.authored@.len() as int;
            assert forall|i: int, j: int|
                0 <= i < j < self.authored@.len() implies (#[trigger] self.authored@[i]).id
                != (#[trigger] self.authored@[j]).id && self.authored@[i].filename@
                != self.authored@[j].filename@ && self.authored@[i].image@ != self.authored@[
                j].image@ by {
                if j < n {
                    assert(pre.authored@[i].id != pre.authored@[j].id);
                } else {
                    assert(!(pre.authored@[i].id == data.id || pre.authored@[i].filename@
                        == data.filename@ || pre.authored@[i].image@ == data.image@));
                }
            }
            assert forall|a1: int, e1: int, a2: int, e2: int|
                0 <= a1 < self.authored@.len() && 0 <= e1 < self.authored@[
                    a1].events@.len() && 0 <= a2 < self.authored@.len() && 0 <= e2
                < self.authored@[a2].events@.len() && (a1 != a2 || e1 != e2) implies (
            #[trigger] self.authored@[a1].events@[e1]).id != (#[trigger] self.authored@[
                a2].events@[e2]).id by {
                if a1 < n && a2 < n {
                    assert(pre.authored@[a1].events@[e1].id != pre.authored@[a2].events@[
                        e2].id);
                } else if a1 == n && a2 == n {
                    if e1 < e2 {
                        assert(data.events@[e1].id != data.events@[e2].id);
                    } else {
                        assert(data.events@[e2].id != data.events@[e1].id);
                    }
                } else if a1 == n {
                    assert(pre.authored@[a2].events@[e2].id != data.events@[e1].id);
                } else {
                    assert(pre.authored@[a1].events@[e1].id != data.events@[e2].id);
                }
            }
            assert forall|a: int, k: int|
                0 <= a < self.authored@.len() && 0 <= k < self.authored@[
                    a].strings@.len() implies crate::text::c_representable(
                (#[trigger] self.authored@[a].strings@[k]).path@,
            ) by {
                if a < n {
                    assert(crate::text::c_representable(
                        pre.authored@[a].strings@[k].path@,
                    ));
                } else {
                    assert(crate::text::c_representable(data.strings@[k].path@));
                }
            }
            assert forall|a1: int, k1: int, a2: int, k2: int|
                0 <= a1 < self.authored@.len() && 0 <= k1 < self.authored@[
                    a1].strings@.len() && 0 <= a2 < self.authored@.len() && 0 <= k2
                < self.authored@[a2].strings@.len() && (a1 != a2 || k1 != k2) implies (
            #[trigger] self.authored@[a1].strings@[k1]).path@ != (
            #[trigger] self.authored@[a2].strings@[k2]).path@ by {
                if a1 < n && a2 < n {
                    assert(pre.authored@[a1].strings@[k1].path@ != pre.authored@[
                        a2].strings@[k2].path@);
                } else if a1 == n && a2 == n {
                    if k1 < k2 {
                        assert(data.strings@[k1].path@ != data.strings@[k2].path@);
                    } else {
                        assert(data.strings@[k2].path@ != data.strings@[k1].path@);
                    }
                } else if a1 == n {
                    assert(pre.authored@[a2].strings@[k2].path@ != data.strings@[k1].path@);
                } else {
                    assert(pre.authored@[a1].strings@[k1].path@ != data.strings@[k2].path@);
                }
            }
            assert(self.wf());
        }
        Ok(())
    }

    /// Whether a new global parameter collides with one already authored.
    pub open spec fn spec_param_conflict(self, p: ParamData) -> bool {
        exists|i: int|
            0 <= i < self.global_params@.len() && (#[trigger] self.global_params@[i]).name@
                == p.name@
    }

    /// Scans the authored global parameters for a name collision.
    fn param_conflicts(&self, p: &ParamData) -> (r: bool)
        ensures
            r == self.spec_param_conflict(*p),
    {
        let mut i: usize = 0;
        while i < self.global_params.len()
            invariant
                i <= self.global_params@.len(),
                forall|j: int|
                    0 <= j < i ==> (#[trigger] self.global_params@[j]).name@ != p.name@,
            decreases self.global_params@.len() - i,
        {
            if crate::text::str_eq_string(p.name.as_str(), &self.global_params[i].name) {
                return true;
            }
            i = i + 1;
        }
        false
    }

    /// Registers an authored global parameter the engine knows.
    ///
    /// Succeeds exactly when the parameter fits the ABI, the parameter list
    /// is not at the ABI's cap, and the name differs from every global
    /// parameter authored before.
    pub fn author_global_param(&mut self, p: ParamData) -> (r: Result<(), FmodError>)
        requires
            old(self).wf(),
        ensures
            final(self).wf(),
            r is Ok ==> *final(self) == (Studio {
                global_params: final(self).global_params,
                ..*old(self)
            }) && final(self).global_params@ == old(self).global_params@.push(p),
            r is Err ==> *final(self) == *old(self) && r->Err_0.code
                == crate::error::FMOD_ERR_INVALID_PARAM,
            r is Ok <==> param_wf(p) && old(self).global_params@.len() < COUNT_CAP && !old(
                self,
            ).spec_param_conflict(p),
    {
        if !Studio::check_param(&p) || self.global_params.len() >= COUNT_CAP {
            return Err(FmodError { code: crate::error::FMOD_ERR_INVALID_PARAM });
        }
        if self.param_conflicts(&p) {
            return Err(FmodError { code: crate::error::FMOD_ERR_INVALID_PARAM });
        }
        let ghost pre = *self;
        self.global_params.push(p);
        proof {
            assert forall|i: int|
                0 <= i < self.global_params@.len() implies param_wf(
                #[trigger] self.global_params@[i],
            ) by {
                if i < pre.global_params@.len() {
                    assert(param_wf(pre.global_params@[i]));
                }
            }
            assert(self.wf());
        }
        Ok(())
    }

    /// The position of the authored bank whose image equals the given
    /// bytes, when one exists; authored images are unique.
    pub open spec fn spec_find_image(self, img: Seq<u8>) -> Option<int> {
        if exists|i: int|
            0 <= i < self.authored@.len() && (#[trigger] self.authored@[i]).image@ == img {
            Some(
                choose|i: int|
                    0 <= i < self.authored@.len() && (#[trigger] self.authored@[i]).image@
                        == img,
            )
        } else {
            None
        }
    }

    /// With unique authored images, any position holding the image
    /// determines the lookup.
    pub proof fn lemma_image_at(self, img: Seq<u8>, i: int)
        requires
            self.wf(),
            0 <= i < self.authored@.len(),
            self.authored@[i].image@ == img,
        ensures
            self.spec_find_image(img) == Some(i),
    {
        let j = choose|j: int|
            0 <= j < self.authored@.len() && (#[trigger] self.authored@[j]).image@ == img;
        if i < j {
            assert(self.authored@[i].image@ != self.authored@[j].image@);
        } else if j < i {
            assert(self.authored@[j].image@ != self.authored@[i].image@);
        }
    }

    /// Finds the authored bank whose image equals the given bytes.
    pub fn find_image(&self, img: &Vec<u8>) -> (r: Option<usize>)
        requires
            self.wf(),
        ensures
            r is Some ==> self.spec_find_image(img@) == Some(r->0 as int) && 0 <= r->0
                < self.authored@.len() && self.authored@[r->0 as int].image@ == img@,
            r is None ==> self.spec_find_image(img@) is None,
    {
        let mut i: usize = 0;
        while i < self.authored.len()
            invariant
                self.wf(),
                i <= self.authored@.len(),
                forall|j: int| 0 <= j < i ==> (#[trigger] self.authored@[j]).image@ != img@,
            decreases self.authored@.len() - i,
        {
            if bytes_eq(&self.authored[i].image, img) {
                proof {
                    self.lemma_image_at(img@, i as int);
                }
                return Some(i);
            }
            i = i + 1;
        }
        None
    }

    /// The position of the authored bank with the given filename, when one
    /// exists; authored filenames are unique.
    pub open spec fn spec_find_filename(self, name: Seq<char>) -> Option<int> {
        if exists|i: int|
            0 <= i < self.authored@.len() && (#[trigger] self.authored@[i]).filename@
                == name {
            Some(
                choose|i: int|
                    0 <= i < self.authored@.len() && (#[trigger] self.authored@[i]).filename@
                        == name,
            )
        } else {
            None
        }
    }

    /// With unique authored filenames, any position holding the filename
    /// determines the lookup.
    pub proof fn lemma_filename_at(self, name: Seq<char>, i: int)
        requires
            self.wf(),
            0 <= i < self.authored@.len(),
            self.authored@[i].filename@ == name,
        ensures
            self.spec_find_filename(name) == Some(i),
    {
        let j = choose|j: int|
            0 <= j < self.authored@.len() && (#[trigger] self.authored@[j]).filename@ == name;
        if i < j {
            assert(self.authored@[i].filename@ != self.authored@[j].filename@);
        } else if j < i {
            assert(self.authored@[j].filename@ != self.authored@[i].filename@);
        }
    }

    /// Finds the authored bank with the given filename.
    pub fn find_filename(&self, name: &str) -> (r: Option<usize>)
        requires
            self.wf(),
        ensures
            r is Some ==> self.spec_find_filename(name@) == Some(r->0 as int) && 0 <= r->0
                < self.authored@.len() && self.authored@[r->0 as int].filename@ == name@,
            r is None ==> self.spec_find_filename(name@) is None,
    {
        let mut i: usize = 0;
        while i < self.authored.len()
            invariant
                self.wf(),
                i <= self.authored@.len(),
                forall|j: int|
                    0 <= j < i ==> (#[trigger] self.authored@[j]).filename@ != name@,
            decreases self.authored@.len() - i,
        {
            if crate::text::str_eq_string(name, &self.authored[i].filename) {
                proof {
                    self.lemma_filename_at(name@, i as int);
                }
                return Some(i);
            }
            i = i + 1;
        }
        None
    }

    /// Whether some bank slot already carries the authored content at a
    /// position.
    pub open spec fn spec_content_loaded(self, a: int) -> bool {
        exists|i: int|
            0 <= i < self.banks@.len() && (#[trigger] self.banks@[i]).filled && self.banks@[
                i].data_idx == a
    }

    /// Checks whether some bank slot already carries the authored content.
    pub fn content_loaded(&self, a: usize) -> (r: bool)
        ensures
            r == self.spec_content_loaded(a as int),
    {
        let mut i: usize = 0;
        while i < self.banks.len()
            invariant
                i <= self.banks@.len(),
                forall|j: int|
                    0 <= j < i ==> !((#[trigger] self.banks@[j]).filled && self.banks@[
                    j].data_idx == a),
            decreases self.banks@.len() - i,
        {
            let s = &self.banks[i];
            if s.filled && s.data_idx == a {
                return true;
            }
            i = i + 1;
        }
        false
    }

    /// Installs a bank slot for authored content, drawing fresh handles for
    /// the bank and for its buses, VCAs and events.
    ///
    /// The slot starts in the loading phase when the load is asynchronous,
    /// else directly in the loaded phase. Fails only when the handle space
    /// is exhausted.
    pub fn install_loaded_bank(&mut self, a: usize, loading: bool) -> (r: Result<usize, FmodError>)
        requires
            old(self).wf(),
            a < old(self).authored@.len(),
            old(self).banks@.len() < COUNT_CAP,
            !old(self).spec_content_loaded(a as int),
        ensures
            final(self).wf(),
            r is Err ==> *final(self) == *old(self) && r->Err_0.code
                == crate::error::FMOD_ERR_MEMORY,
            r is Ok ==> {
                let s = final(self).banks@.last();
                &&& *final(self) == (Studio {
                    banks: final(self).banks,
                    next_raw: final(self).next_raw,
                    ..*old(self)
                })
                &&& final(self).banks@.len() == old(self).banks@.len() + 1
                &&& forall|i: int|
                    0 <= i < old(self).banks@.len() ==> final(self).banks@[i] == old(
                        self,
                    ).banks@[i]
                &&& s.raw == r->Ok_0
                &&& r->Ok_0 == old(self).next_raw
                &&& s.data_idx == a
                &&& s.filled
                &&& s.pending_error is None
                &&& s.phase == (if loading {
                    LoadingState::Loading
                } else {
                    LoadingState::Loaded
                })
                &&& s.sample == SampleLoad::spec_idle()
                &&& forall|e: int|
                    0 <= e < s.events_state@.len() ==> (#[trigger] s.events_state@[
                    e]).instances@.len() == 0 && s.events_state@[e].sample
                        == SampleLoad::spec_idle()
                &&& final(self).next_raw > old(self).next_raw
            },
    {
        let nb = self.authored[a].buses.len();
        let nv = self.authored[a].vcas.len();
        let ne = self.authored[a].events.len();
        let need: u128 = 1u128 + (nb as u128) + (nv as u128) + (ne as u128);
        if (self.next_raw as u128) + need > (usize::MAX as u128) {
            return Err(FmodError { code: crate::error::FMOD_ERR_MEMORY });
        }
        let raw = self.next_raw;
        let bus_base = raw + 1;
        let vca_base = bus_base + nb;
        let event_base = vca_base + nv;
        let new_next = event_base + ne;
        let mut events_state: Vec<EventSlot> = Vec::new();
        let mut e: usize = 0;
        while e < ne
            invariant
                e <= ne,
                events_state@.len() == e,
                forall|j: int|
                    0 <= j < e ==> (#[trigger] events_state@[j]).instances@.len() == 0
                        && events_state@[j].sample == SampleLoad::spec_idle(),
            decreases ne - e,
        {
            events_state.push(EventSlot { instances: Vec::new(), sample: SampleLoad::idle() });
            e = e + 1;
        }
        let slot = BankSlot {
            raw,
            data_idx: a,
            n_buses: nb,
            n_vcas: nv,
            n_events: ne,
            phase: if loading {
                LoadingState::Loading
            } else {
                LoadingState::Loaded
            },
            pending_error: None,
            filled: true,
            bus_base,
            vca_base,
            event_base,
            events_state,
            sample: SampleLoad::idle(),
        };
        let ghost pre = *self;
        self.banks.push(slot);
        self.next_raw = new_next;
        proof {
            let n = self.banks@.len() - 1;
            assert forall|i: int, j: int|
                0 <= i < j < self.banks@.len() implies (#[trigger] self.banks@[i]).raw != (
            #[trigger] self.banks@[j]).raw by {
                if j < n {
                    assert(pre.banks@[i].raw != pre.banks@[j].raw);
                } else {
                    assert(pre.banks@[i].wf(pre.next_raw));
                }
            }
            assert forall|i: int, j: int|
                0 <= i < j < self.banks@.len() && (#[trigger] self.banks@[i]).filled && (
            #[trigger] self.banks@[j]).filled implies self.banks@[i].data_idx != self.banks@[
                j].data_idx by {
                if j < n {
                    assert(pre.banks@[i].filled && pre.banks@[j].filled ==> pre.banks@[
                        i].data_idx != pre.banks@[j].data_idx);
                } else {
                    assert(!pre.spec_content_loaded(a as int));
                    assert(pre.banks@[i].filled && pre.banks@[i].data_idx == a
                        ==> pre.spec_content_loaded(a as int));
                }
            }
            assert forall|i: int|
                0 <= i < self.banks@.len() implies (#[trigger] self.banks@[i]).wf(
                self.next_raw,
            ) by {
                if i < n {
                    assert(pre.banks@[i].wf(pre.next_raw));
                }
            }
            assert forall|i: int, j: int|
                0 <= i < self.banks@.len() && 0 <= j < self.banks@.len() && i != j && (
            #[trigger] self.banks@[i]).filled && (#[trigger] self.banks@[j]).filled implies (
            self.banks@[i].event_base + self.banks@[i].n_events <= self.banks@[j].event_base
                || self.banks@[j].event_base + self.banks@[j].n_events <= self.banks@[
                i].event_base) by {
                if i < n && j < n {
                    assert(pre.banks@[i].filled && pre.banks@[j].filled ==> (pre.banks@[
                        i].event_base + pre.banks@[i].n_events <= pre.banks@[j].event_base
                        || pre.banks@[j].event_base + pre.banks@[j].n_events <= pre.banks@[
                        i].event_base));
                } else if i < n {
                    assert(pre.banks@[i].wf(pre.next_raw));
                } else {
                    assert(pre.banks@[j].wf(pre.next_raw));
                }
            }
            assert(self.wf());
        }
        Ok(raw)
    }

    /// Installs a bank slot for an asynchronous load the engine will fail:
    /// the handle is valid, the content never arrives, and polling will
    /// observe the error once the scheduler runs.
    pub fn install_failed_bank(&mut self, e: FmodError) -> (r: Result<usize, FmodError>)
        requires
            old(self).wf(),
            old(self).banks@.len() < COUNT_CAP,
            e.code != crate::error::FMOD_OK,
        ensures
            final(self).wf(),
            r is Err ==> *final(self) == *old(self) && r->Err_0.code
                == crate::error::FMOD_ERR_MEMORY,
            r is Ok ==> {
                let s = final(self).banks@.last();
                &&& *final(self) == (Studio {
                    banks: final(self).banks,
                    next_raw: final(self).next_raw,
                    ..*old(self)
                })
                &&& final(self).banks@.len() == old(self).banks@.len() + 1
                &&& forall|i: int|
                    0 <= i < old(self).banks@.len() ==> final(self).banks@[i] == old(
                        self,
                    ).banks@[i]
                &&& s.raw == r->Ok_0
                &&& r->Ok_0 == old(self).next_raw
                &&& !s.filled
                &&& s.phase == LoadingState::Loading
                &&& s.pending_error == Some(e)
                &&& s.sample == SampleLoad::spec_idle()
                &&& s.events_state@.len() == 0
                &&& final(self).next_raw > old(self).next_raw
            },
    {
        if self.next_raw == usize::MAX {
            return Err(FmodError { code: crate::error::FMOD_ERR_MEMORY });
        }
        let raw = self.next_raw;
        let slot = BankSlot {
            raw,
            data_idx: 0,
            n_buses: 0,
            n_vcas: 0,
            n_events: 0,
            phase: LoadingState::Loading,
            pending_error: Some(e),
            filled: false,
            bus_base: 0,
            vca_base: 0,
            event_base: 0,
            events_state: Vec::new(),
            sample: SampleLoad::idle(),
        };
        let ghost pre = *self;
        self.banks.push(slot);
        self.next_raw = self.next_raw + 1;
        proof {
            let n = self.banks@.len() - 1;
            assert forall|i: int, j: int|
                0 <= i < j < self.banks@.len() implies (#[trigger] self.banks@[i]).raw != (
            #[trigger] self.banks@[j]).raw by {
                if j < n {
                    assert(pre.banks@[i].raw != pre.banks@[j].raw);
                } else {
                    assert(pre.banks@[i].wf(pre.next_raw));
                }
            }
            assert forall|i: int|
                0 <= i < self.banks@.len() implies (#[trigger] self.banks@[i]).wf(
                self.next_raw,
            ) by {
                if i < n {
                    assert(pre.banks@[i].wf(pre.next_raw));
                }
            }
            assert(self.wf());
        }
        Ok(raw)
    }

    /// Whether string-table position (b, k) is readable: its bank is loaded
    /// and holds that entry.
    pub open spec fn string_at(self, b: int, k: int) -> bool {
        &&& 0 <= b < self.banks@.len()
        &&& self.banks@[b].phase is Loaded
        &&& self.banks@[b].filled
        &&& 0 <= k < self.authored@[self.banks@[b].data_idx as int].strings@.len()
    }

    /// The string-table entry at a readable position.
    pub open spec fn string_entry(self, b: int, k: int) -> StringEntry {
        self.authored@[self.banks@[b].data_idx as int].strings@[k]
    }

    /// Whether some loaded string table maps this path to this identifier.
    pub open spec fn path_maps(self, path: Seq<char>, g: Guid) -> bool {
        exists|b: int, k: int|
            #[trigger] self.string_at(b, k) && self.string_entry(b, k).path@ == path
                && self.string_entry(b, k).id == g
    }

    /// Whether any loaded string table holds this path at all.
    pub open spec fn path_found(self, path: Seq<char>) -> bool {
        exists|b: int, k: int|
            #[trigger] self.string_at(b, k) && self.string_entry(b, k).path@ == path
    }

    /// A path names at most one identifier: authored string paths are
    /// pairwise distinct, so two loaded entries holding the same path are
    /// the same entry.
    pub proof fn lemma_path_maps_functional(self, path: Seq<char>, g1: Guid, g2: Guid)
        requires
            self.wf(),
            self.path_maps(path, g1),
            self.path_maps(path, g2),
        ensures
            g1 == g2,
    {
        let (b1, k1) = choose|b: int, k: int|
            #[trigger] self.string_at(b, k) && self.string_entry(b, k).path@ == path
                && self.string_entry(b, k).id == g1;
        let (b2, k2) = choose|b: int, k: int|
            #[trigger] self.string_at(b, k) && self.string_entry(b, k).path@ == path
                && self.string_entry(b, k).id == g2;
        assert(self.banks@[b1].wf(self.next_raw));
        assert(self.banks@[b2].wf(self.next_raw));
        let a1 = self.banks@[b1].data_idx as int;
        let a2 = self.banks@[b2].data_idx as int;
        if a1 != a2 || k1 != k2 {
            assert(self.authored@[a1].strings@[k1].path@ != self.authored@[a2].strings@[
                k2].path@);
        }
    }

    /// Whether any loaded string table holds this identifier at all.
    pub open spec fn id_found(self, g: Guid) -> bool {
        exists|b: int, k: int|
            #[trigger] self.string_at(b, k) && self.string_entry(b, k).id == g
    }

    /// Looks a path up in the loaded string tables, yielding the identifier
    /// it maps to, when any loaded table holds the path.
    pub fn lookup_guid(&self, path: &str) -> (r: Option<Guid>)
        requires
            self.wf(),
        ensures
            r is Some ==> self.path_maps(path@, r->0),
            r is None ==> !self.path_found(path@),
    {
        let mut b: usize = 0;
        while b < self.banks.len()
            invariant
                self.wf(),
                b <= self.banks@.len(),
                forall|bb: int, k: int|
                    #[trigger] self.string_at(bb, k) && bb < b ==> self.string_entry(
                        bb,
                        k,
                    ).path@ != path@,
            decreases self.banks@.len() - b,
        {
            let slot = &self.banks[b];
            if slot.filled && matches!(slot.phase, LoadingState::Loaded) {
                let strings = &self.authored[slot.data_idx].strings;
                let mut k: usize = 0;
                while k < strings.len()
                    invariant
                        self.wf(),
                        b < self.banks@.len(),
                        self.banks@[b as int].filled,
                        self.banks@[b as int].phase is Loaded,
                        strings == &self.authored@[self.banks@[b as int].data_idx as int].strings,
                        k <= strings@.len(),
                        forall|kk: int|
                            0 <= kk < k ==> (#[trigger] strings@[kk]).path@ != path@,
                    decreases strings@.len() - k,
                {
                    if crate::text::str_eq_string(path, &strings[k].path) {
                        let g = strings[k].id;
                        proof {
                            assert(self.string_at(b as int, k as int));
                        }
                        return Some(g);
                    }
                    k = k + 1;
                }
                proof {
                    assert forall|kk: int|
                        #[trigger] self.string_at(b as int, kk) implies self.string_entry(
                        b as int,
                        kk,
                    ).path@ != path@ by {
                        assert(strings@[kk].path@ != path@);
                    }
                }
            }
            proof {
                assert forall|kk: int|
                    #[trigger] self.string_at(b as int, kk) implies self.string_entry(
                    b as int,
                    kk,
                ).path@ != path@ by {}
            }
            b = b + 1;
        }
        None
    }

    /// Looks an identifier up in the loaded string tables, yielding a
    /// readable position holding it, when any loaded table does.
    pub fn find_string_by_id(&self, g: Guid) -> (r: Option<(usize, usize)>)
        requires
            self.wf(),
        ensures
            r is Some ==> self.string_at((r->0).0 as int, (r->0).1 as int) && self.string_entry(
                (r->0).0 as int,
                (r->0).1 as int,
            ).id == g,
            r is None ==> !self.id_found(g),
    {
        let mut b: usize = 0;
        while b < self.banks.len()
            invariant
                self.wf(),
                b <= self.banks@.len(),
                forall|bb: int, k: int|
                    #[trigger] self.string_at(bb, k) && bb < b ==> self.string_entry(
                        bb,
                        k,
                    ).id != g,
            decreases self.banks@.len() - b,
        {
            let slot = &self.banks[b];
            if slot.filled && matches!(slot.phase, LoadingState::Loaded) {
                let strings = &self.authored[slot.data_idx].strings;
                let mut k: usize = 0;
                while k < strings.len()
                    invariant
                        self.wf(),
                        b < self.banks@.len(),
                        self.banks@[b as int].filled,
                        self.banks@[b as int].phase is Loaded,
                        strings == &self.authored@[self.banks@[b as int].data_idx as int].strings,
                        k <= strings@.len(),
                        forall|kk: int| 0 <= kk < k ==> (#[trigger] strings@[kk]).id != g,
                    decreases strings@.len() - k,
                {
                    if strings[k].id == g {
                        proof {
                            assert(self.string_at(b as int, k as int));
                        }
                        return Some((b, k));
                    }
                    k = k + 1;
                }
                proof {
                    assert forall|kk: int|
                        #[trigger] self.string_at(b as int, kk) implies self.string_entry(
                        b as int,
                        kk,
                    ).id != g by {
                        assert(strings@[kk].id != g);
                    }
                }
            }
            proof {
                assert forall|kk: int|
                    #[trigger] self.string_at(b as int, kk) implies self.string_entry(
                    b as int,
                    kk,
                ).id != g by {}
            }
            b = b + 1;
        }
        None
    }

    /// Whether event position (b, e) is playable: its bank is loaded and
    /// holds that event.
    pub open spec fn event_at(self, b: int, e: int) -> bool {
        &&& 0 <= b < self.banks@.len()
        &&& self.banks@[b].phase is Loaded
        &&& self.banks@[b].filled
        &&& 0 <= e < self.banks@[b].n_events
    }

    /// The authored event at a playable position.
    pub open spec fn event_data(self, b: int, e: int) -> EventData {
        self.authored@[self.banks@[b].data_idx as int].events@[e]
    }

    /// Whether some loaded bank holds an event with this identifier.
    pub open spec fn event_id_found(self, g: Guid) -> bool {
        exists|b: int, e: int|
            #[trigger] self.event_at(b, e) && self.event_data(b, e).id == g
    }

    /// Looks an event up by identifier among the loaded banks.
    pub fn find_event_by_id(&self, g: Guid) -> (r: Option<(usize, usize)>)
        requires
            self.wf(),
        ensures
            r is Some ==> self.event_at((r->0).0 as int, (r->0).1 as int) && self.event_data(
                (r->0).0 as int,
                (r->0).1 as int,
            ).id == g,
            r is None ==> !self.event_id_found(g),
    {
        let mut b: usize = 0;
        while b < self.banks.len()
            invariant
                self.wf(),
                b <= self.banks@.len(),
                forall|bb: int, e: int|
                    #[trigger] self.event_at(bb, e) && bb < b ==> self.event_data(bb, e).id
                        != g,
            decreases self.banks@.len() - b,
        {
            let slot = &self.banks[b];
            if slot.filled && matches!(slot.phase, LoadingState::Loaded) {
                let events = &self.authored[slot.data_idx].events;
                let mut e: usize = 0;
                while e < events.len()
                    invariant
                        self.wf(),
                        b < self.banks@.len(),
                        self.banks@[b as int].filled,
                        self.banks@[b as int].phase is Loaded,
                        events == &self.authored@[self.banks@[b as int].data_idx as int].events,
                        events@.len() == self.banks@[b as int].n_events,
                        e <= events@.len(),
                        forall|ee: int| 0 <= ee < e ==> (#[trigger] events@[ee]).id != g,
                    decreases events@.len() - e,
                {
                    if events[e].id == g {
                        proof {
                            assert(self.event_at(b as int, e as int));
                        }
                        return Some((b, e));
                    }
                    e = e + 1;
                }
                proof {
                    assert forall|ee: int|
                        #[trigger] self.event_at(b as int, ee) implies self.event_data(
                        b as int,
                        ee,
                    ).id != g by {
                        assert(events@[ee].id != g);
                    }
                }
            }
            proof {
                assert forall|ee: int|
                    #[trigger] self.event_at(b as int, ee) implies self.event_data(
                    b as int,
                    ee,
                ).id != g by {}
            }
            b = b + 1;
        }
        None
    }

    /// Whether bank position b is a loaded bank with this identifier.
    pub open spec fn bank_id_at(self, b: int, g: Guid) -> bool {
        &&& 0 <= b < self.banks@.len()
        &&& self.banks@[b].phase is Loaded
        &&& self.banks@[b].filled
        &&& self.authored@[self.banks@[b].data_idx as int].id == g
    }

    /// Whether some loaded bank has this identifier.
    pub open spec fn bank_id_found(self, g: Guid) -> bool {
        exists|b: int| #[trigger] self.bank_id_at(b, g)
    }

    /// Looks a loaded bank up by identifier.
    pub fn find_bank_by_guid(&self, g: Guid) -> (r: Option<usize>)
        requires
            self.wf(),
        ensures
            r is Some ==> self.bank_id_at(r->0 as int, g),
            r is None ==> !self.bank_id_found(g),
    {
        let mut b: usize = 0;
        while b < self.banks.len()
            invariant
                self.wf(),
                b <= self.banks@.len(),
                forall|bb: int| 0 <= bb < b ==> !(#[trigger] self.bank_id_at(bb, g)),
            decreases self.banks@.len() - b,
        {
            let slot = &self.banks[b];
            if slot.filled && matches!(slot.phase, LoadingState::Loaded) && self.authored[
                slot.data_idx].id == g {
                proof {
                    assert(self.bank_id_at(b as int, g));
                }
                return Some(b);
            }
            proof {
                assert(!self.bank_id_at(b as int, g));
            }
            b = b + 1;
        }
        None
    }

    /// Whether global-parameter position p carries this name.
    pub open spec fn param_name_at(self, p: int, name: Seq<char>) -> bool {
        0 <= p < self.global_params@.len() && self.global_params@[p].name@ == name
    }

    /// Whether global-parameter position p carries this identifier.
    pub open spec fn param_id_at(self, p: int, id: ParameterID) -> bool {
        0 <= p < self.global_params@.len() && self.global_params@[p].id == id
    }

    /// Looks a global parameter up by name.
    pub fn find_param_by_name(&self, name: &str) -> (r: Option<usize>)
        requires
            self.wf(),
        ensures
            r is Some ==> self.param_name_at(r->0 as int, name@),
            r is None ==> !exists|p: int| #[trigger] self.param_name_at(p, name@),
    {
        let mut p: usize = 0;
        while p < self.global_params.len()
            invariant
                p <= self.global_params@.len(),
                forall|q: int| 0 <= q < p ==> !(#[trigger] self.param_name_at(q, name@)),
            decreases self.global_params@.len() - p,
        {
            if crate::text::str_eq_string(name, &self.global_params[p].name) {
                return Some(p);
            }
            proof {
                assert(!self.param_name_at(p as int, name@));
            }
            p = p + 1;
        }
        None
    }

    /// Looks a global parameter up by identifier.
    pub fn find_param_by_id(&self, id: ParameterID) -> (r: Option<usize>)
        requires
            self.wf(),
        ensures
            r is Some ==> self.param_id_at(r->0 as int, id),
            r is None ==> !exists|p: int| #[trigger] self.param_id_at(p, id),
    {
        let mut p: usize = 0;
        while p < self.global_params.len()
            invariant
                p <= self.global_params@.len(),
                forall|q: int| 0 <= q < p ==> !(#[trigger] self.param_id_at(q, id)),
            decreases self.global_params@.len() - p,
        {
            if self.global_params[p].id == id {
                return Some(p);
            }
            proof {
                assert(!self.param_id_at(p as int, id));
            }
            p = p + 1;
        }
        None
    }

    /// Replacing one bank slot with a variant that keeps its identity,
    /// handle ranges and content ties preserves well-formedness, provided
    /// the variant keeps the slot's own obligations.
    pub proof fn lemma_wf_update_slot(pre: Studio, post: Studio, b: int)
        requires
            pre.wf(),
            0 <= b < pre.banks@.len(),
            post == (Studio { banks: post.banks, ..pre }),
            post.banks@ == pre.banks@.update(b, post.banks@[b]),
            post.banks@[b].raw == pre.banks@[b].raw,
            post.banks@[b].data_idx == pre.banks@[b].data_idx,
            post.banks@[b].n_buses == pre.banks@[b].n_buses,
            post.banks@[b].n_vcas == pre.banks@[b].n_vcas,
            post.banks@[b].n_events == pre.banks@[b].n_events,
            post.banks@[b].bus_base == pre.banks@[b].bus_base,
            post.banks@[b].vca_base == pre.banks@[b].vca_base,
            post.banks@[b].event_base == pre.banks@[b].event_base,
            post.banks@[b].filled == pre.banks@[b].filled,
            post.banks@[b].wf(post.next_raw),
        ensures
            post.wf(),
    {
        assert forall|i: int|
            0 <= i < post.banks@.len() implies (#[trigger] post.banks@[i]).wf(
            post.next_raw,
        ) by {
            if i != b {
                assert(post.banks@[i] == pre.banks@[i]);
                assert(pre.banks@[i].wf(pre.next_raw));
            }
        }
        assert forall|i: int, j: int|
            0 <= i < j < post.banks@.len() implies (#[trigger] post.banks@[i]).raw != (
        #[trigger] post.banks@[j]).raw by {
            assert(pre.banks@[i].raw != pre.banks@[j].raw);
        }
        assert forall|i: int, j: int|
            0 <= i < j < post.banks@.len() && (#[trigger] post.banks@[i]).filled && (
        #[trigger] post.banks@[j]).filled implies post.banks@[i].data_idx != post.banks@[
            j].data_idx by {
            assert(pre.banks@[i].filled && pre.banks@[j].filled ==> pre.banks@[i].data_idx
                != pre.banks@[j].data_idx);
        }
        assert forall|i: int, j: int|
            0 <= i < post.banks@.len() && 0 <= j < post.banks@.len() && i != j && (
        #[trigger] post.banks@[i]).filled && (#[trigger] post.banks@[j]).filled implies (
        post.banks@[i].event_base + post.banks@[i].n_events <= post.banks@[j].event_base
            || post.banks@[j].event_base + post.banks@[j].n_events <= post.banks@[
            i].event_base) by {
            assert(pre.banks@[i].filled && pre.banks@[j].filled ==> (pre.banks@[i].event_base
                + pre.banks@[i].n_events <= pre.banks@[j].event_base || pre.banks@[
                j].event_base + pre.banks@[j].n_events <= pre.banks@[i].event_base));
        }
        assert forall|i: int|
            0 <= i < post.banks@.len() && (#[trigger] post.banks@[i]).filled implies
            post.banks@[i].data_idx < post.authored@.len() && post.banks@[i].n_buses
            == post.authored@[post.banks@[i].data_idx as int].buses@.len() && post.banks@[
            i].n_vcas == post.authored@[post.banks@[i].data_idx as int].vcas@.len()
            && post.banks@[i].n_events == post.authored@[
            post.banks@[i].data_idx as int].events@.len() by {
            assert(pre.banks@[i].filled);
        }
        assert(post.wf());
    }

    /// Removing one bank slot preserves well-formedness, and a handle is
    /// present afterwards exactly when it is another slot's handle.
    pub proof fn lemma_wf_remove_slot(pre: Studio, post: Studio, b: int)
        requires
            pre.wf(),
            0 <= b < pre.banks@.len(),
            post == (Studio { banks: post.banks, ..pre }),
            post.banks@ == pre.banks@.remove(b),
        ensures
            post.wf(),
            !post.bank_present(pre.banks@[b].raw),
            forall|x: usize|
                x != pre.banks@[b].raw ==> post.bank_present(x) == pre.bank_present(x),
    {
        let removed = pre.banks@[b].raw;
        assert forall|j: int|
            0 <= j < post.banks@.len() implies post.banks@[j] == pre.banks@[
            (if j < b {
                j
            } else {
                j + 1
            })
        ] by {}
        assert forall|i: int|
            0 <= i < post.banks@.len() implies (#[trigger] post.banks@[i]).wf(
            post.next_raw,
        ) by {
            let pi: int = if i < b {
                i
            } else {
                i + 1
            };
            assert(pre.banks@[pi].wf(pre.next_raw));
        }
        assert forall|i: int, j: int|
            0 <= i < j < post.banks@.len() implies (#[trigger] post.banks@[i]).raw != (
        #[trigger] post.banks@[j]).raw by {
            let pi: int = if i < b {
                i
            } else {
                i + 1
            };
            let pj: int = if j < b {
                j
            } else {
                j + 1
            };
            assert(pre.banks@[pi].raw != pre.banks@[pj].raw);
        }
        assert forall|i: int, j: int|
            0 <= i < j < post.banks@.len() && (#[trigger] post.banks@[i]).filled && (
        #[trigger] post.banks@[j]).filled implies post.banks@[i].data_idx != post.banks@[
            j].data_idx by {
            let pi: int = if i < b {
                i
            } else {
                i + 1
            };
            let pj: int = if j < b {
                j
            } else {
                j + 1
            };
            assert(pre.banks@[pi].filled && pre.banks@[pj].filled ==> pre.banks@[
                pi].data_idx != pre.banks@[pj].data_idx);
        }
        assert forall|i: int, j: int|
            0 <= i < post.banks@.len() && 0 <= j < post.banks@.len() && i != j && (
        #[trigger] post.banks@[i]).filled && (#[trigger] post.banks@[j]).filled implies (
        post.banks@[i].event_base + post.banks@[i].n_events <= post.banks@[j].event_base
            || post.banks@[j].event_base + post.banks@[j].n_events <= post.banks@[
            i].event_base) by {
            let pi: int = if i < b {
                i
            } else {
                i + 1
            };
            let pj: int = if j < b {
                j
            } else {
                j + 1
            };
            assert(pre.banks@[pi].filled && pre.banks@[pj].filled && pi != pj ==> (
            pre.banks@[pi].event_base + pre.banks@[pi].n_events <= pre.banks@[pj].event_base
                || pre.banks@[pj].event_base + pre.banks@[pj].n_events <= pre.banks@[
                pi].event_base));
        }
        assert forall|i: int|
            0 <= i < post.banks@.len() && (#[trigger] post.banks@[i]).filled implies
            post.banks@[i].data_idx < post.authored@.len() && post.banks@[i].n_buses
            == post.authored@[post.banks@[i].data_idx as int].buses@.len() && post.banks@[
            i].n_vcas == post.authored@[post.banks@[i].data_idx as int].vcas@.len()
            && post.banks@[i].n_events == post.authored@[
            post.banks@[i].data_idx as int].events@.len() by {
            let pi: int = if i < b {
                i
            } else {
                i + 1
            };
            assert(pre.banks@[pi].filled);
        }
        assert(post.wf());
        assert forall|j: int|
            0 <= j < post.banks@.len() implies (#[trigger] post.banks@[j]).raw != removed by {
            let pj: int = if j < b {
                j
            } else {
                j + 1
            };
            if pj < b {
                assert(pre.banks@[pj].raw != pre.banks@[b].raw);
            } else if pj > b {
                assert(pre.banks@[b].raw != pre.banks@[pj].raw);
            }
        }
        assert forall|x: usize|
            x != removed implies post.bank_present(x) == pre.bank_present(x) by {
            if pre.bank_present(x) {
                let i = choose|i: int|
                    0 <= i < pre.banks@.len() && (#[trigger] pre.banks@[i]).raw == x;
                assert(i != b);
                let ni: int = if i < b {
                    i
                } else {
                    i - 1
                };
                assert(post.banks@[ni].raw == x);
            }
            if post.bank_present(x) {
                let i = choose|i: int|
                    0 <= i < post.banks@.len() && (#[trigger] post.banks@[i]).raw == x;
                let pi: int = if i < b {
                    i
                } else {
                    i + 1
                };
                assert(pre.banks@[pi].raw == x);
            }
        }
    }

    /// Whether bus position (b, k) exists in a loaded bank.
    pub open spec fn bus_at(self, b: int, k: int) -> bool {
        &&& 0 <= b < self.banks@.len()
        &&& self.banks@[b].phase is Loaded
        &&& self.banks@[b].filled
        &&& 0 <= k < self.banks@[b].n_buses
    }

    /// The identifier of the bus at a position.
    pub open spec fn bus_id(self, b: int, k: int) -> Guid {
        self.authored@[self.banks@[b].data_idx as int].buses@[k]
    }

    /// Whether some loaded bank holds a bus with this identifier.
    pub open spec fn bus_id_found(self, g: Guid) -> bool {
        exists|b: int, k: int| #[trigger] self.bus_at(b, k) && self.bus_id(b, k) == g
    }

    /// Looks a bus up by identifier among the loaded banks.
    pub fn find_bus_by_id(&self, g: Guid) -> (r: Option<(usize, usize)>)
        requires
            self.wf(),
        ensures
            r is Some ==> self.bus_at((r->0).0 as int, (r->0).1 as int) && self.bus_id(
                (r->0).0 as int,
                (r->0).1 as int,
            ) == g,
            r is None ==> !self.bus_id_found(g),
    {
        let mut b: usize = 0;
        while b < self.banks.len()
            invariant
                self.wf(),
                b <= self.banks@.len(),
                forall|bb: int, k: int|
                    #[trigger] self.bus_at(bb, k) && bb < b ==> self.bus_id(bb, k) != g,
            decreases self.banks@.len() - b,
        {
            let slot = &self.banks[b];
            if slot.filled && matches!(slot.phase, LoadingState::Loaded) {
                let buses = &self.authored[slot.data_idx].buses;
                let mut k: usize = 0;
                while k < buses.len()
                    invariant
                        self.wf(),
                        b < self.banks@.len(),
                        self.banks@[b as int].filled,
                        self.banks@[b as int].phase is Loaded,
                        buses == &self.authored@[self.banks@[b as int].data_idx as int].buses,
                        buses@.len() == self.banks@[b as int].n_buses,
                        k <= buses@.len(),
                        forall|kk: int| 0 <= kk < k ==> buses@[kk] != g,
                    decreases buses@.len() - k,
                {
                    if buses[k] == g {
                        proof {
                            assert(self.bus_at(b as int, k as int));
                        }
                        return Some((b, k));
                    }
                    k = k + 1;
                }
                proof {
                    assert forall|kk: int|
                        #[trigger] self.bus_at(b as int, kk) implies self.bus_id(
                        b as int,
                        kk,
                    ) != g by {
                        assert(buses@[kk] != g);
                    }
                }
            }
            proof {
                assert forall|kk: int|
                    #[trigger] self.bus_at(b as int, kk) implies self.bus_id(b as int, kk)
                    != g by {}
            }
            b = b + 1;
        }
        None
    }

    /// Whether VCA position (b, k) exists in a loaded bank.
    pub open spec fn vca_at(self, b: int, k: int) -> bool {
        &&& 0 <= b < self.banks@.len()
        &&& self.banks@[b].phase is Loaded
        &&& self.banks@[b].filled
        &&& 0 <= k < self.banks@[b].n_vcas
    }

    /// The identifier of the VCA at a position.
    pub open spec fn vca_id(self, b: int, k: int) -> Guid {
        self.authored@[self.banks@[b].data_idx as int].vcas@[k]
    }

    /// Whether some loaded bank holds a VCA with this identifier.
    pub open spec fn vca_id_found(self, g: Guid) -> bool {
        exists|b: int, k: int| #[trigger] self.vca_at(b, k) && self.vca_id(b, k) == g
    }

    /// Looks a VCA up by identifier among the loaded banks.
    pub fn find_vca_by_id(&self, g: Guid) -> (r: Option<(usize, usize)>)
        requires
            self.wf(),
        ensures
            r is Some ==> self.vca_at((r->0).0 as int, (r->0).1 as int) && self.vca_id(
                (r->0).0 as int,
                (r->0).1 as int,
            ) == g,
            r is None ==> !self.vca_id_found(g),
    {
        let mut b: usize = 0;
        while b < self.banks.len()
            invariant
                self.wf(),
                b <= self.banks@.len(),
                forall|bb: int, k: int|
                    #[trigger] self.vca_at(bb, k) && bb < b ==> self.vca_id(bb, k) != g,
            decreases self.banks@.len() - b,
        {
            let slot = &self.banks[b];
            if slot.filled && matches!(slot.phase, LoadingState::Loaded) {
                let vcas = &self.authored[slot.data_idx].vcas;
                let mut k: usize = 0;
                while k < vcas.len()
                    invariant
                        self.wf(),
                        b < self.banks@.len(),
                        self.banks@[b as int].filled,
                        self.banks@[b as int].phase is Loaded,
                        vcas == &self.authored@[self.banks@[b as int].data_idx as int].vcas,
                        vcas@.len() == self.banks@[b as int].n_vcas,
                        k <= vcas@.len(),
                        forall|kk: int| 0 <= kk < k ==> vcas@[kk] != g,
                    decreases vcas@.len() - k,
                {
                    if vcas[k] == g {
                        proof {
                            assert(self.vca_at(b as int, k as int));
                        }
                        return Some((b, k));
                    }
                    k = k + 1;
                }
                proof {
                    assert forall|kk: int|
                        #[trigger] self.vca_at(b as int, kk) implies self.vca_id(
                        b as int,
                        kk,
                    ) != g by {
                        assert(vcas@[kk] != g);
                    }
                }
            }
            proof {
                assert forall|kk: int|
                    #[trigger] self.vca_at(b as int, kk) implies self.vca_id(b as int, kk)
                    != g by {}
            }
            b = b + 1;
        }
        None
    }

}

/// The sample machine after one load request: requested latches on, the
/// reference count grows, and idle or unloading data starts loading.
pub open spec fn sample_after_load(s: SampleLoad) -> SampleLoad {
    SampleLoad {
        requested: true,
        refs: (s.refs + 1) as u32,
        phase: match s.phase {
            LoadingState::Unloaded => LoadingState::Loading,
            LoadingState::Unloading => LoadingState::Loading,
            p => p,
        },
    }
}

/// The sample machine after one unload request: one outstanding request is
/// withdrawn, and the data starts unloading only when none remain; with no
/// outstanding request the machine is unchanged.
pub open spec fn sample_after_unload(s: SampleLoad) -> SampleLoad {
    if s.refs == 0 {
        s
    } else if s.refs == 1 {
        SampleLoad { refs: 0, phase: LoadingState::Unloading, ..s }
    } else {
        SampleLoad { refs: (s.refs - 1) as u32, ..s }
    }
}

/// Applies one load request to a sample machine.
pub fn sample_load_exec(s: SampleLoad) -> (r: SampleLoad)
    requires
        s.refs < u32::MAX,
    ensures
        r == sample_after_load(s),
{
    SampleLoad {
        requested: true,
        refs: s.refs + 1,
        phase: match s.phase {
            LoadingState::Unloaded => LoadingState::Loading,
            LoadingState::Unloading => LoadingState::Loading,
            p => p,
        },
    }
}

/// Applies one unload request to a sample machine.
pub fn sample_unload_exec(s: SampleLoad) -> (r: SampleLoad)
    ensures
        r == sample_after_unload(s),
{
    if s.refs == 0 {
        s
    } else if s.refs == 1 {
        SampleLoad { refs: 0, phase: LoadingState::Unloading, ..s }
    } else {
        SampleLoad { refs: s.refs - 1, ..s }
    }
}

/// One scheduler step of a sample-data machine: a pending load completes,
/// a pending unload completes, settled states stay.
pub open spec fn advance_sample(sm: SampleLoad) -> SampleLoad {
    match sm.phase {
        LoadingState::Loading => SampleLoad { phase: LoadingState::Loaded, ..sm },
        LoadingState::Unloading => SampleLoad { phase: LoadingState::Unloaded, ..sm },
        _ => sm,
    }
}

/// The phase a bank reaches after one scheduler step: a pending load
/// completes, or fails with the error the load would have reported; settled
/// phases stay.
pub open spec fn advance_phase(s: BankSlot) -> LoadingState {
    match s.phase {
        LoadingState::Loading => match s.pending_error {
            Some(e) => LoadingState::Error(e),
            None => LoadingState::Loaded,
        },
        p => p,
    }
}

/// One scheduler step of a loaded event's state: its sample machine
/// advances, its instances stay.
pub open spec fn event_slot_advanced(pre: EventSlot, post: EventSlot) -> bool {
    &&& post.instances == pre.instances
    &&& post.sample == advance_sample(pre.sample)
}

/// One scheduler step of a bank slot: the phase and the sample machines
/// advance; identity, content and handle ranges stay.
#[verifier::opaque]
pub open spec fn slot_advanced(pre: BankSlot, post: BankSlot) -> bool {
    &&& post.raw == pre.raw
    &&& post.data_idx == pre.data_idx
    &&& post.n_buses == pre.n_buses
    &&& post.n_vcas == pre.n_vcas
    &&& post.n_events == pre.n_events
    &&& post.pending_error == pre.pending_error
    &&& post.filled == pre.filled
    &&& post.bus_base == pre.bus_base
    &&& post.vca_base == pre.vca_base
    &&& post.event_base == pre.event_base
    &&& post.phase == advance_phase(pre)
    &&& post.sample == advance_sample(pre.sample)
    &&& post.events_state@.len() == pre.events_state@.len()
    &&& forall|i: int|
        0 <= i < pre.events_state@.len() ==> event_slot_advanced(
            #[trigger] pre.events_state@[i],
            post.events_state@[i],
        )
}

/// Builds the advanced form of one bank slot.
pub fn advance_slot_exec(s: BankSlot) -> (r: BankSlot)
    ensures
        slot_advanced(s, r),
{
    proof {
        reveal(slot_advanced);
    }
    let phase = match s.phase {
        LoadingState::Loading => match s.pending_error {
            Some(e) => LoadingState::Error(e),
            None => LoadingState::Loaded,
        },
        p => p,
    };
    let sample = advance_sample_exec(s.sample);
    let ghost orig = s.events_state@;
    let mut rest = s.events_state;
    let mut events_state: Vec<EventSlot> = Vec::new();
    while rest.len() > 0
        invariant
            events_state@.len() + rest@.len() == orig.len(),
            rest@ == orig.skip(events_state@.len() as int),
            forall|j: int|
                0 <= j < events_state@.len() ==> event_slot_advanced(
                    #[trigger] orig[j],
                    events_state@[j],
                ),
        decreases rest@.len(),
    {
        let ghost k = events_state@.len() as int;
        let e = rest.remove(0);
        proof {
            assert(e == orig[k]);
            assert(rest@ =~= orig.skip(k + 1));
        }
        let adv = EventSlot { instances: e.instances, sample: advance_sample_exec(e.sample) };
        events_state.push(adv);
    }
    BankSlot {
        raw: s.raw,
        data_idx: s.data_idx,
        n_buses: s.n_buses,
        n_vcas: s.n_vcas,
        n_events: s.n_events,
        phase,
        pending_error: s.pending_error,
        filled: s.filled,
        bus_base: s.bus_base,
        vca_base: s.vca_base,
        event_base: s.event_base,
        events_state,
        sample,
    }
}

/// Advances one sample-data machine by a scheduler step.
pub fn advance_sample_exec(sm: SampleLoad) -> (r: SampleLoad)
    ensures
        r == advance_sample(sm),
{
    match sm.phase {
        LoadingState::Loading => SampleLoad { phase: LoadingState::Loaded, ..sm },
        LoadingState::Unloading => SampleLoad { phase: LoadingState::Unloaded, ..sm },
        _ => sm,
    }
}

} // verus!
