//! Tests of bank content enumeration, sample-data reference counting,
//! event instances, parameters, geometry, and DSP units.

use fmod_studio::error::FmodError;
use fmod_studio::error::FMOD_ERR_DSP_INUSE;
use fmod_studio::error::FMOD_ERR_EVENT_NOTFOUND;
use fmod_studio::error::FMOD_ERR_INVALID_HANDLE;
use fmod_studio::error::FMOD_ERR_INVALID_PARAM;
use fmod_studio::error::FMOD_ERR_MEMORY;
use fmod_studio::flags::LoadBankFlags;
use fmod_studio::ids::Guid;
use fmod_studio::ids::ParameterID;
use fmod_studio::loading::LoadingState;
use fmod_studio::model::BankData;
use fmod_studio::model::EventData;
use fmod_studio::model::ParamData;
use fmod_studio::model::StringEntry;
use fmod_studio::model::Studio;
use fmod_studio::system::Bank;
use fmod_studio::system::System;

fn guid(n: u32) -> Guid {
    Guid { data1: n, data2: 0, data3: 0, data4: 0 }
}

fn rich_bank() -> BankData {
    BankData {
        id: guid(1),
        filename: String::from("Content.bank"),
        image: vec![7, 7, 7],
        events: vec![EventData {
            id: guid(10),
            length_ms: 2500,
            is_3d: true,
            is_doppler: true,
            is_oneshot: false,
            is_snapshot: false,
            is_stream: true,
            has_sustain_point: true,
            params: vec![ParamData {
                id: ParameterID { data1: 5, data2: 6 },
                name: String::from("Surface"),
                labels: vec![String::from("Grass"), String::from("Gravel")],
            }],
        }],
        buses: vec![guid(20), guid(21), guid(22)],
        vcas: vec![guid(30)],
        strings: vec![
            StringEntry { id: guid(1), path: String::from("bank:/Content") },
            StringEntry { id: guid(10), path: String::from("event:/Footstep") },
        ],
    }
}

fn loaded() -> (System, Studio, Bank) {
    let (sys, mut st) = System::new();
    st.author_bank(rich_bank()).unwrap();
    let bank = sys.load_bank_memory(&mut st, &vec![7, 7, 7], LoadBankFlags::normal()).unwrap();
    (sys, st, bank)
}

#[test]
fn counts_match_authored_content() {
    let (_sys, st, bank) = loaded();
    assert_eq!(bank.bus_count(&st).unwrap(), 3);
    assert_eq!(bank.vca_count(&st).unwrap(), 1);
    assert_eq!(bank.event_count(&st).unwrap(), 1);
    assert_eq!(bank.string_count(&st).unwrap(), 2);
}

#[test]
fn discovery_and_fill_counts_agree_for_lists() {
    let (_sys, st, bank) = loaded();
    let expected = bank.bus_count(&st).unwrap();
    let buses = bank.get_bus_list(&st).unwrap();
    assert_eq!(buses.len() as i32, expected);
    let vcas = bank.get_vca_list(&st).unwrap();
    assert_eq!(vcas.len() as i32, bank.vca_count(&st).unwrap());
    let events = bank.get_event_list(&st).unwrap();
    assert_eq!(events.len() as i32, bank.event_count(&st).unwrap());
}

#[test]
fn string_table_enumeration() {
    let (_sys, st, bank) = loaded();
    let (g0, p0) = bank.get_string_info(&st, 0).unwrap();
    assert_eq!(g0, guid(1));
    assert_eq!(p0, "bank:/Content");
    let (g1, p1) = bank.get_string_info(&st, 1).unwrap();
    assert_eq!(g1, guid(10));
    assert_eq!(p1, "event:/Footstep");
    assert_eq!(bank.get_string_info(&st, 2).unwrap_err().code(), FMOD_ERR_INVALID_PARAM);
    assert_eq!(bank.get_string_info(&st, -1).unwrap_err().code(), FMOD_ERR_INVALID_PARAM);
}

#[test]
fn bank_sample_data_is_reference_counted() {
    let (sys, mut st, bank) = loaded();
    assert_eq!(bank.get_sample_loading_state(&st).unwrap(), LoadingState::Unloaded);
    bank.load_sample_data(&mut st).unwrap();
    bank.load_sample_data(&mut st).unwrap();
    assert_eq!(bank.get_sample_loading_state(&st).unwrap(), LoadingState::Loading);
    sys.update(&mut st).unwrap();
    assert_eq!(bank.get_sample_loading_state(&st).unwrap(), LoadingState::Loaded);
    bank.unload_sample_data(&mut st).unwrap();
    assert_eq!(bank.get_sample_loading_state(&st).unwrap(), LoadingState::Loaded);
    bank.unload_sample_data(&mut st).unwrap();
    assert_eq!(bank.get_sample_loading_state(&st).unwrap(), LoadingState::Unloading);
    sys.flush_sample_loading(&mut st).unwrap();
    assert_eq!(bank.get_sample_loading_state(&st).unwrap(), LoadingState::Unloaded);
}

#[test]
fn event_flags_match_authored_content() {
    let (sys, st, _bank) = loaded();
    let ev = sys.get_event(&st, "event:/Footstep").unwrap();
    assert!(ev.is_3d(&st).unwrap());
    assert!(ev.is_doppler_enabled(&st).unwrap());
    assert!(!ev.is_oneshot(&st).unwrap());
    assert!(!ev.is_snapshot(&st).unwrap());
    assert!(ev.is_stream(&st).unwrap());
    assert!(ev.has_sustain_point(&st).unwrap());
    assert_eq!(ev.get_length(&st).unwrap(), 2500);
    assert_eq!(ev.get_path(&st).unwrap(), "event:/Footstep");
}

#[test]
fn event_instances_lifecycle() {
    let (sys, mut st, _bank) = loaded();
    let ev = sys.get_event(&st, "event:/Footstep").unwrap();
    assert_eq!(ev.instance_count(&st).unwrap(), 0);
    let i1 = ev.create_instance(&mut st).unwrap();
    let i2 = ev.create_instance(&mut st).unwrap();
    assert_ne!(i1.into_ffi(), i2.into_ffi());
    assert_eq!(ev.instance_count(&st).unwrap(), 2);
    let list = ev.get_instance_list(&st).unwrap();
    assert_eq!(list.len(), 2);
    assert_eq!(list[0].into_ffi(), i1.into_ffi());
    assert_eq!(list[1].into_ffi(), i2.into_ffi());
    ev.release_all_instances(&mut st).unwrap();
    assert_eq!(ev.instance_count(&st).unwrap(), 0);
}

#[test]
fn event_sample_data_machine() {
    let (sys, mut st, _bank) = loaded();
    let ev = sys.get_event(&st, "event:/Footstep").unwrap();
    assert_eq!(ev.get_sample_loading_state(&st).unwrap(), LoadingState::Unloaded);
    ev.load_sample_data(&mut st).unwrap();
    assert_eq!(ev.get_sample_loading_state(&st).unwrap(), LoadingState::Loading);
    sys.update(&mut st).unwrap();
    assert_eq!(ev.get_sample_loading_state(&st).unwrap(), LoadingState::Loaded);
    ev.unload_sample_data(&mut st).unwrap();
    assert_eq!(ev.get_sample_loading_state(&st).unwrap(), LoadingState::Unloading);
}

#[test]
fn event_parameter_labels_by_index() {
    let (sys, st, _bank) = loaded();
    let ev = sys.get_event(&st, "event:/Footstep").unwrap();
    assert_eq!(ev.parameter_description_count(&st).unwrap(), 1);
    assert_eq!(ev.get_parameter_label_by_index(&st, 0, 0).unwrap(), "Grass");
    assert_eq!(ev.get_parameter_label_by_index(&st, 0, 1).unwrap(), "Gravel");
    assert_eq!(
        ev.get_parameter_label_by_index(&st, 0, 2).unwrap_err().code(),
        FMOD_ERR_EVENT_NOTFOUND
    );
    assert_eq!(
        ev.get_parameter_label_by_index(&st, 3, 0).unwrap_err().code(),
        FMOD_ERR_INVALID_PARAM
    );
}

#[test]
fn global_parameter_labels() {
    let (sys, mut st) = System::new();
    st.author_global_param(ParamData {
        id: ParameterID { data1: 9, data2: 9 },
        name: String::from("Wind"),
        labels: vec![String::from("Calm"), String::from("Storm")],
    })
    .unwrap();
    assert_eq!(sys.parameter_description_count(&st).unwrap(), 1);
    assert_eq!(sys.get_parameter_label_by_name(&st, "Wind", 1).unwrap(), "Storm");
    assert_eq!(
        sys.get_parameter_label_by_id(&st, ParameterID { data1: 9, data2: 9 }, 0).unwrap(),
        "Calm"
    );
    assert_eq!(
        sys.get_parameter_label_by_name(&st, "Rain", 0).unwrap_err().code(),
        FMOD_ERR_EVENT_NOTFOUND
    );
    assert_eq!(
        sys.get_parameter_label_by_name(&st, "Wind", 7).unwrap_err().code(),
        FMOD_ERR_EVENT_NOTFOUND
    );
}

#[test]
fn geometry_capacity_is_enforced() {
    let (sys, mut st) = System::new();
    let core = sys.get_core_system(&st).unwrap();
    let geo = core.create_geometry(&mut st, 2, 7).unwrap();
    assert_eq!(geo.get_max_polygons(&st).unwrap(), (2, 7));
    assert_eq!(geo.add_polygon(&mut st, false, 3).unwrap(), 0);
    assert_eq!(geo.add_polygon(&mut st, true, 4).unwrap(), 1);
    assert_eq!(geo.get_polygon_count(&st).unwrap(), 2);
    assert_eq!(geo.add_polygon(&mut st, false, 3).unwrap_err().code(), FMOD_ERR_MEMORY);
    let geo2 = core.create_geometry(&mut st, 8, 5).unwrap();
    assert_eq!(geo2.add_polygon(&mut st, false, 3).unwrap(), 0);
    assert_eq!(geo2.add_polygon(&mut st, false, 3).unwrap_err().code(), FMOD_ERR_MEMORY);
    assert_eq!(geo2.add_polygon(&mut st, false, 2).unwrap_err().code(), FMOD_ERR_INVALID_PARAM);
    assert_eq!(
        core.create_geometry(&mut st, -1, 4).unwrap_err().code(),
        FMOD_ERR_INVALID_PARAM
    );
}

#[test]
fn geometry_active_flag() {
    let (sys, mut st) = System::new();
    let core = sys.get_core_system(&st).unwrap();
    let geo = core.create_geometry(&mut st, 4, 16).unwrap();
    assert!(geo.get_active(&st).unwrap());
    geo.set_active(&mut st, false).unwrap();
    assert!(!geo.get_active(&st).unwrap());
}

#[test]
fn geometry_userdata_release_discipline() {
    let (sys, mut st) = System::new();
    let core = sys.get_core_system(&st).unwrap();
    let geo = core.create_geometry(&mut st, 4, 16).unwrap();
    assert_eq!(geo.get_raw_userdata(&st).unwrap(), 0);
    assert_eq!(geo.get_userdata(&st).unwrap(), None);
    geo.set_userdata(&mut st, 4242).unwrap();
    let key = geo.get_raw_userdata(&st).unwrap();
    assert_ne!(key, 0);
    assert_eq!(geo.get_userdata(&st).unwrap(), Some(4242));
    geo.set_userdata(&mut st, 99).unwrap();
    assert_eq!(geo.get_userdata(&st).unwrap(), Some(99));
    geo.release(&mut st).unwrap();
    assert_eq!(geo.get_active(&st).unwrap_err().code(), FMOD_ERR_INVALID_HANDLE);
    assert_eq!(geo.get_active(&st).unwrap_err().code(), FMOD_ERR_INVALID_HANDLE);
    assert_eq!(st.userdata.entries.len(), 0);
    assert_eq!(geo.release(&mut st).unwrap_err().code(), FMOD_ERR_INVALID_HANDLE);
}

#[test]
fn dsp_release_respects_in_use() {
    let (sys, mut st) = System::new();
    let core = sys.get_core_system(&st).unwrap();
    let dsp = core.create_dsp(&mut st).unwrap();
    assert!(dsp.reset(&st).is_ok());
    assert_eq!(dsp.get_system(&st).unwrap().into_ffi(), core.into_ffi());
    dsp.set_attached(&mut st, true).unwrap();
    assert_eq!(dsp.release(&mut st).unwrap_err().code(), FMOD_ERR_DSP_INUSE);
    assert!(dsp.reset(&st).is_ok());
    dsp.set_attached(&mut st, false).unwrap();
    dsp.release(&mut st).unwrap();
    assert_eq!(dsp.reset(&st).unwrap_err().code(), FMOD_ERR_INVALID_HANDLE);
}

#[test]
fn authoring_rejects_duplicates() {
    let (_sys, mut st) = System::new();
    st.author_bank(rich_bank()).unwrap();
    assert_eq!(st.author_bank(rich_bank()).unwrap_err().code(), FMOD_ERR_INVALID_PARAM);
}

#[test]
fn geometry_save_serializes_state() {
    let (sys, mut st) = System::new();
    let core = sys.get_core_system(&st).unwrap();
    let geo = core.create_geometry(&mut st, 4, 16).unwrap();
    geo.add_polygon(&mut st, false, 3).unwrap();
    geo.add_polygon(&mut st, true, 5).unwrap();
    let blob = geo.save(&st).unwrap();
    assert_eq!(blob.len(), 12 + 2 * 4);
    let word = |i: usize| {
        u32::from_le_bytes([blob[i], blob[i + 1], blob[i + 2], blob[i + 3]])
    };
    assert_eq!(word(0), 4);
    assert_eq!(word(4), 16);
    assert_eq!(word(8), 2);
    assert_eq!(word(12), 3);
    assert_eq!(word(16), 5);
}

#[test]
fn error_descriptions_name_known_codes() {
    assert_eq!(FmodError { code: FMOD_ERR_DSP_INUSE }.describe(), "dsp still in use");
    assert_eq!(FmodError { code: FMOD_ERR_INVALID_HANDLE }.describe(), "invalid handle");
    assert_eq!(FmodError { code: 12345 }.describe(), "native error");
}

#[test]
fn dsp_cpu_usage_needs_profiling() {
    let (sys, mut st) = System::new();
    let core = sys.get_core_system(&st).unwrap();
    let dsp = core.create_dsp(&mut st).unwrap();
    let e = dsp.get_cpu_usage(&st).unwrap_err();
    assert_eq!(e.code(), fmod_studio::error::FMOD_ERR_UNSUPPORTED);

    let (sys2, mut st2) = fmod_studio::system::SystemBuilder::new().build(
        0,
        fmod_studio::flags::InitFlags::normal(),
        fmod_studio::flags::CoreInitFlags::profiling(),
    );
    let core2 = sys2.get_core_system(&st2).unwrap();
    let dsp2 = core2.create_dsp(&mut st2).unwrap();
    let (exclusive, inclusive) = dsp2.get_cpu_usage(&st2).unwrap();
    assert!(exclusive <= inclusive);
}

#[test]
fn authoring_rejects_reused_guids_and_paths() {
    let (_sys, mut st) = System::new();
    st.author_bank(rich_bank()).unwrap();
    let mut second = rich_bank();
    second.id = guid(2);
    second.filename = String::from("Second.bank");
    second.image = vec![8, 8, 8];
    second.strings = vec![StringEntry { id: guid(2), path: String::from("bank:/Second") }];
    // The event identifier is still the first bank's: refused.
    let e = st.author_bank(second.clone()).unwrap_err();
    assert_eq!(e.code(), FMOD_ERR_INVALID_PARAM);
    let mut third = second.clone();
    third.events = Vec::new();
    third.strings = vec![StringEntry { id: guid(2), path: String::from("bank:/Content") }];
    // The path is still the first bank's: refused.
    let e2 = st.author_bank(third).unwrap_err();
    assert_eq!(e2.code(), FMOD_ERR_INVALID_PARAM);
    let mut fourth = second;
    fourth.events = Vec::new();
    st.author_bank(fourth).unwrap();
}
