//! End-to-end tests of the studio system: building, loading banks, the
//! asynchronous loading machine, and teardown.

use fmod_studio::error::FMOD_ERR_EVENT_ALREADY_LOADED;
use fmod_studio::error::FMOD_ERR_EVENT_NOTFOUND;
use fmod_studio::error::FMOD_ERR_FILE_BAD;
use fmod_studio::error::FMOD_ERR_FILE_NOTFOUND;
use fmod_studio::error::FMOD_ERR_INVALID_PARAM;
use fmod_studio::error::FMOD_ERR_INVALID_STRING;
use fmod_studio::flags::AdvancedSettings;
use fmod_studio::flags::LoadBankFlags;
use fmod_studio::ids::Guid;
use fmod_studio::loading::LoadingState;
use fmod_studio::model::BankData;
use fmod_studio::model::EventData;
use fmod_studio::model::StringEntry;
use fmod_studio::model::Studio;
use fmod_studio::system::System;
use fmod_studio::system::SystemBuilder;

fn guid(n: u32) -> Guid {
    Guid { data1: n, data2: 0, data3: 0, data4: 0 }
}

fn event(n: u32) -> EventData {
    EventData {
        id: guid(n),
        length_ms: 1500,
        is_3d: true,
        is_doppler: false,
        is_oneshot: true,
        is_snapshot: false,
        is_stream: false,
        has_sustain_point: false,
        params: Vec::new(),
    }
}

/// A bank authored with its own path in its string table, as a strings
/// bank is.
fn master_bank() -> BankData {
    BankData {
        id: guid(1),
        filename: String::from("Master.bank"),
        image: vec![1, 2, 3, 4],
        events: vec![event(10), event(11)],
        buses: vec![guid(20)],
        vcas: vec![guid(30)],
        strings: vec![
            StringEntry { id: guid(1), path: String::from("bank:/Master") },
            StringEntry { id: guid(10), path: String::from("event:/Explosion") },
            StringEntry { id: guid(11), path: String::from("event:/UI/Cancel") },
        ],
    }
}

fn built() -> (System, Studio) {
    let (sys, mut st) = System::new();
    st.author_bank(master_bank()).unwrap();
    (sys, st)
}

#[test]
fn build_and_release() {
    let (sys, mut st) = System::new();
    assert!(sys.is_valid(&st));
    assert_eq!(sys.bank_count(&st).unwrap(), 0);
    sys.release(&mut st).unwrap();
    assert!(!sys.is_valid(&st));
    assert!(sys.bank_count(&st).is_err());
}

#[test]
fn synchronous_load_end_to_end() {
    let (sys, mut st) = built();
    let before = sys.bank_count(&st).unwrap();
    let bank = sys.load_bank_memory(&mut st, &vec![1, 2, 3, 4], LoadBankFlags::normal()).unwrap();
    assert_eq!(sys.bank_count(&st).unwrap(), before + 1);
    let list = sys.get_bank_list(&st).unwrap();
    assert!(list.iter().any(|b| b.into_ffi() == bank.into_ffi()));
    assert_eq!(bank.get_loading_state(&st).unwrap(), LoadingState::Loaded);
    assert_eq!(bank.get_path(&st).unwrap(), "bank:/Master");
    assert_eq!(bank.get_id(&st).unwrap(), guid(1));
    let again = sys.get_bank(&st, "bank:/Master").unwrap();
    assert_eq!(again.into_ffi(), bank.into_ffi());
    let events = bank.get_event_list(&st).unwrap();
    assert_eq!(events.len(), 2);
    bank.unload(&mut st).unwrap();
    assert!(!bank.is_valid(&st));
    assert!(!bank.is_valid(&st));
    assert!(!events[0].is_valid(&st));
    assert!(!events[1].is_valid(&st));
    assert_eq!(sys.bank_count(&st).unwrap(), before);
}

#[test]
fn bad_image_fails_synchronously() {
    let (sys, mut st) = built();
    let e = sys.load_bank_memory(&mut st, &vec![9, 9, 9], LoadBankFlags::normal()).unwrap_err();
    assert_eq!(e.code(), FMOD_ERR_FILE_BAD);
    assert_eq!(sys.bank_count(&st).unwrap(), 0);
}

#[test]
fn async_load_reports_loading_then_loaded() {
    let (sys, mut st) = built();
    let bank = sys
        .load_bank_memory(&mut st, &vec![1, 2, 3, 4], LoadBankFlags::nonblocking())
        .unwrap();
    let s0 = bank.get_loading_state(&st).unwrap();
    assert!(s0 == LoadingState::Loading || s0 == LoadingState::Loaded);
    assert_ne!(s0, LoadingState::Unloaded);
    sys.update(&mut st).unwrap();
    assert_eq!(bank.get_loading_state(&st).unwrap(), LoadingState::Loaded);
}

#[test]
fn async_load_failure_exposes_originating_code() {
    let (sys, mut st) = built();
    let bank = sys
        .load_bank_memory(&mut st, &vec![0xde, 0xad], LoadBankFlags::nonblocking())
        .unwrap();
    assert_eq!(bank.get_loading_state(&st).unwrap(), LoadingState::Loading);
    sys.update(&mut st).unwrap();
    match bank.get_loading_state(&st).unwrap() {
        LoadingState::Error(e) => assert_eq!(e.code(), FMOD_ERR_FILE_BAD),
        other => panic!("expected the failure state, got {:?}", other),
    }
}

#[test]
fn bank_is_not_loaded_twice() {
    let (sys, mut st) = built();
    let _bank = sys.load_bank_memory(&mut st, &vec![1, 2, 3, 4], LoadBankFlags::normal()).unwrap();
    let e = sys.load_bank_memory(&mut st, &vec![1, 2, 3, 4], LoadBankFlags::normal()).unwrap_err();
    assert_eq!(e.code(), FMOD_ERR_EVENT_ALREADY_LOADED);
}

#[test]
fn memory_load_is_incompatible_with_encryption() {
    let mut builder = SystemBuilder::new();
    let mut settings = AdvancedSettings::defaults();
    settings.encryption_key = Some(String::from("master-key"));
    builder.settings(settings);
    let (sys, mut st) = builder.build(
        0,
        fmod_studio::flags::InitFlags::normal(),
        fmod_studio::flags::CoreInitFlags::normal(),
    );
    st.author_bank(master_bank()).unwrap();
    let e = sys.load_bank_memory(&mut st, &vec![1, 2, 3, 4], LoadBankFlags::normal()).unwrap_err();
    assert_eq!(e.code(), FMOD_ERR_INVALID_PARAM);
}

#[test]
fn file_load_by_name() {
    let (sys, mut st) = built();
    let bank = sys.load_bank_file(&mut st, "Master.bank", LoadBankFlags::normal()).unwrap();
    assert_eq!(bank.get_loading_state(&st).unwrap(), LoadingState::Loaded);
    let missing = sys.load_bank_file(&mut st, "Other.bank", LoadBankFlags::normal()).unwrap_err();
    assert_eq!(missing.code(), FMOD_ERR_FILE_NOTFOUND);
    let bad = sys.load_bank_file(&mut st, "nul\0name", LoadBankFlags::normal()).unwrap_err();
    assert_eq!(bad.code(), FMOD_ERR_INVALID_STRING);
}

#[test]
fn unload_all_banks_invalidates_handles() {
    let (sys, mut st) = built();
    let bank = sys.load_bank_memory(&mut st, &vec![1, 2, 3, 4], LoadBankFlags::normal()).unwrap();
    sys.unload_all_banks(&mut st).unwrap();
    assert_eq!(sys.bank_count(&st).unwrap(), 0);
    assert!(!bank.is_valid(&st));
}

#[test]
fn path_lookup_requires_loaded_strings() {
    let (sys, mut st) = built();
    let e = sys.get_bank(&st, "bank:/Master").unwrap_err();
    assert_eq!(e.code(), FMOD_ERR_EVENT_NOTFOUND);
    let _bank = sys.load_bank_memory(&mut st, &vec![1, 2, 3, 4], LoadBankFlags::normal()).unwrap();
    assert!(sys.get_bank(&st, "bank:/Master").is_ok());
    let nul = sys.get_bank(&st, "bank:/\0").unwrap_err();
    assert_eq!(nul.code(), FMOD_ERR_INVALID_STRING);
}

#[test]
fn lookup_id_and_path_round_trip() {
    let (sys, mut st) = built();
    let _bank = sys.load_bank_memory(&mut st, &vec![1, 2, 3, 4], LoadBankFlags::normal()).unwrap();
    let g = sys.lookup_id(&st, "event:/Explosion").unwrap();
    assert_eq!(g, guid(10));
    assert_eq!(sys.lookup_path(&st, g).unwrap(), "event:/Explosion");
    let missing = sys.lookup_id(&st, "event:/Nothing").unwrap_err();
    assert_eq!(missing.code(), FMOD_ERR_EVENT_NOTFOUND);
}

#[test]
fn event_lookup_by_path_and_id() {
    let (sys, mut st) = built();
    let _bank = sys.load_bank_memory(&mut st, &vec![1, 2, 3, 4], LoadBankFlags::normal()).unwrap();
    let ev = sys.get_event(&st, "event:/UI/Cancel").unwrap();
    assert!(ev.is_valid(&st));
    assert_eq!(ev.get_id(&st).unwrap(), guid(11));
    let ev2 = sys.get_event_by_id(&st, guid(11)).unwrap();
    assert_eq!(ev2.into_ffi(), ev.into_ffi());
}

#[test]
fn listener_count_is_validated() {
    let (sys, mut st) = System::new();
    assert_eq!(sys.get_listener_count(&st).unwrap(), 1);
    sys.set_listener_count(&mut st, 4).unwrap();
    assert_eq!(sys.get_listener_count(&st).unwrap(), 4);
    assert_eq!(sys.set_listener_count(&mut st, 0).unwrap_err().code(), FMOD_ERR_INVALID_PARAM);
    assert_eq!(sys.set_listener_count(&mut st, 9).unwrap_err().code(), FMOD_ERR_INVALID_PARAM);
}

#[test]
fn advanced_settings_round_trip() {
    let mut builder = SystemBuilder::new();
    let mut settings = AdvancedSettings::defaults();
    settings.command_queue_size = 1024;
    builder.settings(settings.clone());
    let (sys, st) = builder.build(
        64,
        fmod_studio::flags::InitFlags::normal(),
        fmod_studio::flags::CoreInitFlags::normal(),
    );
    assert_eq!(sys.get_advanced_settings(&st).unwrap(), settings);
}

#[test]
fn stale_bank_handles_do_not_flap() {
    let (sys, mut st) = built();
    let bank = sys.load_bank_memory(&mut st, &vec![1, 2, 3, 4], LoadBankFlags::normal()).unwrap();
    bank.unload(&mut st).unwrap();
    assert!(!bank.is_valid(&st));
    sys.update(&mut st).unwrap();
    assert!(!bank.is_valid(&st));
    let _other = sys.load_bank_file(&mut st, "Master.bank", LoadBankFlags::normal()).unwrap();
    assert!(!bank.is_valid(&st));
    assert!(!bank.is_valid(&st));
}

#[test]
fn command_capture_and_replay() {
    let (sys, mut st) = System::new();
    let e = sys.stop_command_capture(&mut st).unwrap_err();
    assert_eq!(e.code(), FMOD_ERR_INVALID_PARAM);
    sys.start_command_capture(
        &mut st,
        "session.cmd",
        fmod_studio::flags::CommandCaptureFlags::normal(),
    )
    .unwrap();
    sys.stop_command_capture(&mut st).unwrap();
    let replay = sys
        .load_command_replay(&mut st, "session.cmd", fmod_studio::flags::CommandReplayFlags::normal())
        .unwrap();
    assert_ne!(replay.into_ffi(), 0);
    let missing = sys
        .load_command_replay(&mut st, "other.cmd", fmod_studio::flags::CommandReplayFlags::normal())
        .unwrap_err();
    assert_eq!(missing.code(), FMOD_ERR_FILE_NOTFOUND);
}

#[test]
fn buffer_usage_resets_to_zero() {
    let (sys, mut st) = System::new();
    let usage = sys.get_buffer_usage(&st).unwrap();
    assert_eq!(usage.stall_count, 0);
    sys.reset_buffer_usage(&mut st).unwrap();
    let usage2 = sys.get_buffer_usage(&st).unwrap();
    assert_eq!(usage2.stall_count, 0);
    assert_eq!(usage2.stall_time_ms, 0);
}

#[test]
fn bus_and_vca_lookup_by_id() {
    let (sys, mut st) = built();
    let _bank = sys.load_bank_memory(&mut st, &vec![1, 2, 3, 4], LoadBankFlags::normal()).unwrap();
    let bus = sys.get_bus_by_id(&st, guid(20)).unwrap();
    assert_ne!(bus.into_ffi(), 0);
    let vca = sys.get_vca_by_id(&st, guid(30)).unwrap();
    assert_ne!(vca.into_ffi(), 0);
    assert_ne!(bus.into_ffi(), vca.into_ffi());
    let missing = sys.get_bus_by_id(&st, guid(77)).unwrap_err();
    assert_eq!(missing.code(), FMOD_ERR_EVENT_NOTFOUND);
    let missing2 = sys.get_vca(&st, "vca:/Nothing").unwrap_err();
    assert_eq!(missing2.code(), FMOD_ERR_EVENT_NOTFOUND);
}
