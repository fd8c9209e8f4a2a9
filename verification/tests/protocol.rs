//! Tests of the status-code mapper, the two-phase protocol, the text
//! marshaling layer, and the userdata table.

use fmod_studio::error::to_error;
use fmod_studio::error::to_result;
use fmod_studio::error::FmodError;
use fmod_studio::error::FMOD_ERR_INVALID_HANDLE;
use fmod_studio::error::FMOD_ERR_TRUNCATED;
use fmod_studio::error::FMOD_OK;
use fmod_studio::loading::LoadingState;
use fmod_studio::protocol::count_out;
use fmod_studio::protocol::discovery_step;
use fmod_studio::protocol::fetch_list;
use fmod_studio::protocol::fetch_string;
use fmod_studio::protocol::fill_step;
use fmod_studio::protocol::list_out;
use fmod_studio::protocol::string_out;
use fmod_studio::protocol::Discovery;
use fmod_studio::protocol::QueryError;
use fmod_studio::text::marshal_out;
use fmod_studio::text::terminate;
use fmod_studio::text::unmarshal_in;
use fmod_studio::userdata::UserdataTable;

#[test]
fn result_mapper_classifies_success_and_failure() {
    assert!(to_result(FMOD_OK).is_ok());
    let e = to_result(FMOD_ERR_INVALID_HANDLE).unwrap_err();
    assert_eq!(e.code(), FMOD_ERR_INVALID_HANDLE);
    assert!(to_error(FMOD_OK).is_none());
    assert_eq!(to_error(51).unwrap().code(), 51);
}

#[test]
fn truncation_signal_is_distinguishable() {
    assert!(FmodError { code: FMOD_ERR_TRUNCATED }.is_truncated());
    assert!(!FmodError { code: FMOD_ERR_INVALID_HANDLE }.is_truncated());
}

#[test]
fn loading_state_raw_round_trip() {
    let states = [
        LoadingState::Unloading,
        LoadingState::Unloaded,
        LoadingState::Loading,
        LoadingState::Loaded,
    ];
    for s in states {
        let raw = s.to_raw();
        assert_eq!(LoadingState::try_from_ffi(raw, None), Ok(s));
    }
}

#[test]
fn loading_state_error_carries_code() {
    let e = FmodError { code: 13 };
    let got = LoadingState::try_from_ffi(4, Some(e)).unwrap();
    match got {
        LoadingState::Error(inner) => assert_eq!(inner.code(), 13),
        _ => panic!("expected the error state"),
    }
}

#[test]
fn loading_state_failing_poll_is_an_error() {
    let e = FmodError { code: FMOD_ERR_INVALID_HANDLE };
    assert_eq!(LoadingState::try_from_ffi(1, Some(e)), Err(e));
}

#[test]
fn discovery_consumes_truncation_and_aborts_on_failure() {
    assert_eq!(discovery_step(FMOD_ERR_TRUNCATED, 12), Discovery::Proceed(12));
    assert_eq!(discovery_step(FMOD_OK, 7), Discovery::Proceed(7));
    match discovery_step(FMOD_ERR_INVALID_HANDLE, 9) {
        Discovery::Abort(e) => assert_eq!(e.code(), FMOD_ERR_INVALID_HANDLE),
        Discovery::Proceed(_) => panic!("a true failure must abort before the fill call"),
    }
}

#[test]
fn fill_step_accepts_only_exact_agreement() {
    assert!(fill_step(5, FMOD_OK, 5, 5).is_ok());
    assert_eq!(
        fill_step(5, FMOD_OK, 7, 7),
        Err(QueryError::Mismatch { expected: 5, found: 7 })
    );
    assert_eq!(
        fill_step(5, FMOD_OK, 5, 4),
        Err(QueryError::Mismatch { expected: 5, found: 4 })
    );
    assert_eq!(
        fill_step(5, FMOD_ERR_INVALID_HANDLE, 5, 5),
        Err(QueryError::Native(FmodError { code: FMOD_ERR_INVALID_HANDLE }))
    );
}

#[test]
fn mismatch_is_a_fault_not_a_native_error() {
    let e = fill_step(3, FMOD_OK, 2, 2).unwrap_err();
    assert!(e.is_mismatch());
    let e2 = fill_step(3, 13, 3, 3).unwrap_err();
    assert!(!e2.is_mismatch());
}

#[test]
fn string_query_discovery_reports_byte_length() {
    let s = String::from("abc");
    let (code, needed, bytes) = string_out(&s, 0);
    assert_eq!(code, FMOD_ERR_TRUNCATED);
    assert_eq!(needed, 4);
    assert!(bytes.is_empty());
    let (code2, echoed, filled) = string_out(&s, needed);
    assert_eq!(code2, FMOD_OK);
    assert_eq!(echoed, needed);
    assert_eq!(filled, vec![b'a', b'b', b'c', 0u8]);
}

#[test]
fn fetch_string_round_trips_text() {
    assert_eq!(fetch_string(&String::from("bank:/Test")).unwrap(), "bank:/Test");
    assert_eq!(fetch_string(&String::new()).unwrap(), "");
    assert_eq!(fetch_string(&String::from("snøhetta µ")).unwrap(), "snøhetta µ");
}

#[test]
fn list_query_counts_agree() {
    let items: Vec<usize> = vec![10, 11, 12];
    let (code, n) = count_out(&items);
    assert_eq!(code, FMOD_OK);
    assert_eq!(n, 3);
    let (code2, wrote, got) = list_out(&items, 3);
    assert_eq!(code2, FMOD_OK);
    assert_eq!(wrote, 3);
    assert_eq!(got, items);
    assert_eq!(fetch_list(&items).unwrap(), items);
}

#[test]
fn list_query_respects_capacity() {
    let items: Vec<usize> = vec![4, 5, 6];
    let (_, wrote, got) = list_out(&items, 2);
    assert_eq!(wrote, 2);
    assert_eq!(got, vec![4, 5]);
}

#[test]
fn marshal_rejects_interior_nul() {
    assert!(marshal_out("bank:/Vehicles").is_ok());
    let e = marshal_out("bad\0path").unwrap_err();
    assert_eq!(e.code(), fmod_studio::error::FMOD_ERR_INVALID_STRING);
}

#[test]
fn unmarshal_inverts_terminate() {
    let s = String::from("event:/UI/Cancel");
    let bytes = terminate(&s);
    assert_eq!(bytes.last(), Some(&0u8));
    assert_eq!(unmarshal_in(bytes).unwrap(), s);
}

#[test]
fn unmarshal_rejects_unterminated_buffers() {
    assert!(unmarshal_in(vec![]).is_none());
    assert!(unmarshal_in(vec![b'a', b'b']).is_none());
    assert!(unmarshal_in(vec![0xffu8, 0xffu8, 0u8]).is_none());
}

#[test]
fn userdata_insert_then_get_yields_payload() {
    let mut t = UserdataTable::new();
    let k = t.insert(77, 900);
    assert_eq!(t.get(k), Some(77));
}

#[test]
fn userdata_remove_then_get_is_absent() {
    let mut t = UserdataTable::new();
    let k = t.insert(5, 900);
    assert_eq!(t.remove(k), Some(5));
    assert_eq!(t.get(k), None);
    assert_eq!(t.remove(k), None);
}

#[test]
fn userdata_keys_are_never_shared() {
    let mut t = UserdataTable::new();
    let k1 = t.insert(1, 900);
    let k2 = t.insert(2, 901);
    let k3 = t.insert(3, 900);
    assert_ne!(k1, k2);
    assert_ne!(k2, k3);
    assert_ne!(k1, k3);
    assert_eq!(t.get(k1), Some(1));
    assert_eq!(t.get(k2), Some(2));
    assert_eq!(t.get(k3), Some(3));
}

#[test]
fn userdata_set_replaces_in_place() {
    let mut t = UserdataTable::new();
    let k = t.insert(1, 900);
    assert!(t.set(k, 9));
    assert_eq!(t.get(k), Some(9));
    assert!(!t.set(k + 1, 5));
    assert_eq!(t.get(k + 1), None);
}
