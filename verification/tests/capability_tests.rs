use mirust::capability::{
    CapabilityState, LoadInfo, NegotiateError, UnloadReason, unload_response,
};

fn raw(major: u32, minor: u32) -> LoadInfo {
    LoadInfo {
        m_version: (minor << 16) | major,
        m_hwnd: 42,
        m_keep: true,
        m_unicode: false,
        m_beta: 123,
        m_bytes: 20480,
    }
}

#[test]
fn first_negotiation_succeeds_second_fails() {
    let mut st = CapabilityState::new();
    let first = st.negotiate(raw(7, 64)).unwrap();
    let second = st.negotiate(raw(6, 35));
    assert_eq!(second, Err(NegotiateError::AlreadyNegotiated));
    // The stored record is still the first call's result.
    assert_eq!(st.get_loadinfo(0), first);
}

#[test]
fn modern_host_keeps_its_fields() {
    let mut st = CapabilityState::new();
    let rec = st.negotiate(raw(7, 64)).unwrap();
    assert_eq!(rec.m_version, (64 << 16) | 7);
    assert!(rec.m_unicode);
    assert_eq!(rec.m_beta, 123);
    assert_eq!(rec.m_bytes, 20480);
    assert!(rec.m_keep);
    assert_eq!(rec.m_hwnd, 42);
}

#[test]
fn beta_needs_7_51() {
    let mut st = CapabilityState::new();
    let rec = st.negotiate(raw(7, 50)).unwrap();
    assert_eq!(rec.m_beta, 0);
    let mut st = CapabilityState::new();
    let rec = st.negotiate(raw(7, 51)).unwrap();
    assert_eq!(rec.m_beta, 123);
}

#[test]
fn bytes_need_7_64() {
    let mut st = CapabilityState::new();
    let rec = st.negotiate(raw(7, 63)).unwrap();
    assert_eq!(rec.m_bytes, 900);
    let mut st = CapabilityState::new();
    let rec = st.negotiate(raw(8, 0)).unwrap();
    assert_eq!(rec.m_bytes, 20480);
}

#[test]
fn old_host_gets_narrow_mode_and_legacy_limits() {
    // A host reporting packed major 0, minor 8 is really 5.80: narrow mode,
    // no beta versioning, the legacy 900-byte buffer limit.
    let mut st = CapabilityState::new();
    let rec = st.negotiate(raw(0, 8)).unwrap();
    assert_eq!(rec.m_version & 0xFFFF, 5);
    assert_eq!((rec.m_version >> 16) & 0xFFFF, 80);
    assert!(!rec.m_unicode);
    assert_eq!(rec.m_beta, 0);
    assert_eq!(rec.m_bytes, 900);
}

#[test]
fn reader_before_negotiation_locks_in_default() {
    let mut st = CapabilityState::new();
    let rec = st.get_loadinfo(7);
    assert_eq!(rec.m_version, (60 << 16) | 5);
    assert_eq!(rec.m_hwnd, 7);
    assert!(!rec.m_keep);
    assert!(!rec.m_unicode);
    assert_eq!(rec.m_beta, 0);
    assert_eq!(rec.m_bytes, 900);
    // The default is locked in: a later negotiation is refused, and later
    // readers see the same record.
    assert!(st.negotiate(raw(7, 64)).is_err());
    assert_eq!(st.get_loadinfo(999), rec);
}

#[test]
fn mirc_result_carries_code_and_texts() {
    let r = mirust::MircResult {
        code: 3,
        data: Some(String::from("data")),
        parms: None,
    };
    assert_eq!(r.code, 3);
    assert_eq!(r.data.as_deref(), Some("data"));
    assert!(r.parms.is_none());
}

#[test]
fn unload_refuses_only_the_idle_timeout() {
    assert_eq!(unload_response(UnloadReason::ManualUnload), 0);
    // Nonzero on the idle-timeout reason signals "refuse to unload".
    assert_ne!(unload_response(UnloadReason::Timeout), 0);
    assert_eq!(unload_response(UnloadReason::Exit), 0);
}
