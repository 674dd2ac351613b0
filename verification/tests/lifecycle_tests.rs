use tunnel_bridge::callback::{CallbackRegistry, RegisterError};
use tunnel_bridge::lifecycle::EngineRegistry;
use tunnel_bridge::runtime::HostRuntimeHandle;

#[test]
fn registry_fresh_not_running() {
    let reg: EngineRegistry<String> = EngineRegistry::new();
    assert!(!reg.is_running(0));
    assert!(!reg.is_running(7));
}

#[test]
fn registry_run_stop_round_trip() {
    let mut reg: EngineRegistry<String> = EngineRegistry::new();
    assert!(!reg.is_running(0));
    assert!(reg.run(0, "cfg".to_string()).is_ok());
    assert!(reg.is_running(0));
    assert_eq!(reg.stop(0), Some("cfg".to_string()));
    assert!(!reg.is_running(0));
}

#[test]
fn registry_stop_when_stopped_is_noop() {
    let mut reg: EngineRegistry<String> = EngineRegistry::new();
    assert_eq!(reg.stop(3), None);
    assert!(!reg.is_running(3));
}

#[test]
fn registry_second_run_rejected() {
    let mut reg: EngineRegistry<String> = EngineRegistry::new();
    assert!(reg.run(0, "first".to_string()).is_ok());
    // the second engine is handed back; the first instance is untouched
    assert_eq!(reg.run(0, "second".to_string()), Err("second".to_string()));
    assert!(reg.is_running(0));
    assert_eq!(reg.stop(0), Some("first".to_string()));
}

#[test]
fn registry_reload_swaps_in_place() {
    let mut reg: EngineRegistry<String> = EngineRegistry::new();
    assert!(reg.run(0, "old".to_string()).is_ok());
    // the superseded engine comes back for teardown
    assert_eq!(reg.reload(0, "new".to_string()), Ok("old".to_string()));
    assert!(reg.is_running(0));
    assert_eq!(reg.stop(0), Some("new".to_string()));
}

#[test]
fn registry_reload_when_stopped_rejected() {
    let mut reg: EngineRegistry<String> = EngineRegistry::new();
    assert_eq!(reg.reload(5, "new".to_string()), Err("new".to_string()));
    assert!(!reg.is_running(5));
}

#[test]
fn registry_distinct_handles_independent() {
    let mut reg: EngineRegistry<String> = EngineRegistry::new();
    assert!(reg.run(0, "tunnel".to_string()).is_ok());
    assert!(reg.run(1, "relay".to_string()).is_ok());
    assert!(reg.is_running(0));
    assert!(reg.is_running(1));
    assert_eq!(reg.stop(0), Some("tunnel".to_string()));
    assert!(!reg.is_running(0));
    assert!(reg.is_running(1));
    assert_eq!(reg.stop(1), Some("relay".to_string()));
}

#[test]
fn callback_unregistered_safe_default() {
    let reg: CallbackRegistry<i32> = CallbackRegistry::new();
    assert!(!reg.is_registered());
    assert!(!reg.should_invoke(true));
    // never blocks, never fails: the verdict is simply false
    assert!(!reg.protect_socket_verdict(true, None));
    assert!(!reg.protect_socket_verdict(true, Some(true)));
}

#[test]
fn callback_detached_safe_default() {
    let mut reg: CallbackRegistry<i32> = CallbackRegistry::new();
    reg.register(7, "protect".to_string()).unwrap();
    assert!(!reg.should_invoke(false));
    assert!(!reg.protect_socket_verdict(false, Some(true)));
}

#[test]
fn callback_verdict_follows_host_answer() {
    let mut reg: CallbackRegistry<i32> = CallbackRegistry::new();
    reg.register(7, "protect".to_string()).unwrap();
    assert!(reg.should_invoke(true));
    assert!(reg.protect_socket_verdict(true, Some(true)));
    assert!(!reg.protect_socket_verdict(true, Some(false)));
    // a host-side failure falls back to the safe default
    assert!(!reg.protect_socket_verdict(true, None));
}

#[test]
fn callback_register_releases_prior() {
    let mut reg: CallbackRegistry<i32> = CallbackRegistry::new();
    assert!(matches!(reg.register(1, "first".to_string()), Ok(None)));
    let prior = reg.register(2, "second".to_string()).unwrap().unwrap();
    // the old registration is handed back for release
    assert_eq!(prior.target, 1);
    assert_eq!(prior.method_name, "first");
    let current = reg.registration().unwrap();
    assert_eq!(current.target, 2);
    assert_eq!(current.method_name, "second");
}

#[test]
fn callback_empty_name_leaves_state_untouched() {
    let mut reg: CallbackRegistry<i32> = CallbackRegistry::new();
    reg.register(1, "first".to_string()).unwrap();
    assert!(matches!(
        reg.register(2, "".to_string()),
        Err(RegisterError::EmptyMethodName)
    ));
    let current = reg.registration().unwrap();
    assert_eq!(current.target, 1);
    assert_eq!(current.method_name, "first");
}

#[test]
fn callback_unregister_idempotent() {
    let mut reg: CallbackRegistry<i32> = CallbackRegistry::new();
    reg.register(1, "m".to_string()).unwrap();
    let released = reg.unregister().unwrap();
    assert_eq!(released.target, 1);
    assert!(reg.unregister().is_none());
    assert!(!reg.is_registered());
}

#[test]
fn runtime_attach_once_detach_idempotent() {
    let mut rt: HostRuntimeHandle<u64> = HostRuntimeHandle::new();
    assert!(!rt.is_attached());
    assert!(rt.attach(42).is_ok());
    assert!(rt.is_attached());
    assert_eq!(rt.attached(), Some(&42));
    // a second attach is rejected and hands the runtime back
    assert_eq!(rt.attach(43), Err(43));
    assert_eq!(rt.attached(), Some(&42));
    assert_eq!(rt.detach(), Some(42));
    assert!(!rt.is_attached());
    assert_eq!(rt.detach(), None);
}
