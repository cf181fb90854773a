use subagent_core::events::SubAgentEvent;
use subagent_core::strutil::u64_to_string;
use subagent_core::supervisor::OutputSupervisor;

#[test]
fn stops_on_first_tick_after_removal() {
    let mut sup = OutputSupervisor::new("s1".to_string(), "s1:t1".to_string());
    let (heartbeat, running) = sup.on_tick(false);
    assert!(heartbeat.is_none());
    assert!(!running);
    assert_eq!(sup.ticks, 0);
}

#[test]
fn stops_after_some_heartbeats_when_removed() {
    let mut sup = OutputSupervisor::new("s1".to_string(), "s1:t1".to_string());
    for _ in 0..5 {
        let (heartbeat, running) = sup.on_tick(true);
        assert!(heartbeat.is_some());
        assert!(running);
    }
    let (heartbeat, running) = sup.on_tick(false);
    assert!(heartbeat.is_none());
    assert!(!running);
}

#[test]
fn force_stops_after_thirty_ticks() {
    let mut sup = OutputSupervisor::new("s1".to_string(), "s1:t1".to_string());
    for k in 0..31u64 {
        let (heartbeat, running) = sup.on_tick(true);
        let event = heartbeat.expect("a heartbeat up to the cap");
        match event {
            SubAgentEvent::Heartbeat { session_id, subagent_id, message } => {
                assert_eq!(session_id, "s1");
                assert_eq!(subagent_id, "s1:t1");
                assert_eq!(message, format!("Sub-agent working... ({}s)", 2 * k));
            }
            other => panic!("expected a heartbeat event, got {:?}", other),
        }
        // The run continues only while the cap has not been reached.
        assert_eq!(running, k < 30);
    }
    // Past the cap: silent, stopped, no further heartbeat.
    let (heartbeat, running) = sup.on_tick(true);
    assert!(heartbeat.is_none());
    assert!(!running);
}

#[test]
fn first_heartbeat_reports_zero_seconds() {
    let mut sup = OutputSupervisor::new("s".to_string(), "s:t".to_string());
    let (heartbeat, _running) = sup.on_tick(true);
    match heartbeat.unwrap() {
        SubAgentEvent::Heartbeat { message, .. } => {
            assert_eq!(message, "Sub-agent working... (0s)");
        }
        other => panic!("expected a heartbeat event, got {:?}", other),
    }
}

#[test]
fn heartbeat_scope_is_session_output_channel() {
    let mut sup = OutputSupervisor::new("abc".to_string(), "abc:t".to_string());
    let (heartbeat, _running) = sup.on_tick(true);
    assert_eq!(heartbeat.unwrap().scope_key(), "output:abc");
}

#[test]
fn decimal_rendering_is_exact() {
    assert_eq!(u64_to_string(0), "0");
    assert_eq!(u64_to_string(7), "7");
    assert_eq!(u64_to_string(10), "10");
    assert_eq!(u64_to_string(60), "60");
    assert_eq!(u64_to_string(12345), "12345");
    assert_eq!(u64_to_string(u64::MAX), format!("{}", u64::MAX));
}
