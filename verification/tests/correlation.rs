use subagent_core::engine::monitor_for_subagents;
use subagent_core::events::{raw_line_emissions, SubAgentEvent};
use subagent_core::json::{parse_line, JsonVal};
use subagent_core::registry::SubAgentRegistry;

const START_LINE: &str = r#"{"type":"assistant","message":{"content":[{"type":"tool_use","id":"t1","name":"Task","input":{"description":"Build X","subagent_type":"coder"}}]}}"#;
const COMPLETE_LINE: &str = r#"{"type":"user","message":{"content":[{"type":"tool_result","tool_use_id":"t1","content":"done"}]}}"#;
const COMPLETE_T2_LINE: &str = r#"{"type":"user","message":{"content":[{"type":"tool_result","tool_use_id":"t2","content":"done"}]}}"#;

#[test]
fn start_line_registers_and_emits() {
    let mut registry = SubAgentRegistry::new();
    let (events, sups) = monitor_for_subagents(&mut registry, "s1", START_LINE);

    let record = registry.get_subagent("s1:t1").expect("record should exist");
    assert_eq!(record.parent_session_id, "s1");
    assert_eq!(record.tool_id, "t1");
    assert_eq!(record.task_description, "Build X");
    assert_eq!(record.subagent_type.as_deref(), Some("coder"));
    assert_eq!(record.process_id, None);
    assert!(record.output_buffer.is_empty());

    assert_eq!(events.len(), 1);
    match &events[0] {
        SubAgentEvent::Started { session_id, subagent_id, tool_id, description, subagent_type, prompt } => {
            assert_eq!(session_id, "s1");
            assert_eq!(subagent_id, "s1:t1");
            assert_eq!(tool_id, "t1");
            assert_eq!(description, "Build X");
            assert_eq!(subagent_type.as_deref(), Some("coder"));
            assert_eq!(prompt.as_deref(), None);
        }
        other => panic!("expected a started event, got {:?}", other),
    }
    assert_eq!(events[0].scope_key(), "started:s1");

    assert_eq!(sups.len(), 1);
    assert_eq!(sups[0].session_id, "s1");
    assert_eq!(sups[0].subagent_id, "s1:t1");
    assert_eq!(sups[0].ticks, 0);
}

#[test]
fn completion_line_removes_and_emits() {
    let mut registry = SubAgentRegistry::new();
    monitor_for_subagents(&mut registry, "s1", START_LINE);
    let (events, sups) = monitor_for_subagents(&mut registry, "s1", COMPLETE_LINE);

    assert!(registry.get_subagent("s1:t1").is_none());
    assert_eq!(events.len(), 1);
    match &events[0] {
        SubAgentEvent::Completed { session_id, subagent_id, tool_id, result } => {
            assert_eq!(session_id, "s1");
            assert_eq!(subagent_id, "s1:t1");
            assert_eq!(tool_id, "t1");
            match result {
                JsonVal::Str(s) => assert_eq!(s, "done"),
                other => panic!("expected the result payload \"done\", got {:?}", other),
            }
        }
        other => panic!("expected a completed event, got {:?}", other),
    }
    assert_eq!(events[0].scope_key(), "complete:s1");
    assert!(sups.is_empty());
}

#[test]
fn unmatched_completion_does_nothing() {
    let mut registry = SubAgentRegistry::new();
    monitor_for_subagents(&mut registry, "s1", START_LINE);
    let (events, sups) = monitor_for_subagents(&mut registry, "s1", COMPLETE_T2_LINE);

    assert!(events.is_empty());
    assert!(sups.is_empty());
    assert!(registry.get_subagent("s1:t1").is_some());
    assert!(registry.get_subagent("s1:t2").is_none());
}

#[test]
fn unparseable_line_does_nothing() {
    let mut registry = SubAgentRegistry::new();
    let (events, sups) = monitor_for_subagents(&mut registry, "s1", "not a protocol line");
    assert!(events.is_empty());
    assert!(sups.is_empty());
    assert!(registry.get_subagent("s1:t1").is_none());
}

#[test]
fn non_matching_line_does_nothing() {
    let mut registry = SubAgentRegistry::new();
    let (events, sups) = monitor_for_subagents(
        &mut registry,
        "s1",
        r#"{"type":"system","message":{"content":[{"type":"text","text":"hello"}]}}"#,
    );
    assert!(events.is_empty());
    assert!(sups.is_empty());
}

#[test]
fn several_task_items_each_register() {
    let mut registry = SubAgentRegistry::new();
    let line = r#"{"type":"assistant","message":{"content":[
        {"type":"tool_use","id":"a","name":"Task","input":{"description":"first"}},
        {"type":"tool_use","id":"b","name":"Grep","input":{}},
        {"type":"tool_use","id":"c","name":"Task","input":{"description":"second","prompt":"do it"}}
    ]}}"#;
    let (events, sups) = monitor_for_subagents(&mut registry, "s9", line);

    assert_eq!(events.len(), 2);
    assert_eq!(sups.len(), 2);
    assert!(registry.get_subagent("s9:a").is_some());
    assert!(registry.get_subagent("s9:b").is_none());
    assert!(registry.get_subagent("s9:c").is_some());
    match &events[1] {
        SubAgentEvent::Started { subagent_id, prompt, description, .. } => {
            assert_eq!(subagent_id, "s9:c");
            assert_eq!(description, "second");
            assert_eq!(prompt.as_deref(), Some("do it"));
        }
        other => panic!("expected a started event, got {:?}", other),
    }
}

#[test]
fn missing_fields_take_defaults() {
    let mut registry = SubAgentRegistry::new();
    let line = r#"{"type":"assistant","message":{"content":[{"type":"tool_use","name":"Task"}]}}"#;
    let (events, _sups) = monitor_for_subagents(&mut registry, "s1", line);

    let record = registry.get_subagent("s1:unknown").expect("defaulted id should exist");
    assert_eq!(record.tool_id, "unknown");
    assert_eq!(record.task_description, "Unknown task");
    assert_eq!(record.subagent_type, None);
    match &events[0] {
        SubAgentEvent::Started { subagent_id, description, .. } => {
            assert_eq!(subagent_id, "s1:unknown");
            assert_eq!(description, "Unknown task");
        }
        other => panic!("expected a started event, got {:?}", other),
    }
}

#[test]
fn parse_line_reads_structure() {
    let doc = parse_line(r#"{"type":"assistant","count":3}"#).expect("line should parse");
    match &doc {
        JsonVal::Obj(fields) => {
            assert_eq!(fields.len(), 2);
            let ty = doc.field("type").expect("field should exist");
            match ty {
                JsonVal::Str(s) => assert_eq!(s, "assistant"),
                other => panic!("expected a string value, got {:?}", other),
            }
            let count = doc.field("count").expect("field should exist");
            match count {
                JsonVal::Num(s) => assert_eq!(s, "3"),
                other => panic!("expected a number value, got {:?}", other),
            }
        }
        other => panic!("expected an object, got {:?}", other),
    }
    assert!(parse_line("{broken").is_none());
}

#[test]
fn raw_lines_fan_out_to_both_channels() {
    let out = raw_line_emissions("s1", "hello", false);
    assert_eq!(out.len(), 2);
    assert_eq!(out[0].0, "output:s1");
    assert_eq!(out[0].1, "hello");
    assert_eq!(out[1].0, "output");
    assert_eq!(out[1].1, "hello");

    let err = raw_line_emissions("s1", "oops", true);
    assert_eq!(err[0].0, "error:s1");
    assert_eq!(err[1].0, "error");
    assert_eq!(err[1].1, "oops");
}
