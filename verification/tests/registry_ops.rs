use subagent_core::registry::SubAgentRegistry;

#[test]
fn register_then_get_returns_matching_record() {
    let mut registry = SubAgentRegistry::new();
    let id = registry.register_subagent(
        "sess".to_string(),
        "tool7".to_string(),
        "index the corpus".to_string(),
        Some("researcher".to_string()),
    );
    assert_eq!(id, "sess:tool7");

    let record = registry.get_subagent(&id).expect("record should exist");
    assert_eq!(record.parent_session_id, "sess");
    assert_eq!(record.tool_id, "tool7");
    assert_eq!(record.task_description, "index the corpus");
    assert_eq!(record.subagent_type.as_deref(), Some("researcher"));
    assert_eq!(record.process_id, None);
    assert!(record.output_buffer.is_empty());
}

#[test]
fn distinct_tool_ids_never_collide() {
    let mut registry = SubAgentRegistry::new();
    let a = registry.register_subagent(
        "s".to_string(),
        "t1".to_string(),
        "one".to_string(),
        None,
    );
    let b = registry.register_subagent(
        "s".to_string(),
        "t2".to_string(),
        "two".to_string(),
        None,
    );
    assert_ne!(a, b);
    assert_eq!(registry.get_subagent(&a).unwrap().task_description, "one");
    assert_eq!(registry.get_subagent(&b).unwrap().task_description, "two");
}

#[test]
fn reregistration_overwrites() {
    let mut registry = SubAgentRegistry::new();
    registry.register_subagent("s".to_string(), "t".to_string(), "old".to_string(), None);
    registry.register_subagent("s".to_string(), "t".to_string(), "new".to_string(), None);
    let record = registry.get_subagent("s:t").unwrap();
    assert_eq!(record.task_description, "new");
}

#[test]
fn add_output_appends_only_when_present() {
    let mut registry = SubAgentRegistry::new();
    registry.register_subagent("s".to_string(), "t".to_string(), "work".to_string(), None);

    registry.add_output("s:t", "line one".to_string());
    registry.add_output("s:t", "line two".to_string());
    registry.add_output("s:absent", "dropped".to_string());

    let record = registry.get_subagent("s:t").unwrap();
    assert_eq!(record.output_buffer, vec!["line one".to_string(), "line two".to_string()]);
    assert!(registry.get_subagent("s:absent").is_none());
}

#[test]
fn get_returns_snapshot_not_alias() {
    let mut registry = SubAgentRegistry::new();
    registry.register_subagent("s".to_string(), "t".to_string(), "work".to_string(), None);
    let mut snapshot = registry.get_subagent("s:t").unwrap();
    snapshot.output_buffer.push("local only".to_string());
    let fresh = registry.get_subagent("s:t").unwrap();
    assert!(fresh.output_buffer.is_empty());
}

#[test]
fn remove_is_idempotent() {
    let mut registry = SubAgentRegistry::new();
    registry.register_subagent("s".to_string(), "t".to_string(), "work".to_string(), None);
    registry.remove_subagent("s:t");
    assert!(registry.get_subagent("s:t").is_none());
    registry.remove_subagent("s:t");
    registry.remove_subagent("never registered");
    assert!(registry.get_subagent("s:t").is_none());
}
