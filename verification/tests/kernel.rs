use code_intel_kernel::kernel::{
    create_lsp_bridge, create_session_event, create_tree_sitter_extractor, open_kernel_database, AgentEventType,
    KernelProfile,
};

const PROFILES: [KernelProfile; 5] = [
    KernelProfile::Strict,
    KernelProfile::Standard,
    KernelProfile::Prototype,
    KernelProfile::Research,
    KernelProfile::Custom,
];

#[test]
fn profile_names_round_trip() {
    for profile in PROFILES {
        assert_eq!(KernelProfile::parse(profile.as_str()), Some(profile));
    }
}

#[test]
fn profile_names_are_the_documented_words() {
    let names: Vec<&str> = PROFILES.iter().map(|p| p.as_str()).collect();
    assert_eq!(names, vec!["strict", "standard", "prototype", "research", "custom"]);
}

#[test]
fn profile_parse_rejects_other_spellings() {
    assert_eq!(KernelProfile::parse("Strict"), None);
    assert_eq!(KernelProfile::parse(""), None);
    assert_eq!(KernelProfile::parse("strict "), None);
    assert_eq!(KernelProfile::parse("consumer"), None);
}

#[test]
fn session_event_id_carries_its_timestamp() {
    let event = create_session_event(
        AgentEventType::EvidenceCollected,
        Some("task-7".to_string()),
        "{\"files\":2}".to_string(),
        1_700_000_000_123,
    );
    assert_eq!(event.id, "event-1700000000123");
    assert_eq!(event.task_id.as_deref(), Some("task-7"));
    assert_eq!(event.event_type, AgentEventType::EvidenceCollected);
    assert_eq!(event.payload_json, "{\"files\":2}");
    assert_eq!(event.created_at_unix_ms, 1_700_000_000_123);
}

#[test]
fn session_event_at_the_epoch_and_at_the_largest_time() {
    assert_eq!(create_session_event(AgentEventType::TaskStarted, None, String::new(), 0).id, "event-0");
    let last = create_session_event(AgentEventType::DecisionRecorded, None, String::new(), u128::MAX);
    assert_eq!(last.id, format!("event-{}", u128::MAX));
}

#[test]
fn adapters_and_database_are_read_only_placeholders() {
    let lsp = create_lsp_bridge();
    assert_eq!(lsp.languages, vec!["typescript"]);
    assert_eq!(lsp.status, "placeholder");
    let tree_sitter = create_tree_sitter_extractor();
    assert_eq!(tree_sitter.languages, vec!["rust"]);
    assert_eq!(tree_sitter.status, "implemented in SymbolGraph-lite for top-level Rust facts");
    let database = open_kernel_database("kernel.db".to_string());
    assert_eq!(database.path, "kernel.db");
    assert!(database.read_only);
    assert_eq!(database.status, "placeholder");
}
