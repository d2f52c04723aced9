use shelly::memory::{Memory, MemoryEntry, MAX_JOURNAL_ENTRIES};

#[test]
fn test_memory_context() {
    let mut memory = Memory::new("Shelly".to_string());
    memory.add_observation("Test observation");
    memory.add_tool_result("test_tool", "result");

    let ctx = memory.context();
    assert!(ctx.contains("Shelly"));
    assert!(ctx.contains("observation"));
}

#[test]
fn test_memory_backward_compatible() {
    let mut memory = Memory::new("TestAgent".to_string());
    memory.add_system_info("hostname: test");
    memory.add_interaction("query", "response");
    memory.add_tool_result("tool", "output");
    memory.add_observation("note");
    memory.add_error("warning");
    memory.add_topology("network");

    let ctx = memory.context();
    assert!(ctx.contains("TestAgent"));
    assert!(ctx.contains("system"));
    assert!(ctx.contains("tool"));
    assert!(ctx.contains("network"));
}

#[test]
fn context_exact_layout() {
    let mut memory = Memory::new("Me".to_string());
    memory.add_topology("host-a");
    memory.add_topology("host-b");
    memory.add_system_info("linux");
    memory.add_interaction("q", "a");
    memory.add_tool_result("bash", "ok");
    memory.add_observation("seen");
    memory.add_error("bad");
    assert_eq!(
        memory.context(),
        "## Identity\nMe\n\n## Known Topology\nhost-a\nhost-b\n\n## Recent History\n- [system] linux\n- [user] q -> [response] a\n- [tool: bash] ok\n- [observation] seen\n- [error] bad"
    );
}

#[test]
fn context_of_empty_memory_is_empty() {
    let memory = Memory::default();
    assert_eq!(memory.context(), "");
    let mut memory = Memory::new(String::new());
    memory.add_observation("x");
    assert_eq!(memory.context(), "## Recent History\n- [observation] x");
}

#[test]
fn context_shows_last_ten_entries() {
    let mut memory = Memory::new("id".to_string());
    for i in 0..15 {
        memory.add_observation(&format!("o{}", i));
    }
    let ctx = memory.context();
    assert!(!ctx.contains("o4\n"));
    assert!(!ctx.ends_with("o4"));
    let expected: Vec<String> = (5..15).map(|i| format!("- [observation] o{}", i)).collect();
    assert!(ctx.ends_with(&expected.join("\n")));
}

#[test]
fn journal_keeps_the_last_hundred_in_order() {
    let mut memory = Memory::new("id".to_string());
    for i in 0..250 {
        memory.add_observation(&format!("e{}", i));
        assert!(memory.journal_entries().len() <= MAX_JOURNAL_ENTRIES);
    }
    let entries = memory.journal_entries();
    assert_eq!(entries.len(), 100);
    for (k, e) in entries.iter().enumerate() {
        match e {
            MemoryEntry::Observation(s) => assert_eq!(s, &format!("e{}", 150 + k)),
            other => panic!("unexpected {:?}", other),
        }
    }
}

#[test]
fn journal_below_capacity_keeps_everything() {
    let mut memory = Memory::new("id".to_string());
    for i in 0..100 {
        memory.add_error(&format!("w{}", i));
    }
    assert_eq!(memory.journal_entries().len(), 100);
    memory.set_identity("other");
    assert!(memory.context().starts_with("## Identity\nother"));
}

#[test]
fn entry_rendering() {
    assert_eq!(MemoryEntry::SystemInfo("s".to_string()).render(), "[system] s");
    assert_eq!(
        MemoryEntry::UserInteraction { query: "q".to_string(), response: "r".to_string() }.render(),
        "[user] q -> [response] r"
    );
    assert_eq!(MemoryEntry::ToolResult { tool: "t".to_string(), result: "r".to_string() }.render(), "[tool: t] r");
    assert_eq!(MemoryEntry::Observation("o".to_string()).render(), "[observation] o");
    assert_eq!(MemoryEntry::Error("e".to_string()).render(), "[error] e");
}

#[test]
fn memory_config_defaults() {
    let memory = Memory::new("id".to_string());
    let config = memory.config();
    assert_eq!(config.top_k, 5);
    assert_eq!(config.max_cognition_rounds, 3);
    assert_eq!(config.embedding_model, "default");
    assert!(config.storage_dir.ends_with(".shelly/memory"));
    let c = shelly::memory::MemoryConfig::with_home(Some("/home/u/".to_string()));
    assert_eq!(c.storage_dir, "/home/u/.shelly/memory");
    let c = shelly::memory::MemoryConfig::with_home(None);
    assert_eq!(c.storage_dir, ".shelly/memory");
}
