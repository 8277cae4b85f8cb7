use alice::common::{greeting, MemoryImportance};

#[test]
fn greeting_builds_message() {
    assert_eq!(greeting("Rust"), "Hello, Rust!");
}

#[test]
fn common_importance_reads_unknown_as_medium() {
    for level in [
        MemoryImportance::Critical,
        MemoryImportance::High,
        MemoryImportance::Medium,
        MemoryImportance::Low,
    ] {
        assert_eq!(MemoryImportance::from_db(level.as_str()), level);
    }
    assert_eq!(MemoryImportance::from_db("whatever"), MemoryImportance::Medium);
    assert_eq!(MemoryImportance::Critical.as_str(), "critical");
}
