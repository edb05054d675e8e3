use slumber::init::{
    init_answer, init_target, plan_init, InitAgent, InitError, InitPlan, LEGACY_PROTOCOL, PROTOCOL,
    PROTOCOL_MARKER,
};

fn apply(existing: &str) -> String {
    match plan_init(existing) {
        InitPlan::Replace(text) => text,
        InitPlan::Append(text) => existing.to_owned() + &text,
        InitPlan::AlreadyPresent | InitPlan::Differs => existing.to_owned(),
    }
}

#[test]
fn init_is_idempotent() {
    let once = apply("# Existing instructions\n");
    let twice = apply(&once);
    assert_eq!(twice.matches(PROTOCOL_MARKER).count(), 1);
    assert_eq!(once, twice);
    assert_eq!(once, format!("# Existing instructions\n\n{PROTOCOL}"));
    assert_eq!(plan_init(&once), InitPlan::AlreadyPresent);
}

#[test]
fn append_separators() {
    assert_eq!(plan_init(""), InitPlan::Append(PROTOCOL.to_owned()));
    assert_eq!(plan_init("a"), InitPlan::Append(format!("\n\n{PROTOCOL}")));
    assert_eq!(plan_init("a\n"), InitPlan::Append(format!("\n{PROTOCOL}")));
}

#[test]
fn upgrades_the_legacy_contract_in_place() {
    let existing = format!("before\n{LEGACY_PROTOCOL}after\n");
    assert_eq!(plan_init(&existing), InitPlan::Replace(format!("before\n{PROTOCOL}after\n")));
}

#[test]
fn leaves_custom_contracts() {
    let custom = format!("{PROTOCOL_MARKER}\nmy own rules\n");
    assert_eq!(plan_init(&custom), InitPlan::Differs);
}

#[test]
fn chooses_the_file() {
    assert_eq!(init_target(Some("x.md"), Some(InitAgent::Codex)), Some("x.md".to_owned()));
    assert_eq!(init_target(None, Some(InitAgent::Codex)), Some("AGENTS.md".to_owned()));
    assert_eq!(init_target(None, None), None);
    assert_eq!(init_answer(" codex\n"), Ok("AGENTS.md".to_owned()));
    assert_eq!(init_answer("notes.md\n"), Ok("notes.md".to_owned()));
    assert_eq!(init_answer("  \n"), Err(InitError::NoSelection));
}
