use guild_triggers::events::EventKind;
use guild_triggers::triggermanager::{GuildTriggerManager, TriggerManager};
use guild_triggers::triggers::Triggers;

fn s(x: &str) -> String {
    x.to_string()
}

#[test]
fn new_triggers_are_empty() {
    let t = Triggers::new();
    assert_eq!(t.rule_count(), 0);
    assert_eq!(t.get_rule(&s("a")), None);
    assert_eq!(t.get_event_script(EventKind::MemberJoin), None);
}

#[test]
fn upsert_replaces_script_and_keeps_other_guild() {
    let mut m = TriggerManager::new();
    m.put_rule(1, s("hi"), s("a"));
    m.put_rule(2, s("hi"), s("x"));
    m.put_rule(1, s("hi"), s("b"));
    assert_eq!(m.get_rule(1, &s("hi")), Some(s("b")));
    assert_eq!(m.get_rule(2, &s("hi")), Some(s("x")));
    assert_eq!(m.get_guild(1).unwrap().get_triggers().rule_count(), 1);
    assert_eq!(m.get_guild(2).unwrap().get_triggers().rule_count(), 1);
}

#[test]
fn remove_missing_rule_reports_not_found() {
    let mut m = TriggerManager::new();
    m.put_rule(1, s("hi"), s("a"));
    assert!(!m.delete_rule(1, &s("nope")));
    assert!(!m.delete_rule(2, &s("hi")));
    assert_eq!(m.get_guild(1).unwrap().get_triggers().rule_count(), 1);
    assert_eq!(m.get_rule(1, &s("hi")), Some(s("a")));
}

#[test]
fn remove_existing_rule_deletes_it() {
    let mut m = TriggerManager::new();
    m.put_rule(1, s("hi"), s("a"));
    m.put_rule(1, s("yo"), s("b"));
    assert!(m.delete_rule(1, &s("hi")));
    assert_eq!(m.get_rule(1, &s("hi")), None);
    assert_eq!(m.get_rule(1, &s("yo")), Some(s("b")));
    assert_eq!(m.get_guild(1).unwrap().get_triggers().rule_count(), 1);
}

#[test]
fn earlier_rule_wins() {
    let mut m = TriggerManager::new();
    m.put_rule(7, s("&hello"), s("first"));
    m.put_rule(7, s("hello"), s("second"));
    let hit = m.select_rule(7, "hello there").unwrap();
    assert_eq!(hit.index, 0);
    assert_eq!(hit.script, "first");
    assert_eq!(hit.result.matched, "hello");
    assert_eq!(hit.result.rest, " there");
}

#[test]
fn replacing_keeps_storage_order() {
    let mut m = TriggerManager::new();
    m.put_rule(7, s("&a"), s("one"));
    m.put_rule(7, s("&b"), s("two"));
    m.put_rule(7, s("&a"), s("three"));
    let hit = m.select_rule(7, "a b").unwrap();
    assert_eq!(hit.index, 0);
    assert_eq!(hit.script, "three");
}

#[test]
fn no_rule_matches() {
    let mut m = TriggerManager::new();
    m.put_rule(7, s("ping"), s("one"));
    assert!(m.select_rule(7, "pong").is_none());
    assert!(m.select_rule(8, "ping").is_none());
}

#[test]
fn invalid_stored_regex_never_matches() {
    let mut m = TriggerManager::new();
    m.put_rule(7, s("?("), s("broken"));
    m.put_rule(7, s("&("), s("fine"));
    let hit = m.select_rule(7, "(").unwrap();
    assert_eq!(hit.index, 1);
    assert_eq!(hit.script, "fine");
}

#[test]
fn event_scripts_per_guild() {
    let mut m = TriggerManager::new();
    m.put_event_script(1, EventKind::RoleCreate, s("a"));
    m.put_event_script(1, EventKind::RoleCreate, s("b"));
    m.put_event_script(2, EventKind::RoleCreate, s("c"));
    assert_eq!(m.get_event_script(1, EventKind::RoleCreate), Some(s("b")));
    assert_eq!(m.get_event_script(2, EventKind::RoleCreate), Some(s("c")));
    assert_eq!(m.get_event_script(1, EventKind::RoleDelete), None);
    assert!(m.delete_event_script(1, EventKind::RoleCreate));
    assert!(!m.delete_event_script(1, EventKind::RoleCreate));
    assert_eq!(m.get_event_script(1, EventKind::RoleCreate), None);
    assert_eq!(m.get_event_script(2, EventKind::RoleCreate), Some(s("c")));
}

#[test]
fn guild_manager_starts_empty() {
    let g = GuildTriggerManager::new(42);
    assert_eq!(g.get_guild_id(), 42);
    assert_eq!(g.get_triggers().rule_count(), 0);
    assert!(TriggerManager::new().get_guild(42).is_none());
}

#[test]
fn triggers_store_directly() {
    let mut t = Triggers::new();
    t.put_rule(s("&x"), s("1"));
    t.put_rule(s("&x"), s("2"));
    assert_eq!(t.rule_count(), 1);
    assert_eq!(t.get_rule(&s("&x")), Some(s("2")));
    assert!(t.delete_rule(&s("&x")));
    assert!(!t.delete_rule(&s("&x")));
    t.put_event_script(EventKind::VoiceUpdate, s("v"));
    assert_eq!(t.get_event_script(EventKind::VoiceUpdate), Some(s("v")));
    assert!(t.delete_event_script(EventKind::VoiceUpdate));
}
