use petsona::memory::{
    humanize_ago, now_ms, retention_expired, EventKind, MemoryError, MemoryExport, PetMemory,
    FACT_SOURCE_COMPRESSED, FACT_SOURCE_MANUAL, MAX_EVENTS, MAX_FACTS, MEMORY_EXPORT_KIND,
};
use petsona::preference::extract_preference;

const DAY: i64 = 24 * 60 * 60 * 1000;

#[test]
fn facts_upsert_and_clear() {
    let mut memory = PetMemory::new("memory.json");
    memory.remember_fact("default", "咖啡", "美式", 1000);
    memory.remember_fact("default", "咖啡", "拿铁", 900);
    let facts = memory.list_facts("default");
    assert_eq!(facts.len(), 1);
    assert_eq!(facts[0].value, "拿铁");
    memory.forget_fact("default", &facts[0].id);
    assert!(memory.list_facts("default").is_empty());
}

#[test]
fn events_and_context_round_trip() {
    let mut memory = PetMemory::new("memory.json");
    memory.record_event("default", EventKind::AppStart, Some("启动".to_string()));
    memory.record_event("default", EventKind::UserClick, None);
    let context = memory.build_greeting_context("default", 5, 20);
    assert_eq!(context.recent_events.len(), 2);
    assert!(context.render(now_ms()).contains("最近互动"));
}

#[test]
fn edit_and_scoped_clears_keep_the_other_half() {
    let mut memory = PetMemory::new("memory.json");
    memory.remember_fact("default", "咖啡", "美式", 1000);
    memory.record_event("default", EventKind::UserClick, None);

    let fact = memory.list_facts("default").remove(0);
    let updated = memory
        .update_fact("default", &fact.id, "咖啡", "拿铁", 500)
        .expect("fact is updated in place");
    assert_eq!(updated.id, fact.id, "editing keeps the fact identity");
    assert_eq!(updated.created_at, fact.created_at);
    assert_eq!(updated.value, "拿铁");

    // Clearing facts keeps events and vice versa.
    assert_eq!(memory.clear_facts("default"), 1);
    assert!(memory.list_facts("default").is_empty());
    assert_eq!(memory.recent_events("default", 10).len(), 1);
    assert_eq!(memory.clear_events("default"), 1);
    assert!(memory.recent_events("default", 10).is_empty());

    // Editing a fact that no longer exists reports "none" instead of failing.
    assert!(memory.update_fact("default", &fact.id, "咖啡", "摩卡", 500).is_none());
}

#[test]
fn retention_prunes_only_expired_events() {
    let mut memory = PetMemory::new("memory.json");
    let now = 1_700_000_000_000;
    memory.record_event_at("default", EventKind::AppStart, Some("新".to_string()), "e1".to_string(), now);
    memory.record_event_at(
        "default",
        EventKind::UserClick,
        Some("旧".to_string()),
        "e2".to_string(),
        now - 10 * DAY,
    );
    assert_eq!(memory.prune_events_at("default", 3, now), 1);
    let events = memory.recent_events("default", 10);
    assert_eq!(events.len(), 1);
    assert_eq!(events[0].text.as_deref(), Some("新"));
    // 0 days = keep everything.
    assert_eq!(memory.prune_events_at("default", 0, now + 100 * DAY), 0);
    assert_eq!(memory.recent_events("default", 10).len(), 1);
}

#[test]
fn compression_folds_old_facts_into_a_profile() {
    let mut memory = PetMemory::new("memory.json");
    let now = 1_700_000_000_000;
    memory.remember_fact_from_at("default", "咖啡", "美式", 900, FACT_SOURCE_MANUAL, "f1".to_string(), now - 3 * DAY);
    memory.remember_fact_from_at("default", "茶", "乌龙", 900, FACT_SOURCE_MANUAL, "f2".to_string(), now - 2 * DAY);
    memory.remember_fact_from_at("default", "音乐", "爵士", 900, FACT_SOURCE_MANUAL, "f3".to_string(), now - DAY);

    assert_eq!(memory.compress_facts_at("default", 2, "p1".to_string(), now), 1);
    let facts = memory.list_facts("default");
    assert_eq!(facts.len(), 3, "2 kept + 1 profile");
    let profile = facts.iter().find(|fact| fact.key == "画像").unwrap();
    assert_eq!(profile.source, FACT_SOURCE_COMPRESSED);
    assert!(profile.value.contains("咖啡：美式"), "{}", profile.value);
    assert!(!facts.iter().any(|fact| fact.key == "咖啡"));

    // Compressing again folds into the same profile instead of duplicating it.
    assert_eq!(memory.compress_facts_at("default", 2, "p2".to_string(), now + 1), 1);
    let facts = memory.list_facts("default");
    assert_eq!(facts.iter().filter(|fact| fact.key == "画像").count(), 1);
}

#[test]
fn export_then_import_round_trips_one_persona() {
    let mut memory = PetMemory::new("memory.json");
    memory.remember_fact("default", "咖啡", "美式", 1000);
    memory.record_event("default", EventKind::AppStart, Some("启动".to_string()));
    memory.remember_fact("other", "茶", "乌龙", 800);

    let export = memory.export_persona("default");

    // Wipe, then import: facts and events come back, other personas untouched.
    memory.clear_persona("default");
    assert!(memory.list_facts("default").is_empty());
    let (facts, events) = memory.import_persona("default", export).unwrap();
    assert_eq!((facts, events), (1, 1));
    assert_eq!(memory.list_facts("default")[0].value, "美式");
    assert_eq!(memory.recent_events("default", 10).len(), 1);
    assert_eq!(memory.list_facts("other")[0].value, "乌龙");

    // A foreign bundle is rejected with a readable error.
    let foreign = MemoryExport {
        kind: "other".to_string(),
        version: 1,
        persona_id: "x".to_string(),
        facts: Vec::new(),
        events: Vec::new(),
    };
    let error = memory.import_persona("default", foreign).unwrap_err();
    assert_eq!(error, MemoryError::NotAnExport);
    assert!(!error.message().is_empty());
}

#[test]
fn export_carries_kind_and_persona() {
    let memory = PetMemory::new("memory.json");
    let bundle = memory.export_persona("nobody");
    assert_eq!(bundle.kind, MEMORY_EXPORT_KIND);
    assert_eq!(bundle.persona_id, "nobody");
    assert!(bundle.facts.is_empty() && bundle.events.is_empty());
}

#[test]
fn questions_are_never_stored_as_preferences() {
    assert_eq!(extract_preference("我叫什么？"), None);
    assert_eq!(extract_preference("我叫什么"), None);
    assert_eq!(extract_preference("我的名字是什么"), None);
    assert_eq!(extract_preference("我喜欢什么"), None);
    assert_eq!(extract_preference("请叫我什么？"), None);
    assert_eq!(extract_preference("What is my name?"), None);
    assert_eq!(extract_preference("我叫小明吗"), None);
    // Real statements still work.
    assert_eq!(
        extract_preference("我叫小明"),
        Some(("称呼".to_string(), "小明".to_string(), 900))
    );
}

#[test]
fn extracts_only_explicit_preferences() {
    assert_eq!(
        extract_preference("我喜欢安静的音乐。"),
        Some(("喜欢".to_string(), "安静的音乐".to_string(), 900))
    );
    assert_eq!(
        extract_preference("Call me Book!"),
        Some(("称呼".to_string(), "Book".to_string(), 900))
    );
    assert!(extract_preference("今天感觉不错").is_none());
}

#[test]
fn event_log_keeps_only_the_newest_events() {
    let mut memory = PetMemory::new("memory.json");
    for i in 0..(MAX_EVENTS + 5) {
        memory.record_event_at("p", EventKind::UserClick, None, format!("e{i}"), i as i64);
    }
    let events = memory.recent_events("p", 1000);
    assert_eq!(events.len(), MAX_EVENTS);
    assert_eq!(events[0].id, "e5");
    assert_eq!(events[MAX_EVENTS - 1].id, format!("e{}", MAX_EVENTS + 4));
}

#[test]
fn fact_list_keeps_the_newest_facts_sorted() {
    let mut memory = PetMemory::new("memory.json");
    for i in 0..(MAX_FACTS + 3) {
        memory.remember_fact_from_at("p", &format!("k{i}"), "v", 500, FACT_SOURCE_MANUAL, format!("f{i}"), i as i64);
    }
    let facts = memory.list_facts("p");
    assert_eq!(facts.len(), MAX_FACTS);
    assert_eq!(facts[0].key, format!("k{}", MAX_FACTS + 2));
    assert!(facts.windows(2).all(|pair| pair[0].updated_at >= pair[1].updated_at));
}

#[test]
fn upsert_matches_keys_ignoring_ascii_case() {
    let mut memory = PetMemory::new("memory.json");
    memory.remember_fact_from_at("p", "Coffee", "black", 500, FACT_SOURCE_MANUAL, "a".to_string(), 1);
    let second = memory.remember_fact_from_at("p", "coffee", "latte", 700, FACT_SOURCE_MANUAL, "b".to_string(), 2);
    assert_eq!(second.id, "a");
    assert_eq!(second.key, "Coffee");
    assert_eq!(memory.list_facts("p").len(), 1);
}

#[test]
fn retention_window_formula() {
    assert!(!retention_expired(0, 10 * DAY, 0));
    assert!(!retention_expired(0, 3 * DAY, 3));
    assert!(retention_expired(0, 3 * DAY + 1, 3));
    assert!(!retention_expired(5 * DAY, 0, 1));
}

#[test]
fn humanized_times() {
    let now = 10 * DAY;
    assert!(!humanize_ago(now, now).is_empty());
    assert_ne!(humanize_ago(now, now), humanize_ago(now, now - 2 * DAY));
}

#[test]
fn clearing_a_persona_forgets_everything_else_stays() {
    let mut memory = PetMemory::new("memory.json");
    memory.remember_fact("a", "k", "v", 500);
    memory.remember_fact("b", "k", "v", 500);
    memory.clear_persona("a");
    assert!(memory.list_facts("a").is_empty());
    assert_eq!(memory.list_facts("b").len(), 1);
}

#[test]
fn event_labels_are_human_readable() {
    assert_eq!(EventKind::AppStart.label(), "应用启动");
    assert_eq!(EventKind::PetGreeting.label(), "宠物主动问候");
}
