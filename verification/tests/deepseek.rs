use petsona::deepseek::{
    api_key_present, api_key_slot, clean_greeting, client_api_key, completion_from_body,
    completion_text, payload_model_ids,
    endpoint_url, greeting_prompt, greeting_prompt_at, key_candidates, model_ids_from,
    parse_model_ids, reply_prompt_at, resolve_api_key, save_api_key, sends_thinking,
    CredentialError, MemorySecretStore, SecretStore, LEGACY_KEY_SLOT, PROVIDER_CUSTOM,
    PROVIDER_DEEPSEEK,
};
use petsona::memory::{EventKind, Fact, GreetingContext, MemoryEvent};
use petsona::persona::Persona;

#[test]
fn cleans_quotes_and_limits_length() {
    assert_eq!(clean_greeting("“你好呀”", 40), "你好呀");
    assert!(clean_greeting(&"啊".repeat(100), 10).ends_with('…'));
}

#[test]
fn parses_and_sorts_model_ids() {
    let payload = r#"{
            "object": "list",
            "data": [
                { "id": "deepseek-v4-flash" },
                { "id": " deepseek-v4 " },
                { "id": "deepseek-v4-flash" },
                { "id": "" },
                { "name": "no-id" }
            ]
        }"#;
    assert_eq!(
        parse_model_ids(payload),
        Ok(vec!["deepseek-v4".to_string(), "deepseek-v4-flash".to_string()])
    );
    // Unexpected shapes must not panic, they just yield nothing.
    assert_eq!(parse_model_ids(r#"{"data": "nope"}"#), Ok(Vec::new()));
    assert_eq!(parse_model_ids("{}"), Ok(Vec::new()));
}

#[test]
fn a_models_body_that_is_not_json_is_an_error() {
    let message = parse_model_ids("<html>").unwrap_err();
    assert!(message.starts_with("model list was not JSON: "), "{message}");
    assert_eq!(payload_model_ids(&Some(vec![Some(" b ".to_string()), None, Some("a".to_string())])), vec!["a", "b"]);
    assert!(payload_model_ids(&None).is_empty());
}

#[test]
fn completion_bodies_give_the_cleaned_reply() {
    let body = r#"{"choices":[{"message":{"content":"  “早上好！”  "}}]}"#;
    assert_eq!(completion_from_body(body, 200), Ok("早上好！".to_string()));
    assert_eq!(
        completion_from_body(r#"{"choices":[]}"#, 200),
        Err("DeepSeek returned an empty greeting".to_string())
    );
    let message = completion_from_body("not json", 200).unwrap_err();
    assert!(message.starts_with("DeepSeek response was not JSON: "), "{message}");
}

#[test]
fn clearing_covers_every_readable_slot() {
    assert_eq!(
        key_candidates(PROVIDER_DEEPSEEK),
        vec!["provider/deepseek", LEGACY_KEY_SLOT]
    );
    assert_eq!(key_candidates(PROVIDER_CUSTOM), vec!["provider/custom"]);
}

#[test]
fn api_key_slots_are_per_provider() {
    assert_eq!(api_key_slot(PROVIDER_DEEPSEEK), "provider/deepseek");
    assert_eq!(api_key_slot(PROVIDER_CUSTOM), "provider/custom");
    // An unknown provider must never invent a third slot.
    assert_eq!(api_key_slot("openai"), "provider/deepseek");
}

#[test]
fn credential_presence_supports_injected_empty_and_populated_stores() {
    let empty = MemorySecretStore::new();
    assert!(!api_key_present(None, PROVIDER_CUSTOM, &empty));

    let mut populated = MemorySecretStore::new();
    populated.set("provider/custom", "test-only-placeholder").unwrap();
    assert!(api_key_present(None, PROVIDER_CUSTOM, &populated));
}

#[test]
fn environment_key_wins_unless_blank() {
    let empty = MemorySecretStore::new();
    assert!(api_key_present(Some("sk-env"), PROVIDER_DEEPSEEK, &empty));
    assert!(!api_key_present(Some("   "), PROVIDER_DEEPSEEK, &empty));
    let resolved = resolve_api_key("DEEPSEEK_API_KEY", Some("sk-env".to_string()), PROVIDER_DEEPSEEK, &empty);
    assert_eq!(resolved.unwrap(), "sk-env");
}

#[test]
fn legacy_slot_still_counts_for_deepseek_only() {
    let mut store = MemorySecretStore::new();
    store.set(LEGACY_KEY_SLOT, "old-key").unwrap();
    assert!(api_key_present(None, PROVIDER_DEEPSEEK, &store));
    assert!(!api_key_present(None, PROVIDER_CUSTOM, &store));
    let resolved = resolve_api_key("DEEPSEEK_API_KEY", None, PROVIDER_DEEPSEEK, &store);
    assert_eq!(resolved.unwrap(), "old-key");
}

#[test]
fn saving_trims_and_clearing_drops_every_slot() {
    let mut store = MemorySecretStore::new();
    store.set(LEGACY_KEY_SLOT, "old-key").unwrap();
    save_api_key(PROVIDER_DEEPSEEK, "  sk-new  ", &mut store).unwrap();
    assert_eq!(store.get("provider/deepseek").unwrap().as_deref(), Some("sk-new"));
    // Clearing drops the legacy slot too, so nothing is found any more.
    save_api_key(PROVIDER_DEEPSEEK, "   ", &mut store).unwrap();
    assert_eq!(store.get("provider/deepseek").unwrap(), None);
    assert_eq!(store.get(LEGACY_KEY_SLOT).unwrap(), None);
    assert!(!api_key_present(None, PROVIDER_DEEPSEEK, &store));
}

#[test]
fn switching_providers_keeps_the_other_key() {
    let mut store = MemorySecretStore::new();
    save_api_key(PROVIDER_DEEPSEEK, "sk-deepseek", &mut store).unwrap();
    save_api_key(PROVIDER_CUSTOM, "sk-custom", &mut store).unwrap();
    save_api_key(PROVIDER_CUSTOM, "", &mut store).unwrap();
    assert_eq!(store.get("provider/deepseek").unwrap().as_deref(), Some("sk-deepseek"));
    assert!(!api_key_present(None, PROVIDER_CUSTOM, &store));
}

#[test]
fn missing_key_names_the_variable() {
    let store = MemorySecretStore::new();
    match resolve_api_key("MY_KEY", None, PROVIDER_CUSTOM, &store) {
        Err(CredentialError::ProviderNotConfigured(hint)) => {
            assert_eq!(hint, "set MY_KEY or save a key in the OS keychain")
        }
        other => panic!("unexpected {other:?}"),
    }
}

#[test]
fn model_catalog_is_trimmed_sorted_and_unique() {
    let raw = vec![
        "b".to_string(),
        " a ".to_string(),
        "".to_string(),
        "b".to_string(),
        "  ".to_string(),
    ];
    assert_eq!(model_ids_from(&raw), vec!["a".to_string(), "b".to_string()]);
}

#[test]
fn greeting_takes_the_first_non_blank_line() {
    assert_eq!(clean_greeting("\n\n  早上好！\n第二行", 40), "早上好！");
    assert_eq!(clean_greeting("\"你好\"", 40), "你好");
    assert_eq!(clean_greeting("一二三四五", 3), "一二三…");
}

#[test]
fn thinking_field_is_deepseek_only() {
    assert!(sends_thinking(true, PROVIDER_DEEPSEEK));
    assert!(
        !sends_thinking(true, PROVIDER_CUSTOM),
        "custom endpoints must not receive the thinking field"
    );
    assert!(!sends_thinking(false, PROVIDER_DEEPSEEK));
}

fn context_with_memory() -> GreetingContext {
    GreetingContext {
        facts: vec![Fact {
            id: "f1".to_string(),
            key: "咖啡".to_string(),
            value: "美式".to_string(),
            confidence: 1000,
            created_at: 0,
            updated_at: 0,
            source: "manual".to_string(),
        }],
        recent_events: vec![MemoryEvent {
            id: "e1".to_string(),
            kind: EventKind::UserClick,
            text: None,
            created_at: 0,
        }],
        last_seen_at: None,
        last_greeting_at: None,
    }
}

fn empty_context() -> GreetingContext {
    GreetingContext { facts: vec![], recent_events: vec![], last_seen_at: None, last_greeting_at: None }
}

#[test]
fn greeting_prompt_lists_time_trigger_state_and_memory() {
    let persona = Persona::default();
    let (system, user) =
        greeting_prompt_at(&persona, &context_with_memory(), "idle", "09:00", Some("珍珠"), "idle", 30_000);
    assert!(system.starts_with(&persona.effective_system_prompt(Some("珍珠"), Some("idle"))));
    assert!(system.ends_with("不要编造没有出现在记忆里的信息。"));
    assert!(user.starts_with("当前时间：09:00\n触发原因：idle\n宠物状态：idle\n\n记忆：\n【你记得关于用户的事情】\n- 咖啡：美式"));
    assert!(user.contains("刚刚"));
    assert!(user.ends_with("\n\n请生成一句中文问候，通常不超过 30 个汉字。只输出问候本身。"));
}

#[test]
fn empty_memory_leaves_no_memory_block() {
    let persona = Persona::default();
    let (_, user) = greeting_prompt_at(&persona, &empty_context(), "click", "10:30", None, "idle", 0);
    assert_eq!(
        user,
        "当前时间：10:30\n触发原因：click\n宠物状态：idle\n\n请生成一句中文问候，通常不超过 30 个汉字。只输出问候本身。"
    );
    assert!(greeting_prompt(&persona, &empty_context(), "click", "10:30", None, "idle").is_some());
}

#[test]
fn reply_prompt_carries_message_and_trimmed_history() {
    let persona = Persona::default();
    let (system, user) = reply_prompt_at(
        &persona,
        &empty_context(),
        "  用户：你好\n宠物：你好呀  ",
        "今天做什么？",
        "12:00",
        None,
        "sleep",
        0,
    );
    assert!(system.ends_with("通常不超过 120 个汉字。"));
    assert_eq!(
        user,
        "当前时间：12:00\n宠物状态：sleep\n用户消息：今天做什么？\n\n最近对话：\n用户：你好\n宠物：你好呀\n\n请直接回复用户，不要输出 Markdown 标题或动作描述。"
    );
    let (_, no_history) = reply_prompt_at(&persona, &empty_context(), "   ", "hi", "12:00", None, "sleep", 0);
    assert!(!no_history.contains("最近对话"));
}

#[test]
fn a_blank_key_is_refused_and_a_padded_one_trimmed() {
    match client_api_key("   ") {
        Err(CredentialError::ProviderNotConfigured(message)) => {
            assert_eq!(message, "DeepSeek API key is empty")
        }
        _ => panic!("a blank key must be refused"),
    }
    assert_eq!(client_api_key("  sk-test \n").ok(), Some("sk-test".to_string()));
}

#[test]
fn completion_text_is_cleaned_or_refused_when_blank() {
    assert_eq!(completion_text(Some("  “早上好！”  "), 200), Ok("早上好！".to_string()));
    assert_eq!(completion_text(Some("早上好！\n第二行"), 200), Ok("早上好！".to_string()));
    assert_eq!(completion_text(Some(" \n "), 200), Err("DeepSeek returned an empty greeting".to_string()));
    assert_eq!(completion_text(None, 200), Err("DeepSeek returned an empty greeting".to_string()));
    assert_eq!(completion_text(Some("你好呀朋友"), 2), Ok("你好…".to_string()));
}

#[test]
fn endpoints_drop_trailing_slashes_of_the_base() {
    assert_eq!(
        endpoint_url("https://api.deepseek.com//", "/chat/completions"),
        "https://api.deepseek.com/chat/completions"
    );
    assert_eq!(endpoint_url("http://127.0.0.1:8080/v1", "/models"), "http://127.0.0.1:8080/v1/models");
    assert_eq!(endpoint_url("", "/models"), "/models");
}
