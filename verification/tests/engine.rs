use petsona::deepseek::{MemorySecretStore, SecretStore};
use petsona::engine::{
    fallback_greeting, next_wait, EngineSnapshot, IDLE_WORKER_WAIT_MS, EngineAction, EngineCommand, MemoryScope, PetsonaRuntime, RuntimeSettings,
    WindowSwitch, WindowSwitches,
};
use petsona::memory::{EventKind, PetMemory};
use petsona::persona::{Persona, PersonaStore, DEFAULT_GREETING};
use petsona::runtime::{GreetingConfig, MemoryConfig, PersonaCreate};
use petsona::string_map::StringMap;

fn settings(active_persona: Option<&str>, bindings: Vec<(String, String)>) -> RuntimeSettings {
    RuntimeSettings {
        switches: WindowSwitches {
            click_through: false,
            auto_walk: false,
            gravity_enabled: true,
            always_on_top: true,
        },
        memory_config: MemoryConfig {
            enabled: true,
            recent_events: 10,
            fact_limit: 20,
            fact_compress: true,
            event_retention_days: 0,
        },
        greeting_config: GreetingConfig {
            enabled: true,
            idle_minutes: 30,
            cooldown_minutes: 120,
            max_chars: 40,
        },
        active_persona: active_persona.map(|s| s.to_string()),
        persona_by_pet: StringMap::from_pairs(bindings),
    }
}

fn runtime_with_pet() -> PetsonaRuntime {
    PetsonaRuntime::load(
        PersonaStore::new("personas"),
        PetMemory::new("memory.json"),
        settings(Some("default"), Vec::new()),
        Some("test_fixture_v2".to_string()),
        Some("测试宠物".to_string()),
        0,
    )
}

#[test]
fn first_load_binds_the_active_persona_to_the_active_pet() {
    let runtime = runtime_with_pet();
    assert_eq!(runtime.persona.id, "default");
    assert_eq!(runtime.persona_by_pet.get("test_fixture_v2").as_deref(), Some("default"));
    assert_eq!(runtime.active_persona.as_deref(), Some("default"));
    let events = runtime.memory.recent_events("default", 10);
    assert_eq!(events.len(), 1);
    assert_eq!(events[0].kind, EventKind::AppStart);
    assert_eq!(events[0].text.as_deref(), Some("Petsona 启动：测试宠物"));
}

#[test]
fn speaking_style_is_bound_to_the_pet_and_restored_after_restart() {
    let mut runtime = runtime_with_pet();
    let (go, action) = runtime.apply_command(
        EngineCommand::CreatePersona(PersonaCreate {
            id: "stylish".to_string(),
            name: "有型".to_string(),
            template: None,
        }),
        10,
    );
    assert!(go);
    assert!(matches!(action, Some(EngineAction::SaveConfig { .. })));
    let (_, action) = runtime.apply_command(EngineCommand::SelectPersona("stylish".to_string()), 20);
    assert!(matches!(action, Some(EngineAction::SaveConfig { failure_prefix: None })));
    assert_eq!(runtime.persona.id, "stylish");
    assert_eq!(runtime.status, "已切换人格：有型");
    assert_eq!(runtime.persona_by_pet.get("test_fixture_v2").as_deref(), Some("stylish"));

    // Restart with a stale active persona: the pet's binding wins.
    let pairs = runtime.persona_by_pet.pairs().clone();
    let restarted = PetsonaRuntime::load(
        PersonaStore::from_listing("personas", runtime.personas.list()),
        PetMemory::new("memory.json"),
        settings(Some("default"), pairs),
        Some("test_fixture_v2".to_string()),
        None,
        0,
    );
    assert_eq!(restarted.persona.id, "stylish");
}

#[test]
fn a_new_pet_adopts_a_copy_of_the_current_style() {
    let mut runtime = runtime_with_pet();
    runtime.bind_pet("boba".to_string(), Some("波霸".to_string()));
    assert_eq!(runtime.persona.id, "boba");
    assert_eq!(runtime.persona.name, "波霸");
    assert!(!runtime.persona.builtin);
    assert!(runtime.personas.get("boba").is_some());
    assert_eq!(runtime.persona_by_pet.get("boba").as_deref(), Some("boba"));
    // Back to the first pet: its own persona comes back.
    runtime.bind_pet("test_fixture_v2".to_string(), None);
    assert_eq!(runtime.persona.id, "default");
    // Removing a pet drops only its binding.
    let action = runtime.pet_deleted("boba", false, None);
    assert!(matches!(action, EngineAction::SaveConfig { failure_prefix: None }));
    assert!(runtime.persona_by_pet.get("boba").is_none());
    assert!(runtime.personas.get("boba").is_some());
    assert_eq!(runtime.status, "已删除 boba");
}

#[test]
fn native_settings_commands_ask_for_a_config_write() {
    let mut runtime = runtime_with_pet();
    let (_, action) = runtime.apply_command(EngineCommand::SetSwitch(WindowSwitch::ClickThrough, true), 1);
    assert!(runtime.switches.click_through);
    match action {
        Some(EngineAction::SaveConfig { failure_prefix }) => {
            assert_eq!(failure_prefix.as_deref(), Some("保存点击穿透设置失败："))
        }
        other => panic!("unexpected {other:?}"),
    }
    runtime.apply_command(EngineCommand::SetVisibility(false), 2);
    assert!(!runtime.pet_visible);
    let (go, action) = runtime.apply_command(EngineCommand::Stop, 3);
    assert!(!go);
    assert!(action.is_none());
}

#[test]
fn memory_edit_scoped_clear_and_export_round_trip() {
    let mut runtime = runtime_with_pet();
    runtime.apply_command(
        EngineCommand::RememberFact { key: " 咖啡 ".to_string(), value: " 美式 ".to_string(), confidence: None },
        1,
    );
    assert_eq!(runtime.status, "已保存一条用户偏好");
    let facts = runtime.memory.list_facts("default");
    assert_eq!(facts.len(), 1);
    assert_eq!((facts[0].key.as_str(), facts[0].value.as_str(), facts[0].confidence), ("咖啡", "美式", 800));

    runtime.apply_command(
        EngineCommand::UpdateFact {
            id: facts[0].id.clone(),
            key: "咖啡".to_string(),
            value: "拿铁".to_string(),
            confidence: Some(5000),
        },
        2,
    );
    assert_eq!(runtime.status, "已更新这条记忆偏好");
    assert_eq!(runtime.memory.list_facts("default")[0].confidence, 1000);

    let export = runtime.export_memory();
    assert_eq!((export.facts.len(), export.events.len()), (1, 1));
    runtime.memory_exported(export.facts.len(), export.events.len());
    assert_eq!(runtime.status, "已导出记忆：1 条偏好 / 1 条事件");

    runtime.apply_command(EngineCommand::ClearMemoryScope(MemoryScope::Facts), 3);
    assert_eq!(runtime.status, "已清空 1 条偏好（事件保留）");
    assert!(runtime.memory.list_facts("default").is_empty());
    runtime.import_memory(export);
    assert_eq!(runtime.status, "已导入记忆：1 条偏好 / 1 条事件（覆盖当前人格）");
    assert_eq!(runtime.memory.list_facts("default")[0].value, "拿铁");
    assert_eq!(runtime.memory.recent_events("default", 10).len(), 1);
    runtime.apply_command(EngineCommand::ClearMemoryScope(MemoryScope::Events), 4);
    assert_eq!(runtime.status, "已清空 1 条互动事件（偏好保留）");
    runtime.apply_command(EngineCommand::ForgetFact("nope".to_string()), 5);
    assert_eq!(runtime.status, "记忆偏好不存在");
}

#[test]
fn list_models_publishes_the_provider_catalog() {
    let mut runtime = runtime_with_pet();
    let (_, action) = runtime.apply_command(EngineCommand::ListModels, 1);
    assert!(matches!(action, Some(EngineAction::RequestModels)));
    assert_eq!(runtime.status, "正在拉取模型列表…");
    // A second request while one runs does nothing.
    let (_, action) = runtime.apply_command(EngineCommand::ListModels, 2);
    assert!(action.is_none());
    runtime.apply_command(
        EngineCommand::ModelsResult(Ok(vec!["deepseek-v4".to_string(), "deepseek-v4-flash".to_string()])),
        3,
    );
    assert_eq!(runtime.models.len(), 2);
    assert_eq!(runtime.status, "已拉取 2 个模型");
    runtime.apply_command(EngineCommand::ModelsResult(Err("offline".to_string())), 4);
    assert_eq!(runtime.status, "拉取模型列表失败：offline（可手动填写模型名）");
    runtime.apply_command(EngineCommand::ListModels, 5);
    runtime.apply_command(EngineCommand::ModelsResult(Ok(Vec::new())), 6);
    assert_eq!(runtime.status, "服务商没有返回任何模型；请手动填写模型名");
}

#[test]
fn greeting_result_shows_a_bubble_and_records_memory() {
    let mut runtime = runtime_with_pet();
    let (_, action) = runtime.apply_command(EngineCommand::GreetingResult(Ok("早上好呀。".to_string())), 1000);
    assert!(matches!(action, Some(EngineAction::Wave)));
    let bubble = runtime.bubble.as_ref().expect("bubble");
    assert_eq!(bubble.text, "早上好呀。");
    assert_eq!(bubble.until_ms, 9000);
    let events = runtime.memory.recent_events("default", 10);
    assert_eq!(events.last().unwrap().text.as_deref(), Some("早上好呀。"));

    // No key / network error falls back to the persona line.
    runtime.apply_command(EngineCommand::GreetingResult(Err("no api key configured".to_string())), 2000);
    let expected = fallback_greeting(&Persona::default());
    assert_eq!(expected, DEFAULT_GREETING);
    assert_eq!(runtime.bubble.as_ref().unwrap().text, expected);
    assert_eq!(runtime.status, "no api key configured");
}

#[test]
fn a_message_is_recorded_learned_and_sent_with_history() {
    let mut runtime = runtime_with_pet();
    let (_, action) = runtime.apply_command(EngineCommand::SendConversation("我喜欢安静的音乐。".to_string()), 50);
    match action {
        Some(EngineAction::RequestReply { history, text, context }) => {
            assert_eq!(history, "用户：我喜欢安静的音乐。");
            assert_eq!(text, "我喜欢安静的音乐。");
            assert_eq!(context.facts.len(), 1);
        }
        other => panic!("unexpected {other:?}"),
    }
    assert!(runtime.conversation_inflight);
    assert_eq!(runtime.last_user_action, 50);
    assert_eq!(runtime.status, "已从对话记录一条用户偏好");
    assert_eq!(runtime.memory.list_facts("default")[0].value, "安静的音乐");
    // While the reply is pending, another message starts nothing.
    let (_, action) = runtime.apply_command(EngineCommand::SendConversation("还在吗".to_string()), 60);
    assert!(action.is_none());
    runtime.apply_command(EngineCommand::ConversationResult(Ok("在的".to_string())), 70);
    assert!(!runtime.conversation_inflight);
    assert_eq!(runtime.conversation_history.len(), 2);
    assert_eq!(runtime.bubble.as_ref().unwrap().text, "在的");
}

#[test]
fn history_sent_with_a_message_is_the_last_six_turns() {
    let mut runtime = runtime_with_pet();
    for i in 0..4 {
        runtime.apply_command(EngineCommand::SendConversation(format!("问{i}")), i);
        runtime.apply_command(EngineCommand::ConversationResult(Ok(format!("答{i}"))), i);
    }
    match runtime.apply_command(EngineCommand::SendConversation("最后".to_string()), 9).1 {
        Some(EngineAction::RequestReply { history, .. }) => {
            assert_eq!(history, "宠物：答1\n用户：问2\n宠物：答2\n用户：问3\n宠物：答3\n用户：最后");
        }
        other => panic!("unexpected {other:?}"),
    }
}

#[test]
fn idle_greeting_is_requested_once_when_due() {
    let mut runtime = runtime_with_pet();
    assert!(runtime.request_greeting(true, 10 * 60_000).is_none());
    let due = 31 * 60_000;
    assert!(runtime.request_greeting(false, due).is_none());
    match runtime.request_greeting(true, due) {
        Some(EngineAction::RequestGreeting { max_chars, .. }) => assert_eq!(max_chars, 40),
        other => panic!("unexpected {other:?}"),
    }
    assert!(runtime.greeting_inflight);
    assert!(runtime.request_greeting(true, due + 1).is_none());
}

#[test]
fn deleting_the_active_persona_falls_back_to_the_default() {
    let mut runtime = runtime_with_pet();
    runtime.apply_command(
        EngineCommand::CreatePersona(PersonaCreate { id: "tmp".to_string(), name: "临时".to_string(), template: None }),
        1,
    );
    assert_eq!(runtime.persona.id, "tmp");
    let (_, action) = runtime.apply_command(EngineCommand::DeletePersona("tmp".to_string()), 2);
    assert!(action.is_some());
    assert_eq!(runtime.persona.id, "default");
    assert_eq!(runtime.status, "已删除人格：tmp");
    runtime.apply_command(EngineCommand::DeletePersona("default".to_string()), 3);
    assert_eq!(runtime.status, "删除人格失败：the default persona cannot be deleted");
    runtime.apply_command(
        EngineCommand::CreatePersona(PersonaCreate { id: "default".to_string(), name: "x".to_string(), template: None }),
        4,
    );
    assert_eq!(runtime.status, "创建人格失败：人格 'default' 已存在");
}

#[test]
fn expired_bubble_is_dropped() {
    let mut runtime = runtime_with_pet();
    runtime.apply_command(EngineCommand::ShowBubble { text: "hi".to_string(), ttl_ms: 100 }, 1000);
    runtime.expire_bubble(1099);
    assert!(runtime.bubble.is_some());
    runtime.expire_bubble(1100);
    assert!(runtime.bubble.is_none());
}

#[test]
fn clearing_a_conflict_clears_only_its_status() {
    let mut runtime = runtime_with_pet();
    runtime.status = "本地已有同 ID 宠物，等待确认是否覆盖".to_string();
    runtime.apply_command(EngineCommand::ClearImportConflict, 1);
    assert_eq!(runtime.status, "");
    runtime.status = "别的消息".to_string();
    runtime.apply_command(EngineCommand::ClearImportConflict, 2);
    assert_eq!(runtime.status, "别的消息");
}

#[test]
fn provider_keys_are_saved_per_provider() {
    let mut runtime = runtime_with_pet();
    let mut store = MemorySecretStore::new();
    runtime.save_deepseek_key("custom", " sk ", &mut store);
    assert_eq!(runtime.status, "custom 密钥已保存到系统凭据库");
    assert_eq!(store.get("provider/custom").unwrap().as_deref(), Some("sk"));
    runtime.save_deepseek_key("custom", "", &mut store);
    assert_eq!(runtime.status, "已清除 custom 的凭据");
}

#[test]
fn projected_texts_carry_persona_bubble_and_status() {
    let mut runtime = runtime_with_pet();
    let quiet = runtime.projected_texts();
    assert_eq!(quiet.persona_id, "default");
    assert_eq!(quiet.persona_name, runtime.persona.name);
    assert_eq!(quiet.bubble, "");
    assert_eq!((quiet.error.as_str(), quiet.status.as_str()), ("", ""));
    runtime.show_bubble("你好".to_string(), 100, 8_000);
    runtime.status = "已保存".to_string();
    let texts = runtime.projected_texts();
    assert_eq!(texts.bubble, "你好");
    assert_eq!(texts.error, "已保存");
    assert_eq!(texts.status, "已保存");
    assert_eq!(texts.pets, "");
}

#[test]
fn a_tick_requests_a_due_greeting_and_drops_an_expired_bubble() {
    let mut runtime = runtime_with_pet();
    runtime.apply_command(EngineCommand::ShowBubble { text: "hi".to_string(), ttl_ms: 100 }, 1000);
    assert!(runtime.tick(true, 1050).is_none());
    assert!(runtime.bubble.is_some());
    let due = 31 * 60_000;
    match runtime.tick(true, due) {
        Some(EngineAction::RequestGreeting { .. }) => {}
        other => panic!("unexpected {other:?}"),
    }
    assert!(runtime.bubble.is_none());
    assert_eq!(runtime.last_greeting_at, Some(due));
    assert!(runtime.tick(true, due + 60 * 60_000).is_none());
}

#[test]
fn the_worker_waits_for_the_next_frame_within_bounds() {
    assert_eq!(next_wait(false, Some(16)), IDLE_WORKER_WAIT_MS);
    assert_eq!(next_wait(true, None), IDLE_WORKER_WAIT_MS);
    assert_eq!(next_wait(true, Some(16)), 16);
    assert_eq!(next_wait(true, Some(0)), 1);
    assert_eq!(next_wait(true, Some(60_000)), 1000);
}

#[test]
fn a_foreign_file_is_not_imported_as_memory() {
    let mut runtime = runtime_with_pet();
    let mut bundle = runtime.export_memory();
    bundle.kind = "other".to_string();
    runtime.import_memory(bundle);
    assert_eq!(runtime.status, "导入记忆失败：记忆导出文件的 kind 字段不匹配");
    assert_eq!(runtime.memory.recent_events("default", 10).len(), 1);
    runtime.report_failure("导出记忆失败：", "disk full");
    assert_eq!(runtime.status, "导出记忆失败：disk full");
}

#[test]
fn the_snapshot_reports_the_runtime_and_an_idle_wait_without_a_pet() {
    let runtime = runtime_with_pet();
    let idle = runtime.snapshot(7, None);
    assert!(idle.ready && !idle.faulted);
    assert_eq!(idle.revision, 7);
    assert!(!idle.has_pet);
    assert!(idle.pet_visible);
    assert_eq!(idle.next_frame_ms, 1000);
    assert!(idle.gravity_enabled && idle.always_on_top && !idle.click_through && !idle.auto_walk);
    assert_eq!(idle.conversation_history_len, 0);
    let shown = runtime.snapshot(8, Some(16));
    assert!(shown.has_pet);
    assert_eq!(shown.next_frame_ms, 16);
    assert_eq!(runtime.snapshot(9, Some(0)).next_frame_ms, 1);
    let fault = EngineSnapshot::fault();
    assert!(fault.ready && fault.faulted && fault.next_frame_ms == 1000);
}

#[test]
fn deleting_the_shown_pet_keeps_its_persona_and_moves_to_the_next() {
    let mut runtime = runtime_with_pet();
    let (_, action) = runtime.apply_command(
        EngineCommand::PetRemoved { id: "test_fixture_v2".to_string(), next: Some("boba".to_string()) },
        1,
    );
    assert!(matches!(action, Some(EngineAction::SaveConfig { failure_prefix: None })));
    assert_eq!(runtime.status, "已删除 test_fixture_v2");
    assert_eq!(runtime.selected_pet.as_deref(), Some("boba"));
    assert_eq!(runtime.persona_by_pet.get("test_fixture_v2"), None);
    assert_eq!(runtime.persona.id, "default");
    assert!(runtime.personas.get("default").is_some());
    runtime.apply_command(EngineCommand::PetRemoved { id: "other".to_string(), next: None }, 2);
    assert_eq!(runtime.selected_pet.as_deref(), Some("boba"));
}

#[test]
fn selecting_a_pet_follows_or_creates_its_binding() {
    let mut runtime = runtime_with_pet();
    let (_, action) = runtime.apply_command(
        EngineCommand::PetLoaded { id: "boba".to_string(), display_name: Some("波霸".to_string()) },
        1,
    );
    assert!(action.is_none());
    assert_eq!(runtime.selected_pet.as_deref(), Some("boba"));
    assert_eq!(runtime.persona.id, "boba");
    assert_eq!(runtime.persona.name, "波霸");
    assert_eq!(runtime.persona_by_pet.get("boba").as_deref(), Some("boba"));
    runtime.apply_command(
        EngineCommand::PetLoaded { id: "test_fixture_v2".to_string(), display_name: None },
        2,
    );
    assert_eq!(runtime.persona.id, "default");
}
