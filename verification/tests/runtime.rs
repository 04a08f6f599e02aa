use petsona::persona::{Persona, PersonaStore};
use petsona::runtime::{
    apply_persona_patch, create_persona, empty_to_none, greeting_due, normalize_provider,
    reset_persona, sanitize_deepseek_config, sanitize_greeting_config, sanitize_memory_config,
    state_server_failed, state_server_listening, state_server_step, GreetingConfig, MemoryConfig,
    PersonaCreate, PersonaPatch, ProviderSettings, RuntimeEngineError, RuntimeTextField,
    RuntimeTexts, StateServerStep,
};

const MINUTE: u64 = 60_000;

#[test]
fn greeting_due_respects_the_switch_idle_window_and_cooldown() {
    let now: u64 = 1_000 * 60 * MINUTE;
    let mut greeting = GreetingConfig {
        enabled: true,
        idle_minutes: 30,
        cooldown_minutes: 120,
        max_chars: 40,
    };
    let quiet = now - 31 * MINUTE;

    // Just used the app: nothing to greet.
    assert!(!greeting_due(&greeting, now, None, now));
    // Quiet past the threshold and never greeted: due.
    assert!(greeting_due(&greeting, quiet, None, now));
    // Greeted 10 minutes ago: the cooldown suppresses it.
    assert!(!greeting_due(&greeting, quiet, Some(now - 10 * MINUTE), now));
    // Last greeting three hours ago: due again.
    assert!(greeting_due(&greeting, quiet, Some(now - 180 * MINUTE), now));
    // Disabled: never due.
    greeting.enabled = false;
    assert!(!greeting_due(&greeting, quiet, None, now));
}

#[test]
fn zero_idle_minutes_still_waits_one_minute() {
    let g = GreetingConfig { enabled: true, idle_minutes: 0, cooldown_minutes: 0, max_chars: 40 };
    assert!(!greeting_due(&g, 0, None, MINUTE - 1));
    assert!(greeting_due(&g, 0, None, MINUTE));
    // A clock that went backwards counts as no idle time.
    assert!(!greeting_due(&g, 5 * MINUTE, None, 0));
}

#[test]
fn settings_are_forced_into_range() {
    let g = sanitize_greeting_config(GreetingConfig {
        enabled: true,
        idle_minutes: 0,
        cooldown_minutes: 99_999,
        max_chars: 5000,
    });
    assert_eq!((g.idle_minutes, g.cooldown_minutes, g.max_chars), (1, 1440, 200));
    let m = sanitize_memory_config(MemoryConfig {
        enabled: true,
        recent_events: 0,
        fact_limit: 999,
        fact_compress: true,
        event_retention_days: 7,
    });
    assert_eq!((m.recent_events, m.fact_limit, m.event_retention_days), (1, 50, 7));
    assert_eq!(sanitize_memory_config(m), m);
}

#[test]
fn only_two_providers_exist() {
    assert_eq!(normalize_provider("  Custom "), "custom");
    assert_eq!(normalize_provider("openai"), "deepseek");
    assert_eq!(normalize_provider(""), "deepseek");
}

#[test]
fn persona_patch_edits_the_given_fields() {
    let mut p = Persona::default();
    apply_persona_patch(
        &mut p,
        PersonaPatch {
            name: Some("新名字".to_string()),
            emoji: Some(true),
            greeting: Some("   ".to_string()),
            description: Some("ignored".to_string()),
            ..PersonaPatch::default()
        },
    );
    assert_eq!(p.name, "新名字");
    assert!(p.traits.emoji);
    assert_eq!(p.greeting, None);
    assert_eq!(p.description, Persona::default().description);
}

#[test]
fn blank_is_none() {
    assert_eq!(empty_to_none(" \n".to_string()), None);
    assert_eq!(empty_to_none(" x ".to_string()), Some(" x ".to_string()));
}

#[test]
fn creating_from_a_template_keeps_its_style() {
    let mut store = PersonaStore::new("p");
    store.ensure();
    let created = create_persona(
        &mut store,
        PersonaCreate { id: "g2".to_string(), name: "我的元气".to_string(), template: Some("genki".to_string()) },
    )
    .unwrap();
    assert_eq!(created.id, "g2");
    assert_eq!(created.name, "我的元气");
    assert!(!created.builtin);
    assert_eq!(created.traits.verbosity, "short");
    assert!(store.get("g2").is_some());
    // The same id again is refused.
    assert!(create_persona(
        &mut store,
        PersonaCreate { id: "g2".to_string(), name: "x".to_string(), template: None },
    )
    .is_err());
}

#[test]
fn reset_keeps_identity() {
    let mut p = Persona::new("mine", "我的");
    p.system_prompt = "custom".to_string();
    let reset = reset_persona(&p);
    assert_eq!(reset.id, "mine");
    assert_eq!(reset.name, "我的");
    assert_eq!(reset.system_prompt, Persona::default().system_prompt);
    assert!(!reset.builtin);
}

#[test]
fn texts_project_each_field() {
    let texts = RuntimeTexts {
        persona_id: "default".to_string(),
        models: "[]".to_string(),
        ..RuntimeTexts::default()
    };
    assert_eq!(texts.get(RuntimeTextField::PersonaId), "default");
    assert_eq!(texts.get(RuntimeTextField::Models), "[]");
    assert_eq!(texts.get(RuntimeTextField::Bubble), "");
}

#[test]
fn engine_errors_read_like_messages() {
    assert_eq!(RuntimeEngineError::Stopped.message(), "runtime engine has stopped");
    assert_eq!(
        RuntimeEngineError::Fault("boom".to_string()).message(),
        "runtime engine failed: boom"
    );
    assert_eq!(RuntimeEngineError::QueueClosed.message(), "runtime command queue is closed");
}

fn provider_defaults() -> ProviderSettings {
    ProviderSettings::defaults()
}

#[test]
fn shipped_provider_settings() {
    let d = ProviderSettings::defaults();
    assert_eq!((d.provider.as_str(), d.base_url.as_str()), ("deepseek", "https://api.deepseek.com/v1"));
    assert_eq!((d.model.as_str(), d.api_key_env.as_str()), ("deepseek-v4-flash", "DEEPSEEK_API_KEY"));
    assert_eq!((d.timeout_seconds, d.max_tokens, d.thinking_disabled), (30, 400, true));
}

#[test]
fn provider_settings_are_forced_into_range() {
    let edited = ProviderSettings {
        provider: "  CUSTOM ".to_string(),
        base_url: "   ".to_string(),
        model: "test-model".to_string(),
        api_key_env: String::new(),
        timeout_seconds: 1,
        max_tokens: 100_000,
        thinking_disabled: false,
    };
    let clean = sanitize_deepseek_config(edited);
    assert_eq!(clean.provider, "custom");
    assert_eq!(clean.base_url, "https://api.deepseek.com/v1");
    assert_eq!(clean.model, "test-model");
    assert_eq!(clean.api_key_env, "DEEPSEEK_API_KEY");
    assert_eq!(clean.timeout_seconds, 5);
    assert_eq!(clean.max_tokens, 4000);
    assert!(!clean.thinking_disabled);

    let other = ProviderSettings { provider: "openai".to_string(), timeout_seconds: 600, max_tokens: 1, ..provider_defaults() };
    let clean = sanitize_deepseek_config(other);
    assert_eq!(clean.provider, "deepseek");
    assert_eq!(clean.timeout_seconds, 120);
    assert_eq!(clean.max_tokens, 16);
}

#[test]
fn sanitising_provider_settings_twice_changes_nothing() {
    let edited = ProviderSettings {
        provider: "Custom".to_string(),
        base_url: String::new(),
        model: " ".to_string(),
        api_key_env: "KEY".to_string(),
        timeout_seconds: 9_999,
        max_tokens: 0,
        thinking_disabled: true,
    };
    let once = sanitize_deepseek_config(edited);
    let twice = sanitize_deepseek_config(
        ProviderSettings { provider: once.provider.clone(), base_url: once.base_url.clone(), model: once.model.clone(), api_key_env: once.api_key_env.clone(), ..once },
    );
    assert_eq!(twice.provider, "custom");
    assert_eq!(twice.base_url, "https://api.deepseek.com/v1");
    assert_eq!(twice.model, "deepseek-v4-flash");
    assert_eq!(twice.api_key_env, "KEY");
    assert_eq!((twice.timeout_seconds, twice.max_tokens), (120, 16));
}

#[test]
fn state_server_follows_the_settings() {
    let step = |stop, start, report_off| StateServerStep { stop, start, report_off };
    assert_eq!(state_server_step(true, 4000, None), step(false, true, false));
    assert_eq!(state_server_step(true, 4000, Some(4000)), step(false, false, false));
    assert_eq!(state_server_step(true, 4001, Some(4000)), step(true, true, false));
    assert_eq!(state_server_step(false, 4000, Some(4000)), step(true, false, true));
    assert_eq!(state_server_step(false, 4000, None), step(false, false, true));
    assert_eq!(state_server_listening(17321), "状态协议已监听 http://127.0.0.1:17321/state");
    assert_eq!(state_server_failed("port in use"), "状态协议启动失败：port in use");
}
