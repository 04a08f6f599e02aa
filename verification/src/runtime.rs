//! Runtime settings and decisions: greeting and memory settings and their
//! sanitising, the idle-greeting rule, persona edits made from the settings
//! page, and the text projection read by native frontends.
use vstd::prelude::*;

use crate::deepseek::{PROVIDER_CUSTOM, PROVIDER_DEEPSEEK};
use crate::persona::{
    default_persona, first_with_id, new_persona, opt_string_view, other_ids, sort_by_name,
    template, templates_spec, validation_error, Persona, PersonaError, PersonaStore, PersonaView,
};
use crate::text::{
    append_chars, append_str, chars_of, decimal, decimal_chars, eq_ignore_ascii_case,
    eq_ignore_ascii_case_spec, owned, string_from_chars, trim, trim_spec,
};

verus! {

/// Idle greeting settings.
#[derive(Debug, Clone, Copy, PartialEq, Eq, Structural)]
pub struct GreetingConfig {
    pub enabled: bool,
    /// Minutes the user must have been quiet before the pet greets.
    pub idle_minutes: u32,
    /// Minutes that must pass between two greetings.
    pub cooldown_minutes: u32,
    /// Longest greeting, in characters.
    pub max_chars: usize,
}

/// Memory settings.
#[derive(Debug, Clone, Copy, PartialEq, Eq, Structural)]
pub struct MemoryConfig {
    pub enabled: bool,
    /// How many recent events a greeting sees.
    pub recent_events: usize,
    /// How many facts are kept before older ones are folded.
    pub fact_limit: usize,
    /// Fold facts beyond `fact_limit` into one profile fact.
    pub fact_compress: bool,
    /// Days events are kept (0 = forever).
    pub event_retention_days: u32,
}

pub open spec fn clamp_u32(v: u32, low: u32, high: u32) -> u32 {
    if v < low {
        low
    } else if v > high {
        high
    } else {
        v
    }
}

pub open spec fn clamp_usize(v: usize, low: usize, high: usize) -> usize {
    if v < low {
        low
    } else if v > high {
        high
    } else {
        v
    }
}

fn clamp_u32_exec(v: u32, low: u32, high: u32) -> (r: u32)
    requires
        low <= high,
    ensures
        r == clamp_u32(v, low, high),
{
    if v < low {
        low
    } else if v > high {
        high
    } else {
        v
    }
}

fn clamp_usize_exec(v: usize, low: usize, high: usize) -> (r: usize)
    requires
        low <= high,
    ensures
        r == clamp_usize(v, low, high),
{
    if v < low {
        low
    } else if v > high {
        high
    } else {
        v
    }
}

/// Greeting settings forced into their ranges: idle 1 minute to 1 day,
/// cooldown up to 1 day, 1 to 200 characters.
pub open spec fn sanitized_greeting(c: GreetingConfig) -> GreetingConfig {
    GreetingConfig {
        enabled: c.enabled,
        idle_minutes: clamp_u32(c.idle_minutes, 1, 1440),
        cooldown_minutes: clamp_u32(c.cooldown_minutes, 0, 1440),
        max_chars: clamp_usize(c.max_chars, 1, 200),
    }
}

/// Force greeting settings into their ranges.
pub fn sanitize_greeting_config(config: GreetingConfig) -> (r: GreetingConfig)
    ensures
        r == sanitized_greeting(config),
{
    GreetingConfig {
        enabled: config.enabled,
        idle_minutes: clamp_u32_exec(config.idle_minutes, 1, 24 * 60),
        cooldown_minutes: clamp_u32_exec(config.cooldown_minutes, 0, 24 * 60),
        max_chars: clamp_usize_exec(config.max_chars, 1, 200),
    }
}

/// Memory settings forced into their ranges: 1 to 100 recent events, 1 to
/// 50 facts.
pub open spec fn sanitized_memory(c: MemoryConfig) -> MemoryConfig {
    MemoryConfig {
        enabled: c.enabled,
        recent_events: clamp_usize(c.recent_events, 1, 100),
        fact_limit: clamp_usize(c.fact_limit, 1, 50),
        fact_compress: c.fact_compress,
        event_retention_days: c.event_retention_days,
    }
}

/// Force memory settings into their ranges.
pub fn sanitize_memory_config(config: MemoryConfig) -> (r: MemoryConfig)
    ensures
        r == sanitized_memory(config),
{
    MemoryConfig {
        enabled: config.enabled,
        recent_events: clamp_usize_exec(config.recent_events, 1, 100),
        fact_limit: clamp_usize_exec(config.fact_limit, 1, 50),
        fact_compress: config.fact_compress,
        event_retention_days: config.event_retention_days,
    }
}

/// Sanitising is idempotent.
pub proof fn lemma_sanitize_idempotent(g: GreetingConfig, m: MemoryConfig)
    ensures
        sanitized_greeting(sanitized_greeting(g)) == sanitized_greeting(g),
        sanitized_memory(sanitized_memory(m)) == sanitized_memory(m),
{
}

/// Only the two shipped providers exist; anything else falls back to
/// DeepSeek. The custom provider is recognised ignoring case and
/// surrounding whitespace.
pub open spec fn normalized_provider(provider: Seq<char>) -> Seq<char> {
    if eq_ignore_ascii_case_spec(trim_spec(provider), PROVIDER_CUSTOM@) {
        PROVIDER_CUSTOM@
    } else {
        PROVIDER_DEEPSEEK@
    }
}

/// The provider a configuration really uses.
pub fn normalize_provider(provider: &str) -> (r: String)
    ensures
        r@ == normalized_provider(provider@),
{
    let trimmed = trim(provider);
    if eq_ignore_ascii_case(trimmed.as_str(), PROVIDER_CUSTOM) {
        owned(PROVIDER_CUSTOM)
    } else {
        owned(PROVIDER_DEEPSEEK)
    }
}

/// Provider settings, all but the sampling temperature (a float, which the
/// host keeps and clamps itself).
#[derive(Debug)]
pub struct ProviderSettings {
    /// `deepseek` or `custom`.
    pub provider: String,
    pub base_url: String,
    pub model: String,
    /// Name of the environment variable that may hold the key.
    pub api_key_env: String,
    pub timeout_seconds: u64,
    pub max_tokens: u32,
    pub thinking_disabled: bool,
}

pub struct ProviderSettingsView {
    pub provider: Seq<char>,
    pub base_url: Seq<char>,
    pub model: Seq<char>,
    pub api_key_env: Seq<char>,
    pub timeout_seconds: u64,
    pub max_tokens: u32,
    pub thinking_disabled: bool,
}

impl View for ProviderSettings {
    type V = ProviderSettingsView;

    open spec fn view(&self) -> ProviderSettingsView {
        ProviderSettingsView {
            provider: self.provider@,
            base_url: self.base_url@,
            model: self.model@,
            api_key_env: self.api_key_env@,
            timeout_seconds: self.timeout_seconds,
            max_tokens: self.max_tokens,
            thinking_disabled: self.thinking_disabled,
        }
    }
}

pub open spec fn clamp_u64(v: u64, low: u64, high: u64) -> u64 {
    if v < low {
        low
    } else if v > high {
        high
    } else {
        v
    }
}

/// `value`, or `default` when `value` is blank.
pub open spec fn or_default(value: Seq<char>, default: Seq<char>) -> Seq<char> {
    if trim_spec(value).len() == 0 {
        default
    } else {
        value
    }
}

/// Provider settings made usable: a known provider, the default endpoint,
/// model and key variable in place of blank ones, a timeout of 5 to 120
/// seconds and 16 to 4000 tokens.
pub open spec fn sanitized_provider_settings(c: ProviderSettingsView, defaults: ProviderSettingsView) -> ProviderSettingsView {
    ProviderSettingsView {
        provider: normalized_provider(c.provider),
        base_url: or_default(c.base_url, defaults.base_url),
        model: or_default(c.model, defaults.model),
        api_key_env: or_default(c.api_key_env, defaults.api_key_env),
        timeout_seconds: clamp_u64(c.timeout_seconds, 5, 120),
        max_tokens: clamp_u32(c.max_tokens, 16, 4000),
        thinking_disabled: c.thinking_disabled,
    }
}

fn or_default_exec(value: String, default: &String) -> (r: String)
    ensures
        r@ == or_default(value@, default@),
{
    if crate::text::is_blank(value.as_str()) {
        owned(default.as_str())
    } else {
        value
    }
}

/// The shipped provider settings: DeepSeek at `https://api.deepseek.com/v1`
/// with the `deepseek-v4-flash` model, the key in `DEEPSEEK_API_KEY`, a
/// 30-second timeout, 400 tokens, thinking switched off.
pub open spec fn default_provider_settings() -> ProviderSettingsView {
    ProviderSettingsView {
        provider: PROVIDER_DEEPSEEK@,
        base_url: "https://api.deepseek.com/v1"@,
        model: "deepseek-v4-flash"@,
        api_key_env: "DEEPSEEK_API_KEY"@,
        timeout_seconds: 30,
        max_tokens: 400,
        thinking_disabled: true,
    }
}

impl ProviderSettings {
    /// The shipped provider settings (see [`default_provider_settings`]).
    pub fn defaults() -> (r: Self)
        ensures
            r@ == default_provider_settings(),
    {
        ProviderSettings {
            provider: owned(PROVIDER_DEEPSEEK),
            base_url: owned("https://api.deepseek.com/v1"),
            model: owned("deepseek-v4-flash"),
            api_key_env: owned("DEEPSEEK_API_KEY"),
            timeout_seconds: 30,
            max_tokens: 400,
            thinking_disabled: true,
        }
    }
}

/// Make provider settings usable (see [`sanitized_provider_settings`]);
/// blank text fields take the shipped value.
pub fn sanitize_deepseek_config(config: ProviderSettings) -> (r: ProviderSettings)
    ensures
        r@ == sanitized_provider_settings(config@, default_provider_settings()),
{
    let defaults = ProviderSettings::defaults();
    let timeout_seconds = if config.timeout_seconds < 5 {
        5
    } else if config.timeout_seconds > 120 {
        120
    } else {
        config.timeout_seconds
    };
    ProviderSettings {
        provider: normalize_provider(config.provider.as_str()),
        base_url: or_default_exec(config.base_url, &defaults.base_url),
        model: or_default_exec(config.model, &defaults.model),
        api_key_env: or_default_exec(config.api_key_env, &defaults.api_key_env),
        timeout_seconds,
        max_tokens: clamp_u32_exec(config.max_tokens, 16, 4000),
        thinking_disabled: config.thinking_disabled,
    }
}

/// Sanitising provider settings is idempotent.
pub proof fn lemma_provider_settings_idempotent(c: ProviderSettingsView, defaults: ProviderSettingsView)
    ensures
        sanitized_provider_settings(sanitized_provider_settings(c, defaults), defaults)
            == sanitized_provider_settings(c, defaults),
{
    reveal_strlit("custom");
    reveal_strlit("deepseek");
    assert(trim_spec(PROVIDER_CUSTOM@) == PROVIDER_CUSTOM@);
    assert(trim_spec(PROVIDER_DEEPSEEK@) == PROVIDER_DEEPSEEK@);
    assert(crate::text::ascii_lower_seq(PROVIDER_DEEPSEEK@).len() == 8);
    assert(crate::text::ascii_lower_seq(PROVIDER_CUSTOM@).len() == 6);
    assert(!eq_ignore_ascii_case_spec(PROVIDER_DEEPSEEK@, PROVIDER_CUSTOM@));
}

/// Milliseconds in a minute.
pub const MINUTE_MS: u64 = 60_000;

/// `later - earlier`, or 0 when `earlier` is later (`saturating_duration_since`).
pub open spec fn elapsed_ms(later: u64, earlier: u64) -> int {
    if later >= earlier {
        later - earlier
    } else {
        0
    }
}

/// The idle greeting is due: the feature is on, the user has been quiet for
/// `idle_minutes` (at least one), and the previous greeting is older than
/// `cooldown_minutes`. Times are milliseconds of a monotonic clock.
pub open spec fn greeting_due_spec(
    greeting: GreetingConfig,
    last_user_action: u64,
    last_greeting_at: Option<u64>,
    now: u64,
) -> bool {
    let idle_minutes = if greeting.idle_minutes > 1 {
        greeting.idle_minutes
    } else {
        1
    };
    &&& greeting.enabled
    &&& elapsed_ms(now, last_user_action) >= idle_minutes * MINUTE_MS
    &&& last_greeting_at matches Some(last) ==> elapsed_ms(now, last) >= greeting.cooldown_minutes
        * MINUTE_MS
}

/// True when the idle greeting should fire.
pub fn greeting_due(greeting: &GreetingConfig, last_user_action: u64, last_greeting_at: Option<u64>, now: u64) -> (r: bool)
    ensures
        r == greeting_due_spec(*greeting, last_user_action, last_greeting_at, now),
{
    if !greeting.enabled {
        return false;
    }
    let idle: u64 = if now >= last_user_action {
        now - last_user_action
    } else {
        0
    };
    let idle_minutes: u64 = if greeting.idle_minutes > 1 {
        greeting.idle_minutes as u64
    } else {
        1
    };
    if idle < idle_minutes * MINUTE_MS {
        return false;
    }
    match last_greeting_at {
        Some(last) => {
            let since: u64 = if now >= last {
                now - last
            } else {
                0
            };
            let cooldown: u64 = greeting.cooldown_minutes as u64 * MINUTE_MS;
            since >= cooldown
        },
        None => true,
    }
}

/// Nothing is due right after the user acted.
pub proof fn lemma_no_greeting_right_after_action(greeting: GreetingConfig, last_greeting_at: Option<u64>, now: u64)
    ensures
        !greeting_due_spec(greeting, now, last_greeting_at, now),
{
}

/// A disabled greeting is never due.
pub proof fn lemma_disabled_greeting_never_due(
    greeting: GreetingConfig,
    last_user_action: u64,
    last_greeting_at: Option<u64>,
    now: u64,
)
    requires
        !greeting.enabled,
    ensures
        !greeting_due_spec(greeting, last_user_action, last_greeting_at, now),
{
}

/// Waiting longer never cancels a due greeting.
pub proof fn lemma_greeting_due_monotonic(
    greeting: GreetingConfig,
    last_user_action: u64,
    last_greeting_at: Option<u64>,
    now: u64,
    later: u64,
)
    requires
        greeting_due_spec(greeting, last_user_action, last_greeting_at, now),
        now <= later,
    ensures
        greeting_due_spec(greeting, last_user_action, last_greeting_at, later),
{
}

/// `None` for a blank string.
pub open spec fn empty_to_none_spec(value: Seq<char>) -> Option<Seq<char>> {
    if trim_spec(value).len() == 0 {
        None
    } else {
        Some(value)
    }
}

/// `None` for a blank string, the string itself otherwise.
pub fn empty_to_none(value: String) -> (r: Option<String>)
    ensures
        opt_string_view(r) == empty_to_none_spec(value@),
{
    if crate::text::is_blank(value.as_str()) {
        None
    } else {
        Some(value)
    }
}

/// Edit of the current persona from the settings page. Absent fields are
/// left alone.
#[derive(Debug, Default)]
pub struct PersonaPatch {
    pub description: Option<String>,
    pub name: Option<String>,
    pub tone: Option<String>,
    pub verbosity: Option<String>,
    pub language: Option<String>,
    pub emoji: Option<bool>,
    pub greeting: Option<String>,
    pub system_prompt: Option<String>,
}

pub open spec fn or_keep(patch: Option<String>, current: Seq<char>) -> Seq<char> {
    match patch {
        Some(v) => v@,
        None => current,
    }
}

/// The persona after a patch. Name, tone, verbosity, emoji, greeting and
/// system prompt are applied (a blank greeting clears it); description and
/// language are not editable this way and are ignored.
pub open spec fn patched(p: PersonaView, patch: PersonaPatch) -> PersonaView {
    PersonaView {
        id: p.id,
        name: or_keep(patch.name, p.name),
        description: p.description,
        system_prompt: or_keep(patch.system_prompt, p.system_prompt),
        greeting: match patch.greeting {
            Some(g) => empty_to_none_spec(g@),
            None => p.greeting,
        },
        traits: crate::persona::PersonaTraitsView {
            tone: or_keep(patch.tone, p.traits.tone),
            verbosity: or_keep(patch.verbosity, p.traits.verbosity),
            language: p.traits.language,
            emoji: match patch.emoji {
                Some(e) => e,
                None => p.traits.emoji,
            },
        },
        builtin: p.builtin,
    }
}

/// Apply a settings-page edit to a persona.
pub fn apply_persona_patch(persona: &mut Persona, patch: PersonaPatch)
    ensures
        final(persona)@ == patched(old(persona)@, patch),
{
    let PersonaPatch {
        description: _,
        name,
        tone,
        verbosity,
        language: _,
        emoji,
        greeting,
        system_prompt,
    } = patch;
    if let Some(value) = name {
        persona.name = value;
    }
    if let Some(value) = tone {
        persona.traits.tone = value;
    }
    if let Some(value) = verbosity {
        persona.traits.verbosity = value;
    }
    if let Some(value) = emoji {
        persona.traits.emoji = value;
    }
    if let Some(value) = greeting {
        persona.greeting = empty_to_none(value);
    }
    if let Some(value) = system_prompt {
        persona.system_prompt = value;
    }
}

/// Request for a new persona, optionally starting from a template.
#[derive(Debug, Default)]
pub struct PersonaCreate {
    pub id: String,
    pub name: String,
    pub template: Option<String>,
}

/// Request to copy a persona under a new id and name.
#[derive(Debug)]
pub struct PersonaDuplicate {
    pub source_id: String,
    pub id: String,
    pub name: String,
}

/// The persona a create request asks for: the named template (or the
/// default text) under the requested id and name, as a user persona.
pub open spec fn created_persona(id: Seq<char>, name: Seq<char>, template_id: Option<Seq<char>>) -> PersonaView {
    let base = match template_id {
        Some(t) => if first_with_id(templates_spec(), t) < templates_spec().len() {
            templates_spec()[first_with_id(templates_spec(), t)]
        } else {
            new_persona(id, name)
        },
        None => new_persona(id, name),
    };
    PersonaView { id, name, builtin: false, ..base }
}

/// Create a persona in the store. An existing id is refused.
pub fn create_persona(store: &mut PersonaStore, spec: PersonaCreate) -> (r: Result<Persona, PersonaError>)
    ensures
        final(store).dir_view() == old(store).dir_view(),
        first_with_id(old(store)@, spec.id@) < old(store)@.len() ==> r == Err::<Persona, PersonaError>(
            PersonaError::AlreadyExists,
        ) && final(store)@ == old(store)@,
        first_with_id(old(store)@, spec.id@) >= old(store)@.len() ==> {
            let p = created_persona(spec.id@, spec.name@, opt_string_view(spec.template));
            &&& validation_error(p) matches Some(e) ==> r == Err::<Persona, PersonaError>(e)
                && final(store)@ == old(store)@
            &&& validation_error(p) is None ==> (r matches Ok(q) && q@ == p)
            &&& validation_error(p) is None ==> final(store)@ == sort_by_name(
                other_ids(old(store)@, spec.id@).push(p),
            )
        },
{
    if store.get(spec.id.as_str()).is_some() {
        return Err(PersonaError::AlreadyExists);
    }
    let PersonaCreate { id, name, template: template_id } = spec;
    let base = match &template_id {
        Some(t) => match template(t.as_str()) {
            Some(p) => p,
            None => Persona::new(id.as_str(), name.as_str()),
        },
        None => Persona::new(id.as_str(), name.as_str()),
    };
    let persona = Persona { id, name, builtin: false, ..base };
    match store.save(&persona) {
        Ok(()) => Ok(persona),
        Err(e) => Err(e),
    }
}

/// The persona "reset to built-in" gives: the shipped text under the
/// current persona's id and name, as a user persona.
pub open spec fn reset_persona_spec(current: PersonaView) -> PersonaView {
    PersonaView { id: current.id, name: current.name, builtin: false, ..default_persona() }
}

/// Restore the shipped speaking style but keep the persona's identity.
pub fn reset_persona(current: &Persona) -> (r: Persona)
    ensures
        r@ == reset_persona_spec(current@),
{
    let builtin = Persona::default();
    Persona { id: current.id.clone(), name: current.name.clone(), builtin: false, ..builtin }
}

// ------------------------------------------------------------------------------------------
// The text projection read by frontends
// ------------------------------------------------------------------------------------------
/// Which projected text a frontend asks for.
#[derive(Debug, Clone, Copy, PartialEq, Eq, Structural)]
pub enum RuntimeTextField {
    State,
    PetId,
    PetName,
    Bubble,
    AtlasPath,
    Error,
    Pets,
    PersonaId,
    PersonaName,
    Status,
    Position,
    CodexPets,
    Persona,
    Personas,
    DeepSeekConfig,
    Memory,
    ImportConflict,
    Models,
}

/// Text projected from the runtime for native frontends.
#[derive(Debug, Default)]
pub struct RuntimeTexts {
    pub state: String,
    pub pet_id: String,
    pub pet_name: String,
    pub bubble: String,
    pub atlas_path: String,
    pub error: String,
    pub pets: String,
    pub persona_id: String,
    pub persona_name: String,
    pub status: String,
    pub position: String,
    pub codex_pets: String,
    pub persona: String,
    pub personas: String,
    pub deepseek_config: String,
    pub memory: String,
    pub import_conflict: String,
    pub models: String,
}

/// The text stored for a field.
pub open spec fn text_of(t: RuntimeTexts, field: RuntimeTextField) -> Seq<char> {
    match field {
        RuntimeTextField::State => t.state@,
        RuntimeTextField::PetId => t.pet_id@,
        RuntimeTextField::PetName => t.pet_name@,
        RuntimeTextField::Bubble => t.bubble@,
        RuntimeTextField::AtlasPath => t.atlas_path@,
        RuntimeTextField::Error => t.error@,
        RuntimeTextField::Pets => t.pets@,
        RuntimeTextField::PersonaId => t.persona_id@,
        RuntimeTextField::PersonaName => t.persona_name@,
        RuntimeTextField::Status => t.status@,
        RuntimeTextField::Position => t.position@,
        RuntimeTextField::CodexPets => t.codex_pets@,
        RuntimeTextField::Persona => t.persona@,
        RuntimeTextField::Personas => t.personas@,
        RuntimeTextField::DeepSeekConfig => t.deepseek_config@,
        RuntimeTextField::Memory => t.memory@,
        RuntimeTextField::ImportConflict => t.import_conflict@,
        RuntimeTextField::Models => t.models@,
    }
}

impl RuntimeTexts {
    /// The text of one field.
    pub fn get(&self, field: RuntimeTextField) -> (r: &str)
        ensures
            r@ == text_of(*self, field),
    {
        match field {
            RuntimeTextField::State => self.state.as_str(),
            RuntimeTextField::PetId => self.pet_id.as_str(),
            RuntimeTextField::PetName => self.pet_name.as_str(),
            RuntimeTextField::Bubble => self.bubble.as_str(),
            RuntimeTextField::AtlasPath => self.atlas_path.as_str(),
            RuntimeTextField::Error => self.error.as_str(),
            RuntimeTextField::Pets => self.pets.as_str(),
            RuntimeTextField::PersonaId => self.persona_id.as_str(),
            RuntimeTextField::PersonaName => self.persona_name.as_str(),
            RuntimeTextField::Status => self.status.as_str(),
            RuntimeTextField::Position => self.position.as_str(),
            RuntimeTextField::CodexPets => self.codex_pets.as_str(),
            RuntimeTextField::Persona => self.persona.as_str(),
            RuntimeTextField::Personas => self.personas.as_str(),
            RuntimeTextField::DeepSeekConfig => self.deepseek_config.as_str(),
            RuntimeTextField::Memory => self.memory.as_str(),
            RuntimeTextField::ImportConflict => self.import_conflict.as_str(),
            RuntimeTextField::Models => self.models.as_str(),
        }
    }
}

/// Why a command could not be handed to the runtime worker.
#[derive(Debug)]
pub enum RuntimeEngineError {
    /// The engine was stopped.
    Stopped,
    /// The worker failed; the text explains how.
    Fault(String),
    /// The worker's command queue is closed.
    QueueClosed,
}

impl RuntimeEngineError {
    /// Message shown to the user.
    pub fn message(&self) -> (r: String)
        ensures
            r@ == match *self {
                RuntimeEngineError::Stopped => "runtime engine has stopped"@,
                RuntimeEngineError::Fault(m) => "runtime engine failed: "@ + m@,
                RuntimeEngineError::QueueClosed => "runtime command queue is closed"@,
            },
    {
        match self {
            RuntimeEngineError::Stopped => owned("runtime engine has stopped"),
            RuntimeEngineError::Fault(m) => {
                let mut v = crate::text::chars_of("runtime engine failed: ");
                crate::text::append_str(&mut v, m.as_str());
                crate::text::string_from_chars(&v)
            },
            RuntimeEngineError::QueueClosed => owned("runtime command queue is closed"),
        }
    }
}

/// A pet import that waits for the user to confirm overwriting a pet with
/// the same id.
#[derive(Debug)]
pub struct ImportConflict {
    pub id: String,
    pub name: String,
    pub path: String,
}

/// One turn of the conversation shown in the chat window.
#[derive(Debug)]
pub struct ConversationTurn {
    pub user: bool,
    pub text: String,
}


/// What the host does with the local state protocol server so that it
/// matches the settings.
#[derive(Debug, Clone, Copy, PartialEq, Eq, Structural)]
pub struct StateServerStep {
    /// Stop the running server.
    pub stop: bool,
    /// Start a server on the configured port.
    pub start: bool,
    /// Report that the service is off.
    pub report_off: bool,
}

/// The step for settings `wanted` / `port`, with `running_port` the port of
/// the running server, if any: a server that is unwanted or on another port
/// is stopped; one is started when wanted and none is left running; an
/// unwanted service is reported off.
pub open spec fn state_server_step_spec(wanted: bool, port: u16, running_port: Option<u16>) -> StateServerStep {
    let stop = running_port matches Some(p) && (!wanted || p != port);
    let still_running = running_port is Some && !stop;
    StateServerStep { stop, start: wanted && !still_running, report_off: !wanted }
}

/// Decide how to bring the state protocol server in line with the settings.
pub fn state_server_step(wanted: bool, port: u16, running_port: Option<u16>) -> (r: StateServerStep)
    ensures
        r == state_server_step_spec(wanted, port, running_port),
{
    let stop = match running_port {
        Some(p) => !wanted || p != port,
        None => false,
    };
    let still_running = running_port.is_some() && !stop;
    StateServerStep { stop, start: wanted && !still_running, report_off: !wanted }
}

/// Status shown when the service is off.
pub const STATE_SERVER_OFF: &'static str = "状态服务已关闭";

/// Status shown once the server listens on `port`.
pub open spec fn state_server_listening_spec(port: u16) -> Seq<char> {
    "状态协议已监听 http://127.0.0.1:"@ + decimal(port as nat) + "/state"@
}

/// Status shown once the server listens on `port`.
pub fn state_server_listening(port: u16) -> (r: String)
    ensures
        r@ == state_server_listening_spec(port),
{
    let mut v = chars_of("状态协议已监听 http://127.0.0.1:");
    let digits = decimal_chars(port as u64);
    append_chars(&mut v, &digits);
    append_str(&mut v, "/state");
    string_from_chars(&v)
}

/// Status shown when the server could not start.
pub fn state_server_failed(error: &str) -> (r: String)
    ensures
        r@ == "状态协议启动失败："@ + error@,
{
    let mut v = chars_of("状态协议启动失败：");
    append_str(&mut v, error);
    string_from_chars(&v)
}

/// After the step, at most one server runs, and it runs exactly when the
/// service is wanted (given that a wanted start succeeds): a running server
/// on the right port is kept, anything else is replaced or stopped.
pub proof fn lemma_state_server_step_matches_settings(wanted: bool, port: u16, running_port: Option<u16>)
    ensures
        ({
            let step = state_server_step_spec(wanted, port, running_port);
            &&& wanted <==> (step.start || (running_port is Some && !step.stop))
            &&& step.start ==> (running_port is None || step.stop)
            &&& (running_port == Some(port) && wanted) ==> (!step.stop && !step.start)
        }),
{
}

} // verus!
