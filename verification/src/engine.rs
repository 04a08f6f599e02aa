//! The runtime worker's decisions.
//!
//! The worker applies one command at a time to the runtime state. What can
//! be decided from the state alone is decided here; what needs the outside
//! world (writing the configuration, asking the model provider, animating
//! the pet) is handed back to the host as an action, and the host reports
//! the outcome with a further command.
use vstd::prelude::*;

use crate::memory::{
    compress_count, compress_spec, context_spec, empty_context, event_views, fact_views, id_index,
    imported_spec, last_n, opt_view, persona_or_empty, record_spec, sort_desc, unexpired,
    updated_fact, upsert_facts, with_events, with_facts, EventKind, EventView, GreetingContext,
    GreetingContextView, MemoryExport, PersonaMemoryView, PetMemory, EXTRACTED_CONFIDENCE,
    FACT_SOURCE_CONVERSATION, FACT_SOURCE_MANUAL, FULL_CONFIDENCE, MEMORY_EXPORT_KIND,
    MEMORY_VERSION,
};
use crate::string_map::StringMap;
use crate::persona::{
    first_with_id, other_ids, persona_error_message, renamed, sort_by_name, validation_error,
    Persona, PersonaError, PersonaStore, PersonaView, DEFAULT_PERSONA_ID,
};
use crate::runtime::{
    created_persona, patched, reset_persona_spec, ConversationTurn, GreetingConfig, ImportConflict,
    MemoryConfig, PersonaCreate, PersonaDuplicate, PersonaPatch, RuntimeTexts,
};
use crate::text::{
    contains_seq,
    append_chars, append_str, chars_of, decimal, decimal_chars, owned, str_eq, string_from_chars,
    trim, trim_spec, join_chars, join_spec, char_vec_views,
};

verus! {

// ------------------------------------------------------------------------------------------
// The bubble
// ------------------------------------------------------------------------------------------
/// Text shown next to the pet until a moment of the worker's clock (in
/// milliseconds).
#[derive(Debug)]
pub struct Bubble {
    pub text: String,
    pub until_ms: u64,
}

/// The bubble shown at `now` for `ttl_ms`: it lasts until `now + ttl_ms`, or
/// only until `now` when that moment is past the clock's range.
pub open spec fn bubble_until(now: u64, ttl_ms: u64) -> u64 {
    if now + ttl_ms <= u64::MAX {
        (now + ttl_ms) as u64
    } else {
        now
    }
}

impl Bubble {
    /// A bubble shown at `now` for `ttl_ms` milliseconds.
    pub fn new(text: String, now: u64, ttl_ms: u64) -> (r: Self)
        ensures
            r.text@ == text@,
            r.until_ms == bubble_until(now, ttl_ms),
    {
        let until_ms = match now.checked_add(ttl_ms) {
            Some(t) => t,
            None => now,
        };
        Bubble { text, until_ms }
    }

    /// Has the bubble's time run out at `now`?
    pub fn is_expired(&self, now: u64) -> (r: bool)
        ensures
            r == (now >= self.until_ms),
    {
        now >= self.until_ms
    }
}

/// How long a reply or greeting stays in the bubble.
pub const REPLY_BUBBLE_MS: u64 = 8000;

// ------------------------------------------------------------------------------------------
// The runtime state
// ------------------------------------------------------------------------------------------
/// Window switches the settings page toggles (scale and position are kept
/// by the host).
#[derive(Debug, Clone, Copy, PartialEq, Eq, Structural)]
pub struct WindowSwitches {
    pub click_through: bool,
    pub auto_walk: bool,
    pub gravity_enabled: bool,
    pub always_on_top: bool,
}

/// Which window switch a command sets.
#[derive(Debug, Clone, Copy, PartialEq, Eq, Structural)]
pub enum WindowSwitch {
    ClickThrough,
    AutoWalk,
    Gravity,
    AlwaysOnTop,
}

/// The switches after setting one of them.
pub open spec fn switched(s: WindowSwitches, which: WindowSwitch, on: bool) -> WindowSwitches {
    match which {
        WindowSwitch::ClickThrough => WindowSwitches { click_through: on, ..s },
        WindowSwitch::AutoWalk => WindowSwitches { auto_walk: on, ..s },
        WindowSwitch::Gravity => WindowSwitches { gravity_enabled: on, ..s },
        WindowSwitch::AlwaysOnTop => WindowSwitches { always_on_top: on, ..s },
    }
}

/// What the status says when writing a switch to the configuration fails
/// (the error follows).
pub open spec fn switch_failure_prefix(which: WindowSwitch) -> Seq<char> {
    match which {
        WindowSwitch::ClickThrough => "保存点击穿透设置失败："@,
        WindowSwitch::AutoWalk => "保存活动提醒设置失败："@,
        WindowSwitch::Gravity => "保存重力设置失败："@,
        WindowSwitch::AlwaysOnTop => "保存置顶设置失败："@,
    }
}

/// The runtime state the worker decides on. The pet's animation session,
/// the pet library and the window's scale and position are the host's.
#[derive(Debug)]
pub struct PetsonaRuntime {
    pub pet_visible: bool,
    pub switches: WindowSwitches,
    pub bubble: Option<Bubble>,
    /// Last message for the user (empty when there is none).
    pub status: String,
    /// The persona the pet currently speaks with.
    pub persona: Persona,
    pub personas: PersonaStore,
    pub memory: PetMemory,
    /// Persona id recorded as active in the configuration.
    pub active_persona: Option<String>,
    pub persona_by_pet: StringMap,
    /// The pet currently shown, if any.
    pub selected_pet: Option<String>,
    pub memory_config: MemoryConfig,
    pub greeting_config: GreetingConfig,
    pub conversation_history: Vec<ConversationTurn>,
    pub conversation_inflight: bool,
    pub greeting_inflight: bool,
    pub models_inflight: bool,
    pub models: Vec<String>,
    pub import_conflict: Option<ImportConflict>,
    /// Worker clock (milliseconds) of the user's last interaction.
    pub last_user_action: u64,
    /// Worker clock (milliseconds) of the last idle greeting request.
    pub last_greeting_at: Option<u64>,
}

/// Mathematical value of the runtime state.
pub struct RuntimeView {
    pub pet_visible: bool,
    pub switches: WindowSwitches,
    pub bubble: Option<(Seq<char>, u64)>,
    pub status: Seq<char>,
    pub persona: PersonaView,
    pub personas: Seq<PersonaView>,
    pub memory: Map<Seq<char>, PersonaMemoryView>,
    pub active_persona: Option<Seq<char>>,
    pub bindings: Map<Seq<char>, Seq<char>>,
    pub selected_pet: Option<Seq<char>>,
    pub memory_config: MemoryConfig,
    pub greeting_config: GreetingConfig,
    pub history: Seq<(bool, Seq<char>)>,
    pub conversation_inflight: bool,
    pub greeting_inflight: bool,
    pub models_inflight: bool,
    pub models: Seq<Seq<char>>,
    pub import_conflict: Option<(Seq<char>, Seq<char>, Seq<char>)>,
    pub last_user_action: u64,
    pub last_greeting_at: Option<u64>,
}

pub open spec fn turn_views(s: Seq<ConversationTurn>) -> Seq<(bool, Seq<char>)> {
    s.map_values(|t: ConversationTurn| (t.user, t.text@))
}

pub open spec fn string_views(s: Seq<String>) -> Seq<Seq<char>> {
    s.map_values(|m: String| m@)
}

pub open spec fn bubble_view(b: Option<Bubble>) -> Option<(Seq<char>, u64)> {
    match b {
        Some(b) => Some((b.text@, b.until_ms)),
        None => None,
    }
}

pub open spec fn conflict_view(c: Option<ImportConflict>) -> Option<(Seq<char>, Seq<char>, Seq<char>)> {
    match c {
        Some(c) => Some((c.id@, c.name@, c.path@)),
        None => None,
    }
}

impl View for PetsonaRuntime {
    type V = RuntimeView;

    open spec fn view(&self) -> RuntimeView {
        RuntimeView {
            pet_visible: self.pet_visible,
            switches: self.switches,
            bubble: bubble_view(self.bubble),
            status: self.status@,
            persona: self.persona@,
            personas: self.personas@,
            memory: self.memory@,
            active_persona: opt_view(self.active_persona),
            bindings: self.persona_by_pet@,
            selected_pet: opt_view(self.selected_pet),
            memory_config: self.memory_config,
            greeting_config: self.greeting_config,
            history: turn_views(self.conversation_history@),
            conversation_inflight: self.conversation_inflight,
            greeting_inflight: self.greeting_inflight,
            models_inflight: self.models_inflight,
            models: string_views(self.models@),
            import_conflict: conflict_view(self.import_conflict),
            last_user_action: self.last_user_action,
            last_greeting_at: self.last_greeting_at,
        }
    }
}

/// What the worker asks the host to do after a command.
#[derive(Debug)]
pub enum EngineAction {
    /// Write the configuration. When that fails and a prefix is given, the
    /// status becomes the prefix followed by the error.
    SaveConfig { failure_prefix: Option<String> },
    /// Fetch the provider's model catalog and answer with `ModelsResult`.
    RequestModels,
    /// Ask the model for a reply to `text` after `history`, with `context`,
    /// and answer with `ConversationResult`.
    RequestReply { history: String, text: String, context: GreetingContext },
    /// Play the waving animation for a few seconds.
    Wave,
    /// Ask the model for an idle greeting of at most `max_chars` characters,
    /// with `context`, and answer with `GreetingResult`.
    RequestGreeting { context: GreetingContext, max_chars: usize },
}

/// `SaveConfig` with an optional failure prefix, as a value.
pub open spec fn is_save(a: Option<EngineAction>, prefix: Option<Seq<char>>) -> bool {
    a matches Some(EngineAction::SaveConfig { failure_prefix }) && opt_view(failure_prefix) == prefix
}

fn concat(a: &str, b: &str) -> (r: String)
    ensures
        r@ == a@ + b@,
{
    let mut v = chars_of(a);
    append_str(&mut v, b);
    string_from_chars(&v)
}

fn concat3(a: &str, b: &str, c: &str) -> (r: String)
    ensures
        r@ == a@ + b@ + c@,
{
    let mut v = chars_of(a);
    append_str(&mut v, b);
    append_str(&mut v, c);
    string_from_chars(&v)
}

fn count_message(a: &str, n: usize, b: &str) -> (r: String)
    ensures
        r@ == a@ + decimal(n as nat) + b@,
{
    let mut v = chars_of(a);
    let d = decimal_chars(n as u64);
    append_chars(&mut v, &d);
    append_str(&mut v, b);
    string_from_chars(&v)
}

fn contains_text(s: &str, p: &str) -> (r: bool)
    ensures
        r == contains_seq(s@, p@),
{
    let sv = chars_of(s);
    let pv = chars_of(p);
    if pv.len() > sv.len() {
        return false;
    }
    let mut i: usize = 0;
    while i <= sv.len() - pv.len()
        invariant
            pv.len() <= sv.len(),
            sv@ == s@,
            pv@ == p@,
            i <= sv.len() - pv.len() + 1,
            forall|k: int| 0 <= k < i ==> #[trigger] sv@.subrange(k, k + pv@.len()) != pv@,
        decreases sv.len() - i,
    {
        let mut j: usize = 0;
        while j < pv.len() && sv[i + j] == pv[j]
            invariant
                i + pv.len() <= sv.len(),
                j <= pv.len(),
                forall|q: int| 0 <= q < j ==> sv@[i + q] == pv@[q],
            decreases pv.len() - j,
        {
            j = j + 1;
        }
        if j == pv.len() {
            assert(sv@.subrange(i as int, i + pv@.len()) =~= pv@);
            return true;
        }
        assert(sv@.subrange(i as int, i + pv@.len())[j as int] != pv@[j as int]);
        i = i + 1;
    }
    false
}

// ------------------------------------------------------------------------------------------
// Outcome of each command, as a relation between the state before (`v`),
// the state after (`w`) and the action handed to the host (`a`).
// ------------------------------------------------------------------------------------------
/// Outcome of `PetsonaRuntime::set_visibility`.
pub open spec fn post_set_visibility(v: RuntimeView, w: RuntimeView, a: Option<EngineAction>, visible: bool) -> bool {
    &&& (w == (RuntimeView { pet_visible: visible, ..v }))
    &&& (a is None)
}

/// Outcome of `PetsonaRuntime::set_switch`.
pub open spec fn post_set_switch(v: RuntimeView, w: RuntimeView, a: Option<EngineAction>, which: WindowSwitch, on: bool) -> bool {
    &&& (w == (RuntimeView { switches: switched(v.switches, which, on), ..v }))
    &&& (is_save(a, Some(switch_failure_prefix(which))))
}

/// Outcome of `PetsonaRuntime::show_bubble`.
pub open spec fn post_show_bubble(v: RuntimeView, w: RuntimeView, a: Option<EngineAction>, text: String, now: u64, ttl_ms: u64) -> bool {
    &&& (w == (RuntimeView { bubble: Some((text@, bubble_until(now, ttl_ms))), ..v }))
    &&& (a is None)
}

/// Outcome of `PetsonaRuntime::clear_bubble`.
pub open spec fn post_clear_bubble(v: RuntimeView, w: RuntimeView, a: Option<EngineAction>) -> bool {
    &&& (w == (RuntimeView { bubble: None, ..v }))
    &&& (a is None)
}

/// Outcome of `PetsonaRuntime::clear_import_conflict`.
pub open spec fn post_clear_import_conflict(v: RuntimeView, w: RuntimeView, a: Option<EngineAction>) -> bool {
    &&& (w == (RuntimeView {
        import_conflict: None,
        status: if contains_seq(v.status, OVERWRITE_PENDING@) {
            Seq::empty()
        } else {
            v.status
        },
        ..v
    }))
    &&& (a is None)
}

/// Outcome of `PetsonaRuntime::list_models`.
pub open spec fn post_list_models(v: RuntimeView, w: RuntimeView, a: Option<EngineAction>) -> bool {
    &&& (v.models_inflight ==> w == v && a is None)
    &&& (!v.models_inflight ==> w == (RuntimeView {
        models_inflight: true,
        status: "正在拉取模型列表…"@,
        ..v
    }) && a matches Some(EngineAction::RequestModels))
}

/// Outcome of `PetsonaRuntime::models_result`.
pub open spec fn post_models_result(v: RuntimeView, w: RuntimeView, a: Option<EngineAction>, result: Result<Vec<String>, String>) -> bool {
    &&& (match result {
        Ok(models) => w == (RuntimeView {
            models_inflight: false,
            models: string_views(models@),
            status: models_status(models@.len()),
            ..v
        }),
        Err(e) => w == (RuntimeView {
            models_inflight: false,
            status: "拉取模型列表失败："@ + e@ + "（可手动填写模型名）"@,
            ..v
        }),
    })
    &&& (a is None)
}

/// Outcome of `PetsonaRuntime::update_greeting_config`.
pub open spec fn post_update_greeting_config(v: RuntimeView, w: RuntimeView, a: Option<EngineAction>, config: GreetingConfig) -> bool {
    &&& (w == (RuntimeView {
        greeting_config: crate::runtime::sanitized_greeting(config),
        status: "问候设置已保存"@,
        ..v
    }))
    &&& (is_save(a, Some("保存问候设置失败："@)))
}

/// Outcome of `PetsonaRuntime::update_persona`.
pub open spec fn post_update_persona(v: RuntimeView, w: RuntimeView, a: Option<EngineAction>, patch: PersonaPatch) -> bool {
    &&& (w == (RuntimeView {
        persona: patched(v.persona, patch),
        status: "人格已更新（待保存）"@,
        ..v
    }))
    &&& (a is None)
}

/// Outcome of `PetsonaRuntime::save_persona`.
pub open spec fn post_save_persona(v: RuntimeView, w: RuntimeView, a: Option<EngineAction>) -> bool {
    &&& (match validation_error(v.persona) {
        Some(e) => w == (RuntimeView {
            status: persona_failure("保存人格失败："@, e),
            ..v
        }),
        None => w == (RuntimeView {
            personas: stored(v.personas, v.persona),
            status: "人格已保存"@,
            ..v
        }),
    })
    &&& (a is None)
}

/// Outcome of `PetsonaRuntime::create_persona`.
pub open spec fn post_create_persona(v: RuntimeView, w: RuntimeView, a: Option<EngineAction>, spec: PersonaCreate) -> bool {
    &&& (first_with_id(v.personas, spec.id@) < v.personas.len() ==> a is None
        && w == (RuntimeView {
        status: "创建人格失败：人格 '"@ + spec.id@ + "' 已存在"@,
        ..v
    }))
    &&& (first_with_id(v.personas, spec.id@) >= v.personas.len() ==> {
        let p = created_persona(spec.id@, spec.name@, opt_view(spec.template));
        match validation_error(p) {
            Some(e) => a is None && w == (RuntimeView {
                status: persona_failure("创建人格失败："@, e),
                ..v
            }),
            None => is_save(a, Some("保存当前人格失败："@)) && w == (RuntimeView {
                personas: stored(v.personas, p),
                persona: p,
                active_persona: Some(p.id),
                status: "已创建人格："@ + p.name,
                ..v
            }),
        }
    })
}

/// Outcome of `PetsonaRuntime::duplicate_persona`.
pub open spec fn post_duplicate_persona(v: RuntimeView, w: RuntimeView, a: Option<EngineAction>, spec: PersonaDuplicate) -> bool {
    &&& (first_with_id(v.personas, spec.source_id@) >= v.personas.len() ==> a is None
        && w == (RuntimeView {
        status: persona_failure("复制人格失败："@, PersonaError::NotFound),
        ..v
    }))
    &&& (first_with_id(v.personas, spec.source_id@) < v.personas.len() ==> {
        let copy = renamed(
            v.personas[first_with_id(v.personas, spec.source_id@)],
            spec.id@,
            spec.name@,
        );
        match validation_error(copy) {
            Some(e) => a is None && w == (RuntimeView {
                status: persona_failure("复制人格失败："@, e),
                ..v
            }),
            None => is_save(a, None) && w == (RuntimeView {
                personas: stored(v.personas, copy),
                persona: copy,
                active_persona: Some(spec.id@),
                status: "已复制人格："@ + spec.name@,
                ..v
            }),
        }
    })
}

/// Outcome of `PetsonaRuntime::reset_persona`.
pub open spec fn post_reset_persona(v: RuntimeView, w: RuntimeView, a: Option<EngineAction>) -> bool {
    &&& ({
        let p = reset_persona_spec(v.persona);
        match validation_error(p) {
            Some(e) => w == (RuntimeView {
                persona: p,
                status: persona_failure("重置失败："@, e),
                ..v
            }),
            None => w == (RuntimeView {
                persona: p,
                personas: stored(v.personas, p),
                status: "人格已重置为内置"@,
                ..v
            }),
        }
    })
    &&& (a is None)
}

/// Outcome of `PetsonaRuntime::select_persona`.
pub open spec fn post_select_persona(v: RuntimeView, w: RuntimeView, a: Option<EngineAction>, id: String) -> bool {
    &&& (first_with_id(v.personas, id@) >= v.personas.len() ==> a is None
        && w == (RuntimeView { status: "人格不存在："@ + id@, ..v }))
    &&& (first_with_id(v.personas, id@) < v.personas.len() ==> {
        let p = v.personas[first_with_id(v.personas, id@)];
        is_save(a, None) && w == (RuntimeView {
            persona: p,
            active_persona: Some(id@),
            bindings: match v.selected_pet {
                Some(pet) => v.bindings.insert(pet, id@),
                None => v.bindings,
            },
            status: "已切换人格："@ + p.name,
            ..v
        })
    })
}

/// Outcome of `PetsonaRuntime::delete_persona`.
pub open spec fn post_delete_persona(v: RuntimeView, w: RuntimeView, a: Option<EngineAction>, id: String) -> bool {
    &&& (id@ == DEFAULT_PERSONA_ID@ ==> a is None && w == (RuntimeView {
        status: persona_failure("删除人格失败："@, PersonaError::DefaultUndeletable),
        ..v
    }))
    &&& (id@ != DEFAULT_PERSONA_ID@ && first_with_id(v.personas, id@)
        >= v.personas.len() ==> a is None && w == (RuntimeView {
        status: persona_failure("删除人格失败："@, PersonaError::NotFound),
        ..v
    }))
    &&& (id@ != DEFAULT_PERSONA_ID@ && first_with_id(v.personas, id@)
        < v.personas.len() ==> {
        let rest = other_ids(v.personas, id@);
        let status = "已删除人格："@ + id@;
        if v.active_persona == Some(id@) && fallback_persona(rest) is Some {
            let f = fallback_persona(rest)->0;
            is_save(a, None) && w == (RuntimeView {
                personas: rest,
                persona: f,
                active_persona: Some(f.id),
                status,
                ..v
            })
        } else {
            a is None && w == (RuntimeView {
                personas: rest,
                status,
                ..v
            })
        }
    })
}

/// Outcome of `PetsonaRuntime::import_persona`.
pub open spec fn post_import_persona(v: RuntimeView, w: RuntimeView, a: Option<EngineAction>, persona: Persona, overwrite: bool) -> bool {
    &&& (validation_error(persona@) matches Some(e) ==> a is None && w == (RuntimeView {
        status: persona_failure("导入人格失败："@, e),
        ..v
    }))
    &&& (validation_error(persona@) is None && !overwrite && first_with_id(
        v.personas,
        persona@.id,
    ) < v.personas.len() ==> a is None && w == (RuntimeView {
        status: persona_failure("导入人格失败："@, PersonaError::AlreadyExists),
        ..v
    }))
    &&& (validation_error(persona@) is None && (overwrite || first_with_id(
        v.personas,
        persona@.id,
    ) >= v.personas.len()) ==> {
        let p = PersonaView { builtin: false, ..persona@ };
        is_save(a, None) && w == (RuntimeView {
            personas: stored(v.personas, p),
            persona: p,
            active_persona: Some(p.id),
            status: "已导入人格："@ + p.name,
            ..v
        })
    })
}

/// Outcome of `PetsonaRuntime::update_memory_config`.
pub open spec fn post_update_memory_config(v: RuntimeView, w: RuntimeView, a: Option<EngineAction>, config: MemoryConfig) -> bool {
    &&& (is_save(a, Some("保存记忆设置失败："@)))
    &&& ({
        let c = crate::runtime::sanitized_memory(config);
        let pid = v.persona.id;
        &&& w == (RuntimeView {
            memory_config: c,
            memory: w.memory,
            status: "记忆设置已保存"@,
            ..v
        })
        &&& exists|m: MemoryMap|
            events_pruned(v.memory, m, pid, c.event_retention_days)
                && #[trigger] compressed_if_enabled(c, m, w.memory, pid)
    })
}

/// Outcome of `PetsonaRuntime::remember_fact`.
pub open spec fn post_remember_fact(v: RuntimeView, w: RuntimeView, a: Option<EngineAction>, key: Seq<char>, value: Seq<char>, confidence: Option<u32>) -> bool {
    &&& (w == (RuntimeView {
        memory: w.memory,
        status: "已保存一条用户偏好"@,
        ..v
    }))
    &&& (exists|m: MemoryMap|
        fact_remembered(
            v.memory,
            m,
            v.persona.id,
            trim_spec(key),
            trim_spec(value),
            manual_confidence(confidence),
            FACT_SOURCE_MANUAL@,
        ) && #[trigger] compressed_if_enabled(
            v.memory_config,
            m,
            w.memory,
            v.persona.id,
        ))
    &&& (a is None)
}

/// Outcome of `PetsonaRuntime::forget_fact`.
pub open spec fn post_forget_fact(v: RuntimeView, w: RuntimeView, a: Option<EngineAction>, fact_id: Seq<char>) -> bool {
    &&& ({
        let pid = v.persona.id;
        let m = v.memory;
        if m.dom().contains(pid) {
            let kept = crate::memory::without_id(m[pid].facts, fact_id);
            w == (RuntimeView {
                memory: m.insert(pid, with_facts(m[pid], kept)),
                status: if kept.len() != m[pid].facts.len() {
                    "已删除记忆偏好"@
                } else {
                    "记忆偏好不存在"@
                },
                ..v
            })
        } else {
            w == (RuntimeView { status: "记忆偏好不存在"@, ..v })
        }
    })
    &&& (a is None)
}

/// Outcome of `PetsonaRuntime::update_fact`.
pub open spec fn post_update_fact(v: RuntimeView, w: RuntimeView, a: Option<EngineAction>, fact_id: Seq<char>, key: Seq<char>, value: Seq<char>, confidence: Option<u32>) -> bool {
    &&& ({
        let pid = v.persona.id;
        let pm = persona_or_empty(v.memory, pid);
        let j = id_index(pm.facts, fact_id);
        if !v.memory.dom().contains(pid) || j >= pm.facts.len() {
            w == (RuntimeView { status: "这条偏好已经不存在"@, ..v })
        } else {
            &&& w == (RuntimeView {
                memory: w.memory,
                status: "已更新这条记忆偏好"@,
                ..v
            })
            &&& exists|now: i64|
                w.memory == v.memory.insert(
                    pid,
                    with_facts(
                        pm,
                        sort_desc(
                            pm.facts.update(
                                j,
                                #[trigger] updated_fact(
                                    pm.facts[j],
                                    trim_spec(key),
                                    trim_spec(value),
                                    manual_confidence(confidence),
                                    now,
                                ),
                            ),
                        ),
                    ),
                )
        }
    })
    &&& (a is None)
}

/// Outcome of `PetsonaRuntime::clear_memory_scope`.
pub open spec fn post_clear_memory_scope(v: RuntimeView, w: RuntimeView, a: Option<EngineAction>, scope: MemoryScope) -> bool {
    &&& ({
        let pid = v.persona.id;
        let m = v.memory;
        match scope {
            MemoryScope::All => w == (RuntimeView {
                memory: m.remove(pid),
                status: "已清空当前人格的全部记忆"@,
                ..v
            }),
            MemoryScope::Facts => w == (RuntimeView {
                memory: if m.dom().contains(pid) {
                    m.insert(pid, with_facts(m[pid], Seq::empty()))
                } else {
                    m
                },
                status: "已清空 "@ + decimal(
                    if m.dom().contains(pid) {
                        m[pid].facts.len()
                    } else {
                        0
                    },
                ) + " 条偏好（事件保留）"@,
                ..v
            }),
            MemoryScope::Events => w == (RuntimeView {
                memory: if m.dom().contains(pid) {
                    m.insert(pid, with_events(m[pid], Seq::empty()))
                } else {
                    m
                },
                status: "已清空 "@ + decimal(
                    if m.dom().contains(pid) {
                        m[pid].events.len()
                    } else {
                        0
                    },
                ) + " 条互动事件（偏好保留）"@,
                ..v
            }),
        }
    })
    &&& (a is None)
}

/// Outcome of `PetsonaRuntime::clear_memory`.
pub open spec fn post_clear_memory(v: RuntimeView, w: RuntimeView, a: Option<EngineAction>) -> bool {
    &&& (w == (RuntimeView {
        memory: v.memory.remove(v.persona.id),
        status: "已清空当前人格的记忆"@,
        ..v
    }))
    &&& (a is None)
}

/// Outcome of `PetsonaRuntime::send_conversation`.
pub open spec fn post_send_conversation(v: RuntimeView, w: RuntimeView, a: Option<EngineAction>, text: String, now: u64) -> bool {
    &&& (v.conversation_inflight || trim_spec(text@).len() == 0 ==> w == v && a is None)
    &&& (!(v.conversation_inflight || trim_spec(text@).len() == 0) ==> {
        let pid = v.persona.id;
        let history = v.history.push((true, text@));
        &&& w == (RuntimeView {
            conversation_inflight: true,
            last_user_action: now,
            memory: w.memory,
            history,
            status: if message_learns(text@, v.memory_config) {
                "已从对话记录一条用户偏好"@
            } else {
                v.status
            },
            ..v
        })
        &&& message_memory(v.memory, w.memory, pid, text@, v.memory_config)
        &&& a matches Some(EngineAction::RequestReply { history: h, text: t, context })
        &&& h@ == history_text(history)
        &&& t@ == text@
        &&& context@ == request_context(w.memory, pid, v.memory_config)
    })
}

/// Outcome of `PetsonaRuntime::conversation_result`.
pub open spec fn post_conversation_result(v: RuntimeView, w: RuntimeView, a: Option<EngineAction>, result: Result<String, String>, now: u64) -> bool {
    &&& ({
        let reply = match result {
            Ok(r) => r@,
            Err(_) => fallback_greeting_spec(v.persona),
        };
        &&& w == (RuntimeView {
            conversation_inflight: false,
            history: v.history.push((false, reply)),
            memory: w.memory,
            bubble: Some((reply, bubble_until(now, REPLY_BUBBLE_MS))),
            status: match result {
                Ok(_) => v.status,
                Err(e) => e@,
            },
            ..v
        })
        &&& event_recorded(
            v.memory,
            w.memory,
            v.persona.id,
            EventKind::PetReaction,
            Some(reply),
        )
    })
    &&& (a is None)
}

/// Outcome of `PetsonaRuntime::greeting_result`.
pub open spec fn post_greeting_result(v: RuntimeView, w: RuntimeView, a: Option<EngineAction>, result: Result<String, String>, now: u64) -> bool {
    &&& ({
        let text = trim_spec(
            match result {
                Ok(t) => t@,
                Err(_) => fallback_greeting_spec(v.persona),
            },
        );
        let status = match result {
            Ok(_) => v.status,
            Err(e) => e@,
        };
        if text.len() == 0 {
            a is None && w == (RuntimeView {
                greeting_inflight: false,
                status,
                ..v
            })
        } else {
            &&& a matches Some(EngineAction::Wave)
            &&& w == (RuntimeView {
                greeting_inflight: false,
                status,
                memory: w.memory,
                bubble: Some((text, bubble_until(now, REPLY_BUBBLE_MS))),
                ..v
            })
            &&& event_recorded(
                v.memory,
                w.memory,
                v.persona.id,
                EventKind::PetGreeting,
                Some(text),
            )
        }
    })
}

/// The text that marks a pet import waiting for confirmation.
pub const OVERWRITE_PENDING: &'static str = "等待确认是否覆盖";

impl PetsonaRuntime {
    pub open spec fn wf(&self) -> bool {
        self.memory.wf()
    }

    /// Show or hide the pet.
    pub fn set_visibility(&mut self, visible: bool)
        ensures
            final(self).wf() == old(self).wf(),
            post_set_visibility(old(self)@, final(self)@, None, visible),
    {
        self.pet_visible = visible;
    }

    /// Set a window switch; the configuration is then written.
    pub fn set_switch(&mut self, which: WindowSwitch, on: bool) -> (r: EngineAction)
        ensures
            final(self).wf() == old(self).wf(),
            post_set_switch(old(self)@, final(self)@, Some(r), which, on),
    {
        let prefix = match which {
            WindowSwitch::ClickThrough => {
                self.switches.click_through = on;
                "保存点击穿透设置失败："
            },
            WindowSwitch::AutoWalk => {
                self.switches.auto_walk = on;
                "保存活动提醒设置失败："
            },
            WindowSwitch::Gravity => {
                self.switches.gravity_enabled = on;
                "保存重力设置失败："
            },
            WindowSwitch::AlwaysOnTop => {
                self.switches.always_on_top = on;
                "保存置顶设置失败："
            },
        };
        EngineAction::SaveConfig { failure_prefix: Some(owned(prefix)) }
    }

    /// Show `text` in the bubble from `now` for `ttl_ms` milliseconds.
    pub fn show_bubble(&mut self, text: String, now: u64, ttl_ms: u64)
        ensures
            final(self).wf() == old(self).wf(),
            post_show_bubble(old(self)@, final(self)@, None, text, now, ttl_ms),
    {
        self.bubble = Some(Bubble::new(text, now, ttl_ms));
    }

    /// Hide the bubble.
    pub fn clear_bubble(&mut self)
        ensures
            final(self).wf() == old(self).wf(),
            post_clear_bubble(old(self)@, final(self)@, None),
    {
        self.bubble = None;
    }

    /// Drop a pet import that waited for confirmation, and its status line.
    pub fn clear_import_conflict(&mut self)
        ensures
            final(self).wf() == old(self).wf(),
            post_clear_import_conflict(old(self)@, final(self)@, None),
    {
        self.import_conflict = None;
        if contains_text(self.status.as_str(), OVERWRITE_PENDING) {
            self.status = String::new();
        }
    }

    /// Ask for the provider's model catalog, unless a request is running.
    pub fn list_models(&mut self) -> (r: Option<EngineAction>)
        ensures
            final(self).wf() == old(self).wf(),
            post_list_models(old(self)@, final(self)@, r),
    {
        if self.models_inflight {
            return None;
        }
        self.models_inflight = true;
        self.status = owned("正在拉取模型列表…");
        Some(EngineAction::RequestModels)
    }

    /// Take the provider's answer to a catalog request.
    pub fn models_result(&mut self, result: Result<Vec<String>, String>)
        ensures
            final(self).wf() == old(self).wf(),
            post_models_result(old(self)@, final(self)@, None, result),
    {
        self.models_inflight = false;
        match result {
            Ok(models) => {
                self.status = if models.len() == 0 {
                    owned("服务商没有返回任何模型；请手动填写模型名")
                } else {
                    count_message("已拉取 ", models.len(), " 个模型")
                };
                self.models = models;
            },
            Err(e) => {
                self.status = concat3("拉取模型列表失败：", e.as_str(), "（可手动填写模型名）");
            },
        }
    }

    /// Take new idle-greeting settings (sanitized); the configuration is then
    /// written.
    pub fn update_greeting_config(&mut self, config: GreetingConfig) -> (r: EngineAction)
        ensures
            final(self).wf() == old(self).wf(),
            post_update_greeting_config(old(self)@, final(self)@, Some(r), config),
    {
        self.greeting_config = crate::runtime::sanitize_greeting_config(config);
        self.status = owned("问候设置已保存");
        EngineAction::SaveConfig { failure_prefix: Some(owned("保存问候设置失败：")) }
    }
}

/// Status after a catalog arrived with `n` models.
pub open spec fn models_status(n: nat) -> Seq<char> {
    if n == 0 {
        "服务商没有返回任何模型；请手动填写模型名"@
    } else {
        "已拉取 "@ + decimal(n) + " 个模型"@
    }
}

// ------------------------------------------------------------------------------------------
// Personas
// ------------------------------------------------------------------------------------------
/// The store after saving `p`: `p` replaces any persona with its id, and the
/// list stays ordered by name.
pub open spec fn stored(store: Seq<PersonaView>, p: PersonaView) -> Seq<PersonaView> {
    sort_by_name(other_ids(store, p.id).push(p))
}

/// The persona taken up when the active one is deleted: the default persona,
/// or else the first listed one.
pub open spec fn fallback_persona(store: Seq<PersonaView>) -> Option<PersonaView> {
    if first_with_id(store, DEFAULT_PERSONA_ID@) < store.len() {
        Some(store[first_with_id(store, DEFAULT_PERSONA_ID@)])
    } else if store.len() > 0 {
        Some(store[0])
    } else {
        None
    }
}

/// Status line for a refused persona operation.
pub open spec fn persona_failure(prefix: Seq<char>, e: PersonaError) -> Seq<char> {
    prefix + persona_error_message(e)
}

fn persona_failure_text(prefix: &str, e: PersonaError) -> (r: String)
    ensures
        r@ == persona_failure(prefix@, e),
{
    concat(prefix, e.message())
}

impl PetsonaRuntime {
    /// Apply a settings-page edit to the current persona (not yet saved).
    pub fn update_persona(&mut self, patch: PersonaPatch)
        ensures
            final(self).wf() == old(self).wf(),
            post_update_persona(old(self)@, final(self)@, None, patch),
    {
        crate::runtime::apply_persona_patch(&mut self.persona, patch);
        self.status = owned("人格已更新（待保存）");
    }

    /// Save the current persona into the store.
    pub fn save_persona(&mut self)
        ensures
            final(self).wf() == old(self).wf(),
            post_save_persona(old(self)@, final(self)@, None),
    {
        match self.personas.save(&self.persona) {
            Ok(()) => self.status = owned("人格已保存"),
            Err(e) => self.status = persona_failure_text("保存人格失败：", e),
        }
    }

    /// Create a persona and make it the current one; the configuration is
    /// then written.
    pub fn create_persona(&mut self, spec: PersonaCreate) -> (r: Option<EngineAction>)
        ensures
            final(self).wf() == old(self).wf(),
            post_create_persona(old(self)@, final(self)@, r, spec),
    {
        let id = spec.id.clone();
        match crate::runtime::create_persona(&mut self.personas, spec) {
            Ok(persona) => {
                self.status = concat("已创建人格：", persona.name.as_str());
                self.active_persona = Some(persona.id.clone());
                self.persona = persona;
                Some(EngineAction::SaveConfig { failure_prefix: Some(owned("保存当前人格失败：")) })
            },
            Err(PersonaError::AlreadyExists) => {
                self.status = concat3("创建人格失败：人格 '", id.as_str(), "' 已存在");
                None
            },
            Err(e) => {
                self.status = persona_failure_text("创建人格失败：", e);
                None
            },
        }
    }

    /// Copy a persona under a new id and name and make the copy current.
    pub fn duplicate_persona(&mut self, spec: PersonaDuplicate) -> (r: Option<EngineAction>)
        ensures
            final(self).wf() == old(self).wf(),
            post_duplicate_persona(old(self)@, final(self)@, r, spec),
    {
        match self.personas.duplicate(spec.source_id.as_str(), spec.id.as_str(), spec.name.as_str()) {
            Ok(persona) => {
                self.status = concat("已复制人格：", persona.name.as_str());
                self.active_persona = Some(persona.id.clone());
                self.persona = persona;
                Some(EngineAction::SaveConfig { failure_prefix: None })
            },
            Err(e) => {
                self.status = persona_failure_text("复制人格失败：", e);
                None
            },
        }
    }

    /// Restore the shipped speaking style under the current persona's id and
    /// name, and save it.
    pub fn reset_persona(&mut self)
        ensures
            final(self).wf() == old(self).wf(),
            post_reset_persona(old(self)@, final(self)@, None),
    {
        self.persona = crate::runtime::reset_persona(&self.persona);
        match self.personas.save(&self.persona) {
            Ok(()) => self.status = owned("人格已重置为内置"),
            Err(e) => self.status = persona_failure_text("重置失败：", e),
        }
    }

    /// Switch to persona `id`, and bind it to the pet being shown.
    pub fn select_persona(&mut self, id: String) -> (r: Option<EngineAction>)
        ensures
            final(self).wf() == old(self).wf(),
            post_select_persona(old(self)@, final(self)@, r, id),
    {
        match self.personas.get(id.as_str()) {
            Some(persona) => {
                self.status = concat("已切换人格：", persona.name.as_str());
                self.persona = persona;
                match &self.selected_pet {
                    Some(pet) => self.persona_by_pet.insert(pet.as_str(), id.as_str()),
                    None => {},
                }
                self.active_persona = Some(id);
                Some(EngineAction::SaveConfig { failure_prefix: None })
            },
            None => {
                self.status = concat("人格不存在：", id.as_str());
                None
            },
        }
    }

    /// Delete persona `id`. When it was the active one, the default persona
    /// (or the first listed one) takes its place.
    pub fn delete_persona(&mut self, id: String) -> (r: Option<EngineAction>)
        ensures
            final(self).wf() == old(self).wf(),
            post_delete_persona(old(self)@, final(self)@, r, id),
    {
        match self.personas.delete(id.as_str()) {
            Ok(()) => {
                let mut action = None;
                let is_active = match &self.active_persona {
                    Some(a) => str_eq(a.as_str(), id.as_str()),
                    None => false,
                };
                if is_active {
                    let fallback = match self.personas.get(DEFAULT_PERSONA_ID) {
                        Some(p) => Some(p),
                        None => {
                            let all = self.personas.list();
                            if all.len() > 0 {
                                Some(all[0].clone())
                            } else {
                                None
                            }
                        },
                    };
                    if let Some(p) = fallback {
                        self.active_persona = Some(p.id.clone());
                        self.persona = p;
                        action = Some(EngineAction::SaveConfig { failure_prefix: None });
                    }
                }
                self.status = concat("已删除人格：", id.as_str());
                action
            },
            Err(e) => {
                self.status = persona_failure_text("删除人格失败：", e);
                None
            },
        }
    }

    /// Take a persona read from an import file into the store and make it
    /// current. Without `overwrite` an existing id is refused.
    pub fn import_persona(&mut self, persona: Persona, overwrite: bool) -> (r: Option<EngineAction>)
        ensures
            final(self).wf() == old(self).wf(),
            post_import_persona(old(self)@, final(self)@, r, persona, overwrite),
    {
        match self.personas.import(persona, overwrite) {
            Ok(p) => {
                self.status = concat("已导入人格：", p.name.as_str());
                self.active_persona = Some(p.id.clone());
                self.persona = p;
                Some(EngineAction::SaveConfig { failure_prefix: None })
            },
            Err(e) => {
                self.status = persona_failure_text("导入人格失败：", e);
                None
            },
        }
    }
}

// ------------------------------------------------------------------------------------------
// Memory
// ------------------------------------------------------------------------------------------
/// Memory map type of the store's view.
pub type MemoryMap = Map<Seq<char>, PersonaMemoryView>;

/// `after` is `before` with an event of `kind` and `text` recorded for
/// persona `pid` (under some fresh id and time).
pub open spec fn event_recorded(
    before: MemoryMap,
    after: MemoryMap,
    pid: Seq<char>,
    kind: EventKind,
    text: Option<Seq<char>>,
) -> bool {
    exists|e: EventView|
        e.kind == kind && e.text == text && after == before.insert(
            pid,
            #[trigger] record_spec(persona_or_empty(before, pid), e),
        )
}

/// `after` is `before` with a fact upserted for persona `pid` (a new fact
/// gets some fresh id; the time is the moment of the upsert).
pub open spec fn fact_remembered(
    before: MemoryMap,
    after: MemoryMap,
    pid: Seq<char>,
    key: Seq<char>,
    value: Seq<char>,
    confidence: u32,
    source: Seq<char>,
) -> bool {
    exists|id: Seq<char>, now: i64|
        after == before.insert(
            pid,
            with_facts(
                persona_or_empty(before, pid),
                #[trigger] upsert_facts(persona_or_empty(before, pid).facts, key, value, confidence, source, id, now),
            ),
        )
}

/// `after` is `before` once persona `pid`'s facts beyond the `keep` newest
/// were folded into the profile.
pub open spec fn facts_compressed(before: MemoryMap, after: MemoryMap, pid: Seq<char>, keep: int) -> bool {
    if !before.dom().contains(pid) || compress_count(before[pid].facts, keep) == 0 {
        after == before
    } else {
        exists|id: Seq<char>, now: i64|
            after == before.insert(
                pid,
                with_facts(before[pid], #[trigger] compress_spec(before[pid].facts, keep, id, now)),
            )
    }
}

/// Folding happens only when memory and compression are both switched on;
/// `fact_limit` (at least one) facts are kept.
pub open spec fn compressed_if_enabled(config: MemoryConfig, before: MemoryMap, after: MemoryMap, pid: Seq<char>) -> bool {
    if config.enabled && config.fact_compress {
        facts_compressed(
            before,
            after,
            pid,
            if config.fact_limit >= 1 {
                config.fact_limit as int
            } else {
                1
            },
        )
    } else {
        after == before
    }
}

/// `after` is `before` once persona `pid`'s events older than `days` days
/// were dropped (at the moment of pruning).
pub open spec fn events_pruned(before: MemoryMap, after: MemoryMap, pid: Seq<char>, days: u32) -> bool {
    if days == 0 || !before.dom().contains(pid) {
        after == before
    } else {
        exists|now: i64|
            after == before.insert(
                pid,
                with_events(before[pid], #[trigger] unexpired(before[pid].events, now, days)),
            )
    }
}

/// Confidence of a hand-entered fact: 0.8 when none is given, never above
/// certainty.
pub open spec fn manual_confidence(c: Option<u32>) -> u32 {
    match c {
        Some(v) => if v > FULL_CONFIDENCE {
            FULL_CONFIDENCE
        } else {
            v
        },
        None => 800,
    }
}

fn manual_confidence_exec(c: Option<u32>) -> (r: u32)
    ensures
        r == manual_confidence(c),
{
    match c {
        Some(v) => if v > FULL_CONFIDENCE {
            FULL_CONFIDENCE
        } else {
            v
        },
        None => 800,
    }
}

/// Which part of the current persona's memory to clear.
#[derive(Debug, Clone, Copy, PartialEq, Eq, Structural)]
pub enum MemoryScope {
    All,
    Facts,
    Events,
}


impl PetsonaRuntime {
    /// Fold old facts of the current persona into its profile when memory
    /// and compression are on.
    pub fn compress_if_enabled(&mut self)
        requires
            old(self).wf(),
        ensures
            final(self).wf(),
            final(self)@ == (RuntimeView { memory: final(self)@.memory, ..old(self)@ }),
            compressed_if_enabled(
                old(self)@.memory_config,
                old(self)@.memory,
                final(self)@.memory,
                old(self)@.persona.id,
            ),
    {
        if !self.memory_config.enabled || !self.memory_config.fact_compress {
            return;
        }
        let keep: usize = if self.memory_config.fact_limit >= 1 {
            self.memory_config.fact_limit
        } else {
            1
        };
        let _ = self.memory.compress_facts(self.persona.id.as_str(), keep);
    }

    /// Take new memory settings (sanitized), prune expired events and fold
    /// old facts under them; the configuration is then written.
    pub fn update_memory_config(&mut self, config: MemoryConfig) -> (r: EngineAction)
        requires
            old(self).wf(),
        ensures
            final(self).wf(),
            post_update_memory_config(old(self)@, final(self)@, Some(r), config),
    {
        self.memory_config = crate::runtime::sanitize_memory_config(config);
        let days = self.memory_config.event_retention_days;
        let _ = self.memory.prune_events(self.persona.id.as_str(), days);
        let ghost pruned = self.memory@;
        self.compress_if_enabled();
        self.status = owned("记忆设置已保存");
        proof {
            let c = crate::runtime::sanitized_memory(config);
            assert(compressed_if_enabled(c, pruned, self.memory@, old(self)@.persona.id));
        }
        EngineAction::SaveConfig { failure_prefix: Some(owned("保存记忆设置失败：")) }
    }

    /// Remember a hand-entered fact (key and value trimmed) for the current
    /// persona, then fold old facts if enabled.
    pub fn remember_fact(&mut self, key: &str, value: &str, confidence: Option<u32>)
        requires
            old(self).wf(),
        ensures
            final(self).wf(),
            post_remember_fact(old(self)@, final(self)@, None, key@, value@, confidence),
    {
        let k = trim(key);
        let v = trim(value);
        let c = manual_confidence_exec(confidence);
        let fact = self.memory.remember_fact_from(self.persona.id.as_str(), k.as_str(), v.as_str(), c, FACT_SOURCE_MANUAL);
        let ghost m = self.memory@;
        proof {
            let pm = persona_or_empty(old(self)@.memory, old(self)@.persona.id);
            assert(m == old(self)@.memory.insert(
                old(self)@.persona.id,
                with_facts(pm, upsert_facts(pm.facts, k@, v@, c, FACT_SOURCE_MANUAL@, fact@.id, fact@.updated_at)),
            ));
        }
        self.status = owned("已保存一条用户偏好");
        self.compress_if_enabled();
    }

    /// Forget the current persona's fact `fact_id`.
    pub fn forget_fact(&mut self, fact_id: &str)
        requires
            old(self).wf(),
        ensures
            final(self).wf(),
            post_forget_fact(old(self)@, final(self)@, None, fact_id@),
    {
        let removed = self.memory.forget_fact(self.persona.id.as_str(), fact_id);
        self.status = if removed {
            owned("已删除记忆偏好")
        } else {
            owned("记忆偏好不存在")
        };
    }

    /// Edit the current persona's fact `fact_id` in place (key and value
    /// trimmed).
    pub fn update_fact(&mut self, fact_id: &str, key: &str, value: &str, confidence: Option<u32>)
        requires
            old(self).wf(),
        ensures
            final(self).wf(),
            post_update_fact(old(self)@, final(self)@, None, fact_id@, key@, value@, confidence),
    {
        let k = trim(key);
        let v = trim(value);
        let c = manual_confidence_exec(confidence);
        let r = self.memory.update_fact(self.persona.id.as_str(), fact_id, k.as_str(), v.as_str(), c);
        proof {
            let pid = old(self)@.persona.id;
            let pm = persona_or_empty(old(self)@.memory, pid);
            let j = id_index(pm.facts, fact_id@);
            if old(self)@.memory.dom().contains(pid) && j < pm.facts.len() {
                let now = choose|now: i64|
                    crate::memory::updated_at_time(
                        old(self)@.memory,
                        self.memory@,
                        pid,
                        fact_id@,
                        k@,
                        v@,
                        c,
                        now,
                        r,
                    );
                assert(updated_fact(pm.facts[j], k@, v@, c, now) == updated_fact(
                    pm.facts[j],
                    trim_spec(key@),
                    trim_spec(value@),
                    manual_confidence(confidence),
                    now,
                ));
            }
        }
        self.status = match r {
            Some(_) => owned("已更新这条记忆偏好"),
            None => owned("这条偏好已经不存在"),
        };
    }

    /// Clear all, or only the facts, or only the events of the current
    /// persona's memory.
    pub fn clear_memory_scope(&mut self, scope: MemoryScope)
        requires
            old(self).wf(),
        ensures
            final(self).wf(),
            post_clear_memory_scope(old(self)@, final(self)@, None, scope),
    {
        match scope {
            MemoryScope::All => {
                self.memory.clear_persona(self.persona.id.as_str());
                self.status = owned("已清空当前人格的全部记忆");
            },
            MemoryScope::Facts => {
                let removed = self.memory.clear_facts(self.persona.id.as_str());
                self.status = count_message("已清空 ", removed, " 条偏好（事件保留）");
            },
            MemoryScope::Events => {
                let removed = self.memory.clear_events(self.persona.id.as_str());
                self.status = count_message("已清空 ", removed, " 条互动事件（偏好保留）");
            },
        }
    }

    /// Forget everything about the current persona.
    pub fn clear_memory(&mut self)
        requires
            old(self).wf(),
        ensures
            final(self).wf(),
            post_clear_memory(old(self)@, final(self)@, None),
    {
        self.memory.clear_persona(self.persona.id.as_str());
        self.status = owned("已清空当前人格的记忆");
    }
}

// ------------------------------------------------------------------------------------------
// Conversation and greetings
// ------------------------------------------------------------------------------------------
/// How many turns of history a reply request sees.
pub const HISTORY_TURNS: usize = 6;

/// One turn as the model sees it.
pub open spec fn turn_line(t: (bool, Seq<char>)) -> Seq<char> {
    if t.0 {
        "用户："@ + t.1
    } else {
        "宠物："@ + t.1
    }
}

/// The last `HISTORY_TURNS` turns, one per line.
pub open spec fn history_text(h: Seq<(bool, Seq<char>)>) -> Seq<char> {
    join_spec(last_n(h, HISTORY_TURNS as int).map_values(|t: (bool, Seq<char>)| turn_line(t)), "\n"@)
}

/// The line the pet says when the model cannot be reached: the persona's
/// own greeting, or the shipped one when it has none.
pub open spec fn fallback_greeting_spec(p: PersonaView) -> Seq<char> {
    match p.greeting {
        Some(g) => if trim_spec(g).len() > 0 {
            g
        } else {
            crate::persona::DEFAULT_GREETING@
        },
        None => crate::persona::DEFAULT_GREETING@,
    }
}

/// The persona's own greeting line, or the shipped one.
pub fn fallback_greeting(persona: &Persona) -> (r: String)
    ensures
        r@ == fallback_greeting_spec(persona@),
{
    match &persona.greeting {
        Some(g) => if !crate::text::is_blank(g.as_str()) {
            g.clone()
        } else {
            owned(crate::persona::DEFAULT_GREETING)
        },
        None => owned(crate::persona::DEFAULT_GREETING),
    }
}

/// The context a model request sees for persona `pid`.
pub open spec fn request_context(m: MemoryMap, pid: Seq<char>, config: MemoryConfig) -> GreetingContextView {
    if m.dom().contains(pid) {
        context_spec(m[pid], config.recent_events as int, config.fact_limit as int)
    } else {
        empty_context()
    }
}

/// The memory after a user message: the message is recorded, and an
/// explicit preference in it is remembered (then old facts are folded) when
/// memory is on.
pub open spec fn message_memory(
    before: MemoryMap,
    after: MemoryMap,
    pid: Seq<char>,
    text: Seq<char>,
    config: MemoryConfig,
) -> bool {
    exists|m1: MemoryMap|
        #[trigger] event_recorded(before, m1, pid, EventKind::UserMessage, Some(text)) && match (
            config.enabled,
            crate::preference::extract_spec(text),
        ) {
            (true, Some((k, v))) => exists|m2: MemoryMap|
                fact_remembered(m1, m2, pid, k, v, EXTRACTED_CONFIDENCE, FACT_SOURCE_CONVERSATION@)
                    && #[trigger] compressed_if_enabled(config, m2, after, pid),
            _ => after == m1,
        }
}

/// Did the message yield a remembered preference?
pub open spec fn message_learns(text: Seq<char>, config: MemoryConfig) -> bool {
    config.enabled && crate::preference::extract_spec(text) is Some
}

fn turn_line_exec(t: &ConversationTurn) -> (r: Vec<char>)
    ensures
        r@ == turn_line((t.user, t.text@)),
{
    let mut v = if t.user {
        chars_of("用户：")
    } else {
        chars_of("宠物：")
    };
    append_str(&mut v, t.text.as_str());
    v
}

fn history_text_exec(h: &Vec<ConversationTurn>) -> (r: String)
    ensures
        r@ == history_text(turn_views(h@)),
{
    let start: usize = if h.len() > HISTORY_TURNS {
        h.len() - HISTORY_TURNS
    } else {
        0
    };
    let ghost tv = turn_views(h@);
    let ghost tail = last_n(tv, HISTORY_TURNS as int);
    assert(tail =~= tv.subrange(start as int, h.len() as int));
    let mut lines: Vec<Vec<char>> = Vec::new();
    let mut i = start;
    while i < h.len()
        invariant
            start <= i <= h.len(),
            tv == turn_views(h@),
            tail == tv.subrange(start as int, h.len() as int),
            char_vec_views(lines@) == tail.subrange(0, i - start).map_values(
                |t: (bool, Seq<char>)| turn_line(t),
            ),
        decreases h.len() - i,
    {
        let line = turn_line_exec(&h[i]);
        assert(tail[i - start] == tv[i as int]);
        assert(tv[i as int] == (h@[i as int].user, h@[i as int].text@));
        let ghost before = lines@;
        lines.push(line);
        assert(char_vec_views(lines@) =~= char_vec_views(before).push(turn_line(tail[i - start])));
        assert(char_vec_views(lines@) =~= tail.subrange(0, i + 1 - start).map_values(
            |t: (bool, Seq<char>)| turn_line(t),
        ));
        i = i + 1;
    }
    assert(tail.subrange(0, h.len() - start) =~= tail);
    let joined = join_chars(&lines, "\n");
    string_from_chars(&joined)
}

impl PetsonaRuntime {
    /// Handle a message from the user at worker time `now`: unless a reply
    /// is pending or the message is blank, record it, learn an explicit
    /// preference from it, add it to the history and ask the model.
    pub fn send_conversation(&mut self, text: String, now: u64) -> (r: Option<EngineAction>)
        requires
            old(self).wf(),
        ensures
            final(self).wf(),
            post_send_conversation(old(self)@, final(self)@, r, text, now),
    {
        if self.conversation_inflight || crate::text::is_blank(text.as_str()) {
            return None;
        }
        self.conversation_inflight = true;
        self.last_user_action = now;
        let ghost m0 = self.memory@;
        let ghost pid = self.persona.id@;
        let event = self.memory.record_event(self.persona.id.as_str(), EventKind::UserMessage, Some(text.clone()));
        let ghost m1 = self.memory@;
        assert(event_recorded(m0, m1, pid, EventKind::UserMessage, Some(text@)));
        if self.memory_config.enabled {
            match crate::preference::extract_preference(text.as_str()) {
                Some((key, value, confidence)) => {
                    let fact = self.memory.remember_fact_from(
                        self.persona.id.as_str(),
                        key.as_str(),
                        value.as_str(),
                        confidence,
                        FACT_SOURCE_CONVERSATION,
                    );
                    let ghost m2 = self.memory@;
                    proof {
                        let pm = persona_or_empty(m1, pid);
                        assert(m2 == m1.insert(
                            pid,
                            with_facts(
                                pm,
                                upsert_facts(pm.facts, key@, value@, confidence, FACT_SOURCE_CONVERSATION@, fact@.id, fact@.updated_at),
                            ),
                        ));
                        assert(fact_remembered(m1, m2, pid, key@, value@, confidence, FACT_SOURCE_CONVERSATION@));
                    }
                    self.status = owned("已从对话记录一条用户偏好");
                    self.compress_if_enabled();
                    assert(compressed_if_enabled(self.memory_config, m2, self.memory@, pid));
                },
                None => {},
            }
        }
        self.conversation_history.push(ConversationTurn { user: true, text: text.clone() });
        assert(turn_views(self.conversation_history@) =~= old(self)@.history.push((true, text@)));
        let context = self.memory.build_greeting_context(
            self.persona.id.as_str(),
            self.memory_config.recent_events,
            self.memory_config.fact_limit,
        );
        let history = history_text_exec(&self.conversation_history);
        Some(EngineAction::RequestReply { history, text, context })
    }

    /// Take the model's reply (or its failure, which becomes the status and
    /// falls back to the persona's line) at worker time `now`: it joins the
    /// history, is recorded and shows in the bubble.
    pub fn conversation_result(&mut self, result: Result<String, String>, now: u64)
        requires
            old(self).wf(),
        ensures
            final(self).wf(),
            post_conversation_result(old(self)@, final(self)@, None, result, now),
    {
        self.conversation_inflight = false;
        let reply = match result {
            Ok(r) => r,
            Err(e) => {
                self.status = e;
                fallback_greeting(&self.persona)
            },
        };
        self.conversation_history.push(ConversationTurn { user: false, text: reply.clone() });
        assert(turn_views(self.conversation_history@) =~= old(self)@.history.push((false, reply@)));
        let ghost m0 = self.memory@;
        let event = self.memory.record_event(self.persona.id.as_str(), EventKind::PetReaction, Some(reply.clone()));
        assert(event_recorded(m0, self.memory@, self.persona.id@, EventKind::PetReaction, Some(reply@)));
        self.show_bubble(reply, now, REPLY_BUBBLE_MS);
    }

    /// Take the model's idle greeting (or its failure, which becomes the
    /// status and falls back to the persona's line) at worker time `now`. A
    /// non-blank greeting is recorded, shows in the bubble and makes the pet
    /// wave.
    pub fn greeting_result(&mut self, result: Result<String, String>, now: u64) -> (r: Option<EngineAction>)
        requires
            old(self).wf(),
        ensures
            final(self).wf(),
            post_greeting_result(old(self)@, final(self)@, r, result, now),
    {
        self.greeting_inflight = false;
        let text = match result {
            Ok(t) => t,
            Err(e) => {
                self.status = e;
                fallback_greeting(&self.persona)
            },
        };
        let text = trim(text.as_str());
        if text.as_str().is_empty() {
            return None;
        }
        let ghost m0 = self.memory@;
        let event = self.memory.record_event(self.persona.id.as_str(), EventKind::PetGreeting, Some(text.clone()));
        assert(event_recorded(m0, self.memory@, self.persona.id@, EventKind::PetGreeting, Some(text@)));
        self.show_bubble(text, now, REPLY_BUBBLE_MS);
        Some(EngineAction::Wave)
    }

    /// Start an idle greeting at worker time `now` when none is pending, no
    /// reply is pending, a pet is shown and the greeting is due.
    pub fn request_greeting(&mut self, has_pet: bool, now: u64) -> (r: Option<EngineAction>)
        requires
            old(self).wf(),
        ensures
            final(self).wf(),
            final(self)@ == after_greeting_request(old(self)@, has_pet, now),
            greeting_request_action(old(self)@, has_pet, now, r),
    {
        if self.greeting_inflight || self.conversation_inflight {
            return None;
        }
        if !has_pet || !self.pet_visible {
            return None;
        }
        if !crate::runtime::greeting_due(&self.greeting_config, self.last_user_action, self.last_greeting_at, now) {
            return None;
        }
        let context = self.memory.build_greeting_context(
            self.persona.id.as_str(),
            self.memory_config.recent_events,
            self.memory_config.fact_limit,
        );
        let requested = self.greeting_config.max_chars;
        let max_chars: usize = if requested < 1 {
            1
        } else if requested > 200 {
            200
        } else {
            requested
        };
        self.greeting_inflight = true;
        self.last_greeting_at = Some(now);
        Some(EngineAction::RequestGreeting { context, max_chars })
    }

    /// Drop the bubble once its time has run out.
    pub fn expire_bubble(&mut self, now: u64)
        ensures
            final(self).wf() == old(self).wf(),
            final(self)@ == bubble_expired(old(self)@, now),
    {
        let expired = match &self.bubble {
            Some(b) => b.is_expired(now),
            None => false,
        };
        if expired {
            self.bubble = None;
        }
    }
}

impl PetsonaRuntime {
    /// One worker tick at worker time `now`: start the idle greeting when it
    /// is due, then drop an expired bubble.
    pub fn tick(&mut self, has_pet: bool, now: u64) -> (r: Option<EngineAction>)
        requires
            old(self).wf(),
        ensures
            final(self).wf(),
            final(self)@ == bubble_expired(after_greeting_request(old(self)@, has_pet, now), now),
            greeting_request_action(old(self)@, has_pet, now, r),
    {
        let action = self.request_greeting(has_pet, now);
        self.expire_bubble(now);
        action
    }
}

/// An idle greeting starts: none is pending, no reply is pending, a pet is
/// shown and the greeting is due at `now`.
pub open spec fn greeting_starts(v: RuntimeView, has_pet: bool, now: u64) -> bool {
    !v.greeting_inflight && !v.conversation_inflight && has_pet && v.pet_visible
        && crate::runtime::greeting_due_spec(v.greeting_config, v.last_user_action, v.last_greeting_at, now)
}

/// The state after a greeting request at `now`.
pub open spec fn after_greeting_request(v: RuntimeView, has_pet: bool, now: u64) -> RuntimeView {
    if greeting_starts(v, has_pet, now) {
        RuntimeView { greeting_inflight: true, last_greeting_at: Some(now), ..v }
    } else {
        v
    }
}

/// What a greeting request at `now` hands the host: the memory context and
/// the length limit when a greeting starts, nothing otherwise.
pub open spec fn greeting_request_action(v: RuntimeView, has_pet: bool, now: u64, r: Option<EngineAction>) -> bool {
    if greeting_starts(v, has_pet, now) {
        &&& r matches Some(EngineAction::RequestGreeting { context, max_chars })
        &&& context@ == request_context(v.memory, v.persona.id, v.memory_config)
        &&& max_chars == crate::runtime::clamp_usize(v.greeting_config.max_chars, 1, 200)
    } else {
        r is None
    }
}

/// The state with an expired bubble (one whose end is not after `now`) dropped.
pub open spec fn bubble_expired(v: RuntimeView, now: u64) -> RuntimeView {
    RuntimeView {
        bubble: match v.bubble {
            Some((_, until)) => if now >= until {
                None
            } else {
                v.bubble
            },
            None => None,
        },
        ..v
    }
}

/// While an idle greeting is pending, no second one starts, whatever the
/// time and whether a pet is shown.
pub proof fn lemma_one_greeting_at_a_time(v: RuntimeView, has_pet: bool, now: u64, has_pet_later: bool, later: u64)
    requires
        greeting_starts(v, has_pet, now),
    ensures
        after_greeting_request(v, has_pet, now).greeting_inflight,
        !greeting_starts(after_greeting_request(v, has_pet, now), has_pet_later, later),
        after_greeting_request(after_greeting_request(v, has_pet, now), has_pet_later, later)
            == after_greeting_request(v, has_pet, now),
{
}

/// Longest the worker sleeps between ticks, in milliseconds.
pub const IDLE_WORKER_WAIT_MS: u64 = 1000;

/// How long the worker waits for the next command, in milliseconds: the
/// idle wait when the pet is hidden or there is none, else the time to the
/// pet's next frame, kept between 1 ms and the idle wait.
pub open spec fn next_wait_spec(pet_visible: bool, next_frame_ms: Option<u64>) -> u64 {
    if !pet_visible {
        IDLE_WORKER_WAIT_MS
    } else {
        match next_frame_ms {
            Some(ms) => if ms < 1 {
                1
            } else if ms > IDLE_WORKER_WAIT_MS {
                IDLE_WORKER_WAIT_MS
            } else {
                ms
            },
            None => IDLE_WORKER_WAIT_MS,
        }
    }
}

/// How long the worker waits for the next command (see [`next_wait_spec`]);
/// `next_frame_ms` is the time to the shown pet's next frame, if a pet is
/// shown.
pub fn next_wait(pet_visible: bool, next_frame_ms: Option<u64>) -> (r: u64)
    ensures
        r == next_wait_spec(pet_visible, next_frame_ms),
        1 <= r <= IDLE_WORKER_WAIT_MS,
{
    if !pet_visible {
        return IDLE_WORKER_WAIT_MS;
    }
    match next_frame_ms {
        Some(ms) => if ms < 1 {
            1
        } else if ms > IDLE_WORKER_WAIT_MS {
            IDLE_WORKER_WAIT_MS
        } else {
            ms
        },
        None => IDLE_WORKER_WAIT_MS,
    }
}

// ------------------------------------------------------------------------------------------
// Pets and their personas
// ------------------------------------------------------------------------------------------
/// The speaking style a pet without a binding adopts: a copy of the current
/// persona under the pet's id (and display name, when the pet has one).
pub open spec fn adopted_style(current: PersonaView, pet: Seq<char>, display_name: Option<Seq<char>>) -> PersonaView {
    PersonaView {
        id: pet,
        builtin: false,
        name: match display_name {
            Some(n) => n,
            None => current.name,
        },
        ..current
    }
}

/// What showing pet `pet_id` (with its display name) does to the runtime.
pub open spec fn post_bind_pet(v: RuntimeView, w: RuntimeView, pet_id: Seq<char>, display_name: Option<Seq<char>>) -> bool {
        let id = pet_id;
        if v.bindings.dom().contains(id) {
            let pid = v.bindings[id];
            if first_with_id(v.personas, pid) < v.personas.len() {
                let p = v.personas[first_with_id(v.personas, pid)];
                w == (RuntimeView {
                    selected_pet: Some(id),
                    persona: p,
                    active_persona: Some(p.id),
                    ..v
                })
            } else {
                w == (RuntimeView { selected_pet: Some(id), ..v })
            }
        } else if first_with_id(v.personas, id) < v.personas.len() {
            w == (RuntimeView {
                selected_pet: Some(id),
                persona: v.personas[first_with_id(v.personas, id)],
                active_persona: Some(id),
                bindings: v.bindings.insert(id, id),
                ..v
            })
        } else {
            let copy = adopted_style(v.persona, id, display_name);
            w == (RuntimeView {
                selected_pet: Some(id),
                persona: copy,
                personas: if validation_error(copy) is None {
                    stored(v.personas, copy)
                } else {
                    v.personas
                },
                active_persona: Some(id),
                bindings: v.bindings.insert(id, id),
                ..v
            })
        }
    }

/// What removing pet `pet_id` from the library does to the runtime; `next`
/// is the pet shown instead when the removed one was active.
pub open spec fn post_pet_deleted(v: RuntimeView, w: RuntimeView, pet_id: Seq<char>, was_active: bool, next: Option<Seq<char>>) -> bool {
    w == (RuntimeView {
        bindings: v.bindings.remove(pet_id),
        selected_pet: if was_active {
    next
        } else {
    v.selected_pet
        },
        status: "已删除 "@ + pet_id,
        ..v
    })
}

impl PetsonaRuntime {
    /// A pet was loaded and is now shown: follow its persona binding, or
    /// give a pet without one its own persona (an existing persona with the
    /// pet's id, else a copy of the current style) and bind it.
    pub fn bind_pet(&mut self, pet_id: String, display_name: Option<String>)
        ensures
            final(self).wf() == old(self).wf(),
            post_bind_pet(old(self)@, final(self)@, pet_id@, opt_view(display_name)),
    {
        self.selected_pet = Some(pet_id.clone());
        match self.persona_by_pet.get(pet_id.as_str()) {
            Some(persona_id) => {
                if let Some(bound) = self.personas.get(persona_id.as_str()) {
                    self.active_persona = Some(bound.id.clone());
                    self.persona = bound;
                }
            },
            None => {
                let style = match self.personas.get(pet_id.as_str()) {
                    Some(existing) => existing,
                    None => {
                        let mut copy = self.persona.clone();
                        copy.id = pet_id.clone();
                        copy.builtin = false;
                        if let Some(name) = display_name {
                            copy.name = name;
                        }
                        let _ = self.personas.save(&copy);
                        copy
                    },
                };
                self.persona = style;
                self.active_persona = Some(pet_id.clone());
                self.persona_by_pet.insert(pet_id.as_str(), pet_id.as_str());
            },
        }
    }

    /// Pet `pet_id` was removed from the library. Its binding goes (its
    /// persona and memory stay); when it was the active pet, `next` (the
    /// first remaining pet, if any) is shown instead. The configuration is
    /// then written.
    pub fn pet_deleted(&mut self, pet_id: &str, was_active: bool, next: Option<String>) -> (r: EngineAction)
        ensures
            final(self).wf() == old(self).wf(),
            is_save(Some(r), None),
            post_pet_deleted(old(self)@, final(self)@, pet_id@, was_active, opt_view(next)),
    {
        self.persona_by_pet.remove(pet_id);
        if was_active {
            self.selected_pet = next;
        }
        self.status = concat("已删除 ", pet_id);
        EngineAction::SaveConfig { failure_prefix: None }
    }
}

// ------------------------------------------------------------------------------------------
// One command at a time
// ------------------------------------------------------------------------------------------
/// A command for the runtime worker.
#[derive(Debug)]
pub enum EngineCommand {
    /// A wakeup from the UI or the event loop.
    Wake,
    /// Advance timers now.
    Tick,
    SetVisibility(bool),
    SetSwitch(WindowSwitch, bool),
    ShowBubble { text: String, ttl_ms: u64 },
    ClearBubble,
    ClearImportConflict,
    UpdatePersona(PersonaPatch),
    SavePersona,
    RefreshPersonas,
    CreatePersona(PersonaCreate),
    DuplicatePersona(PersonaDuplicate),
    ResetPersona,
    SelectPersona(String),
    DeletePersona(String),
    ImportPersona { persona: Persona, overwrite: bool },
    UpdateGreetingConfig(GreetingConfig),
    UpdateMemoryConfig(MemoryConfig),
    RememberFact { key: String, value: String, confidence: Option<u32> },
    ForgetFact(String),
    UpdateFact { id: String, key: String, value: String, confidence: Option<u32> },
    ClearMemoryScope(MemoryScope),
    ClearMemory,
    ListModels,
    ModelsResult(Result<Vec<String>, String>),
    SendConversation(String),
    ConversationResult(Result<String, String>),
    GreetingResult(Result<String, String>),
    /// The host loaded pet `id` from its library and shows it.
    PetLoaded { id: String, display_name: Option<String> },
    /// The host removed pet `id` from its library; `next` is the first pet
    /// left there, if any.
    PetRemoved { id: String, next: Option<String> },
    /// Stop the worker.
    Stop,
}

/// What applying `command` at worker time `now` does: `w` and `r.1` are the
/// state and the action after it, and `r.0` says whether the worker goes on.
pub open spec fn applied(v: RuntimeView, w: RuntimeView, command: EngineCommand, now: u64, r: (bool, Option<EngineAction>)) -> bool {
    &&& r.0 == !(command is Stop)
    &&& match command {
        EngineCommand::Wake => w == v && r.1 is None,
        EngineCommand::Tick => w == v && r.1 is None,
        EngineCommand::SetVisibility(b) => post_set_visibility(v, w, r.1, b),
        EngineCommand::SetSwitch(which, on) => post_set_switch(v, w, r.1, which, on),
        EngineCommand::ShowBubble { text, ttl_ms } => post_show_bubble(v, w, r.1, text, now, ttl_ms),
        EngineCommand::ClearBubble => post_clear_bubble(v, w, r.1),
        EngineCommand::ClearImportConflict => post_clear_import_conflict(v, w, r.1),
        EngineCommand::UpdatePersona(patch) => post_update_persona(v, w, r.1, patch),
        EngineCommand::SavePersona => post_save_persona(v, w, r.1),
        EngineCommand::RefreshPersonas => w == v && r.1 is None,
        EngineCommand::CreatePersona(spec) => post_create_persona(v, w, r.1, spec),
        EngineCommand::DuplicatePersona(spec) => post_duplicate_persona(v, w, r.1, spec),
        EngineCommand::ResetPersona => post_reset_persona(v, w, r.1),
        EngineCommand::SelectPersona(id) => post_select_persona(v, w, r.1, id),
        EngineCommand::DeletePersona(id) => post_delete_persona(v, w, r.1, id),
        EngineCommand::ImportPersona { persona, overwrite } => post_import_persona(v, w, r.1, persona, overwrite),
        EngineCommand::UpdateGreetingConfig(c) => post_update_greeting_config(v, w, r.1, c),
        EngineCommand::UpdateMemoryConfig(c) => post_update_memory_config(v, w, r.1, c),
        EngineCommand::RememberFact { key, value, confidence } => post_remember_fact(
            v,
            w,
            r.1,
            key@,
            value@,
            confidence,
        ),
        EngineCommand::ForgetFact(id) => post_forget_fact(v, w, r.1, id@),
        EngineCommand::UpdateFact { id, key, value, confidence } => post_update_fact(
            v,
            w,
            r.1,
            id@,
            key@,
            value@,
            confidence,
        ),
        EngineCommand::ClearMemoryScope(scope) => post_clear_memory_scope(v, w, r.1, scope),
        EngineCommand::ClearMemory => post_clear_memory(v, w, r.1),
        EngineCommand::ListModels => post_list_models(v, w, r.1),
        EngineCommand::ModelsResult(result) => post_models_result(v, w, r.1, result),
        EngineCommand::SendConversation(text) => post_send_conversation(v, w, r.1, text, now),
        EngineCommand::ConversationResult(result) => post_conversation_result(v, w, r.1, result, now),
        EngineCommand::GreetingResult(result) => post_greeting_result(v, w, r.1, result, now),
        EngineCommand::PetLoaded { id, display_name } => post_bind_pet(v, w, id@, opt_view(display_name))
            && r.1 is None,
        EngineCommand::PetRemoved { id, next } => post_pet_deleted(
            v,
            w,
            id@,
            v.selected_pet == Some(id@),
            opt_view(next),
        ) && is_save(r.1, None),
        EngineCommand::Stop => w == v && r.1 is None,
    }
}

impl PetsonaRuntime {
    /// Apply one command at worker time `now`. Returns whether the worker
    /// goes on (false only for `Stop`) and the action the host must take.
    pub fn apply_command(&mut self, command: EngineCommand, now: u64) -> (r: (bool, Option<EngineAction>))
        requires
            old(self).wf(),
        ensures
            final(self).wf(),
            applied(old(self)@, final(self)@, command, now, r),
    {
        match command {
            EngineCommand::Wake => (true, None),
            EngineCommand::Tick => (true, None),
            EngineCommand::SetVisibility(b) => {
                self.set_visibility(b);
                (true, None)
            },
            EngineCommand::SetSwitch(which, on) => (true, Some(self.set_switch(which, on))),
            EngineCommand::ShowBubble { text, ttl_ms } => {
                self.show_bubble(text, now, ttl_ms);
                (true, None)
            },
            EngineCommand::ClearBubble => {
                self.clear_bubble();
                (true, None)
            },
            EngineCommand::ClearImportConflict => {
                self.clear_import_conflict();
                (true, None)
            },
            EngineCommand::UpdatePersona(patch) => {
                self.update_persona(patch);
                (true, None)
            },
            EngineCommand::SavePersona => {
                self.save_persona();
                (true, None)
            },
            EngineCommand::RefreshPersonas => (true, None),
            EngineCommand::CreatePersona(spec) => (true, self.create_persona(spec)),
            EngineCommand::DuplicatePersona(spec) => (true, self.duplicate_persona(spec)),
            EngineCommand::ResetPersona => {
                self.reset_persona();
                (true, None)
            },
            EngineCommand::SelectPersona(id) => (true, self.select_persona(id)),
            EngineCommand::DeletePersona(id) => (true, self.delete_persona(id)),
            EngineCommand::ImportPersona { persona, overwrite } => (true, self.import_persona(persona, overwrite)),
            EngineCommand::UpdateGreetingConfig(c) => (true, Some(self.update_greeting_config(c))),
            EngineCommand::UpdateMemoryConfig(c) => (true, Some(self.update_memory_config(c))),
            EngineCommand::RememberFact { key, value, confidence } => {
                self.remember_fact(key.as_str(), value.as_str(), confidence);
                (true, None)
            },
            EngineCommand::ForgetFact(id) => {
                self.forget_fact(id.as_str());
                (true, None)
            },
            EngineCommand::UpdateFact { id, key, value, confidence } => {
                self.update_fact(id.as_str(), key.as_str(), value.as_str(), confidence);
                (true, None)
            },
            EngineCommand::ClearMemoryScope(scope) => {
                self.clear_memory_scope(scope);
                (true, None)
            },
            EngineCommand::ClearMemory => {
                self.clear_memory();
                (true, None)
            },
            EngineCommand::ListModels => (true, self.list_models()),
            EngineCommand::ModelsResult(result) => {
                self.models_result(result);
                (true, None)
            },
            EngineCommand::SendConversation(text) => (true, self.send_conversation(text, now)),
            EngineCommand::ConversationResult(result) => {
                self.conversation_result(result, now);
                (true, None)
            },
            EngineCommand::GreetingResult(result) => (true, self.greeting_result(result, now)),
            EngineCommand::PetLoaded { id, display_name } => {
                self.bind_pet(id, display_name);
                (true, None)
            },
            EngineCommand::PetRemoved { id, next } => {
                let was_active = match &self.selected_pet {
                    Some(p) => str_eq(p.as_str(), id.as_str()),
                    None => false,
                };
                (true, Some(self.pet_deleted(id.as_str(), was_active, next)))
            },
            EngineCommand::Stop => (false, None),
        }
    }
}

// ------------------------------------------------------------------------------------------
// Laws of the runtime
// ------------------------------------------------------------------------------------------
/// Choosing a speaking style while a pet is shown binds it to that pet, so
/// showing the pet again later (with the bindings and the persona still in
/// place) brings the same style back.
pub proof fn lemma_pet_restores_chosen_persona(
    v: RuntimeView,
    w: RuntimeView,
    a: Option<EngineAction>,
    id: String,
    pet: Seq<char>,
    u: RuntimeView,
    x: RuntimeView,
    display_name: Option<Seq<char>>,
)
    requires
        post_select_persona(v, w, a, id),
        v.selected_pet == Some(pet),
        first_with_id(v.personas, id@) < v.personas.len(),
        u.bindings == w.bindings,
        first_with_id(u.personas, id@) < u.personas.len(),
        post_bind_pet(u, x, pet, display_name),
    ensures
        w.bindings.dom().contains(pet) && w.bindings[pet] == id@,
        x.persona == u.personas[first_with_id(u.personas, id@)],
        x.active_persona == Some(u.personas[first_with_id(u.personas, id@)].id),
        x.selected_pet == Some(pet),
{
}

/// Removing a pet drops only its binding: every persona and all memory stay.
pub proof fn lemma_pet_removal_keeps_personas_and_memory(
    v: RuntimeView,
    w: RuntimeView,
    pet: Seq<char>,
    was_active: bool,
    next: Option<Seq<char>>,
)
    requires
        post_pet_deleted(v, w, pet, was_active, next),
    ensures
        w.personas == v.personas,
        w.persona == v.persona,
        w.memory == v.memory,
        !w.bindings.dom().contains(pet),
{
}

/// At most one reply request is running: while one is pending, another
/// message starts nothing and changes nothing.
pub proof fn lemma_one_reply_at_a_time(v: RuntimeView, w: RuntimeView, a: Option<EngineAction>, text: String, now: u64)
    requires
        v.conversation_inflight,
        post_send_conversation(v, w, a, text, now),
    ensures
        w == v,
        a is None,
{
}

/// A message that starts a reply leaves a reply pending, so the next message
/// waits for the answer.
pub proof fn lemma_started_reply_is_pending(v: RuntimeView, w: RuntimeView, a: Option<EngineAction>, text: String, now: u64)
    requires
        post_send_conversation(v, w, a, text, now),
        a is Some,
    ensures
        w.conversation_inflight,
        w.history.len() == v.history.len() + 1,
        w.history.last() == (true, text@),
{
}

/// The answer to a reply request ends it, whatever the answer was.
pub proof fn lemma_reply_result_ends_request(v: RuntimeView, w: RuntimeView, a: Option<EngineAction>, result: Result<String, String>, now: u64)
    requires
        post_conversation_result(v, w, a, result, now),
    ensures
        !w.conversation_inflight,
        w.bubble is Some,
        w.history.len() == v.history.len() + 1,
{
}

/// Saving a persona that passes validation puts it into the store, where
/// selecting it by id finds it.
pub proof fn lemma_saved_persona_is_listed(v: RuntimeView, w: RuntimeView, a: Option<EngineAction>)
    requires
        post_save_persona(v, w, a),
        validation_error(v.persona) is None,
    ensures
        w.personas.contains(v.persona),
{
    crate::persona::lemma_sort_by_name_contains(other_ids(v.personas, v.persona.id).push(v.persona), v.persona);
    assert(other_ids(v.personas, v.persona.id).push(v.persona).last() == v.persona);
}

// ------------------------------------------------------------------------------------------
// Start-up
// ------------------------------------------------------------------------------------------
/// The settings the runtime starts from, as the configuration file holds
/// them.
#[derive(Debug)]
pub struct RuntimeSettings {
    pub switches: WindowSwitches,
    pub memory_config: MemoryConfig,
    pub greeting_config: GreetingConfig,
    pub active_persona: Option<String>,
    pub persona_by_pet: StringMap,
}

/// The persona the runtime starts with: the one bound to the pet being
/// shown, else the configured active one, else the first listed one, else
/// the shipped default.
pub open spec fn initial_persona(
    personas: Seq<PersonaView>,
    bindings: Map<Seq<char>, Seq<char>>,
    pet: Option<Seq<char>>,
    active: Option<Seq<char>>,
) -> PersonaView {
    if pet matches Some(p) && bindings.dom().contains(p) && first_with_id(personas, bindings[p]) < personas.len() {
        personas[first_with_id(personas, bindings[pet->0])]
    } else if active matches Some(a) && first_with_id(personas, a) < personas.len() {
        personas[first_with_id(personas, active->0)]
    } else if personas.len() > 0 {
        personas[0]
    } else {
        crate::persona::default_persona()
    }
}

/// The store after seeding the default persona into an empty one.
pub open spec fn seeded(personas: Seq<PersonaView>) -> Seq<PersonaView> {
    if personas.len() == 0 {
        seq![crate::persona::default_persona()]
    } else {
        personas
    }
}

/// The bindings after start-up: a pet shown without a binding is bound to
/// the persona the runtime starts with.
pub open spec fn startup_bindings(bindings: Map<Seq<char>, Seq<char>>, pet: Option<Seq<char>>, persona: Seq<char>) -> Map<Seq<char>, Seq<char>> {
    if pet matches Some(p) && !bindings.dom().contains(p) {
        bindings.insert(pet->0, persona)
    } else {
        bindings
    }
}

/// The memory after start-up: the start is recorded when a pet is shown,
/// then events older than the retention window are dropped.
pub open spec fn startup_memory(
    before: MemoryMap,
    after: MemoryMap,
    pid: Seq<char>,
    pet_name: Option<Seq<char>>,
    days: u32,
) -> bool {
    exists|m: MemoryMap|
        #[trigger] events_pruned(m, after, pid, days) && match pet_name {
            Some(name) => event_recorded(before, m, pid, EventKind::AppStart, Some("Petsona 启动："@ + name)),
            None => m == before,
        }
}

impl PetsonaRuntime {
    /// The runtime at start-up, from the persona store and memory read from
    /// disk, the configured settings, the pet being shown (its id and
    /// display name, when one loaded) and the worker clock `now`.
    pub fn load(
        personas: PersonaStore,
        memory: PetMemory,
        settings: RuntimeSettings,
        active_pet: Option<String>,
        pet_name: Option<String>,
        now: u64,
    ) -> (r: Self)
        requires
            memory.wf(),
        ensures
            r.wf(),
            ({
                let store = seeded(personas@);
                let p = initial_persona(
                    store,
                    settings.persona_by_pet@,
                    opt_view(active_pet),
                    opt_view(settings.active_persona),
                );
                &&& r@.personas == store
                &&& r@.persona == p
                &&& r@.active_persona == Some(p.id)
                &&& r@.bindings == startup_bindings(settings.persona_by_pet@, opt_view(active_pet), p.id)
                &&& r@.selected_pet == opt_view(active_pet)
                &&& startup_memory(
                    memory@,
                    r@.memory,
                    p.id,
                    opt_view(pet_name),
                    settings.memory_config.event_retention_days,
                )
                &&& r@.pet_visible
                &&& r@.switches == settings.switches
                &&& r@.memory_config == settings.memory_config
                &&& r@.greeting_config == settings.greeting_config
                &&& r@.bubble is None
                &&& r@.status == Seq::<char>::empty()
                &&& r@.history == Seq::<(bool, Seq<char>)>::empty()
                &&& !r@.conversation_inflight && !r@.greeting_inflight && !r@.models_inflight
                &&& r@.models == Seq::<Seq<char>>::empty()
                &&& r@.import_conflict is None
                &&& r@.last_user_action == now
                &&& r@.last_greeting_at is None
            }),
    {
        let mut personas = personas;
        personas.ensure();
        let RuntimeSettings { switches, memory_config, greeting_config, active_persona, persona_by_pet } = settings;
        let mut bindings = persona_by_pet;
        let bound: Option<Persona> = match &active_pet {
            Some(pet) => match bindings.get(pet.as_str()) {
                Some(id) => personas.get(id.as_str()),
                None => None,
            },
            None => None,
        };
        let persona = match bound {
            Some(p) => p,
            None => {
                let active = match &active_persona {
                    Some(a) => personas.get(a.as_str()),
                    None => None,
                };
                match active {
                    Some(p) => p,
                    None => {
                        let all = personas.list();
                        if all.len() > 0 {
                            all[0].clone()
                        } else {
                            Persona::default()
                        }
                    },
                }
            },
        };
        if let Some(pet) = &active_pet {
            if bindings.get(pet.as_str()).is_none() {
                bindings.insert(pet.as_str(), persona.id.as_str());
            }
        }
        let mut memory = memory;
        let ghost m0 = memory@;
        if let Some(name) = &pet_name {
            let mut text = chars_of("Petsona 启动：");
            append_str(&mut text, name.as_str());
            let text = string_from_chars(&text);
            let _ = memory.record_event(persona.id.as_str(), EventKind::AppStart, Some(text));
        }
        let ghost m1 = memory@;
        let _ = memory.prune_events(persona.id.as_str(), memory_config.event_retention_days);
        assert(events_pruned(m1, memory@, persona.id@, memory_config.event_retention_days));
        let r = PetsonaRuntime {
            pet_visible: true,
            switches,
            bubble: None,
            status: String::new(),
            active_persona: Some(persona.id.clone()),
            persona,
            personas,
            memory,
            persona_by_pet: bindings,
            selected_pet: active_pet,
            memory_config,
            greeting_config,
            conversation_history: Vec::new(),
            conversation_inflight: false,
            greeting_inflight: false,
            models_inflight: false,
            models: Vec::new(),
            import_conflict: None,
            last_user_action: now,
            last_greeting_at: None,
        };
        assert(r@.history =~= Seq::<(bool, Seq<char>)>::empty());
        assert(r@.models =~= Seq::<Seq<char>>::empty());
        r
    }
}

/// After a restart, a pet's binding wins over the configured active persona:
/// the runtime starts with the persona bound to the pet it shows.
pub proof fn lemma_restart_restores_bound_persona(
    personas: Seq<PersonaView>,
    bindings: Map<Seq<char>, Seq<char>>,
    pet: Seq<char>,
    active: Option<Seq<char>>,
)
    requires
        bindings.dom().contains(pet),
        first_with_id(personas, bindings[pet]) < personas.len(),
    ensures
        initial_persona(personas, bindings, Some(pet), active) == personas[first_with_id(personas, bindings[pet])],
        initial_persona(personas, bindings, Some(pet), active).id == bindings[pet],
{
    crate::persona::lemma_first_with_id(personas, bindings[pet]);
}

/// The first start with a pet binds the pet to the persona the runtime
/// starts with, and a binding that exists is kept.
pub proof fn lemma_first_start_binds_pet(bindings: Map<Seq<char>, Seq<char>>, pet: Seq<char>, persona: Seq<char>)
    ensures
        startup_bindings(bindings, Some(pet), persona).dom().contains(pet),
        !bindings.dom().contains(pet) ==> startup_bindings(bindings, Some(pet), persona)[pet] == persona,
        bindings.dom().contains(pet) ==> startup_bindings(bindings, Some(pet), persona) == bindings,
{
}

// ------------------------------------------------------------------------------------------
// Provider key
// ------------------------------------------------------------------------------------------
/// Status after the key of `provider` was saved (or, when blank, cleared).
pub open spec fn key_saved_status(provider: Seq<char>, key: Seq<char>) -> Seq<char> {
    if trim_spec(key).len() == 0 {
        "已清除 "@ + provider + " 的凭据"@
    } else {
        provider + " 密钥已保存到系统凭据库"@
    }
}

impl PetsonaRuntime {
    /// Save (or, with a blank key, clear) the key of `provider` in `store`.
    /// Keys are per provider: switching providers never touches the other
    /// one's key. Only the status changes here.
    pub fn save_deepseek_key<S: crate::deepseek::SecretStore>(&mut self, provider: &str, key: &str, store: &mut S)
        ensures
            final(self).wf() == old(self).wf(),
            final(self)@ == (RuntimeView { status: final(self)@.status, ..old(self)@ }),
            old(store).infallible() ==> final(self)@.status == key_saved_status(provider@, key@),
            final(self)@.status == key_saved_status(provider@, key@) || crate::text::has_prefix(
                final(self)@.status,
                "保存密钥失败："@,
            ),
            old(store).infallible() && trim_spec(key@).len() == 0 ==> final(store).secrets()
                == crate::deepseek::cleared(old(store).secrets(), provider@),
            old(store).infallible() && trim_spec(key@).len() > 0 ==> final(store).secrets()
                == old(store).secrets().insert(crate::deepseek::api_key_slot_spec(provider@), trim_spec(key@)),
    {
        match crate::deepseek::save_api_key(provider, key, store) {
            Ok(()) => {
                if crate::text::is_blank(key) {
                    self.status = concat3("已清除 ", provider, " 的凭据");
                } else {
                    self.status = concat(provider, " 密钥已保存到系统凭据库");
                }
            },
            Err(e) => {
                let m = e.message();
                self.status = concat("保存密钥失败：", m.as_str());
                assert(self.status@.subrange(0, "保存密钥失败："@.len() as int) =~= "保存密钥失败："@);
            },
        }
    }
}


impl PetsonaRuntime {
    /// The plain-text part of the projection read by native frontends: the
    /// persona's id and name, the bubble text, and the status, shown both as
    /// the error and the status line. The pet, atlas, position and JSON fields
    /// are left empty for the host, which owns the pet session and the
    /// serialised forms.
    pub fn projected_texts(&self) -> (r: RuntimeTexts)
        ensures
            r.persona_id@ == self.persona.id@,
            r.persona_name@ == self.persona.name@,
            r.bubble@ == (match self.bubble {
                Some(b) => b.text@,
                None => Seq::<char>::empty(),
            }),
            r.error@ == self.status@,
            r.status@ == self.status@,
            r.state@.len() == 0 && r.pet_id@.len() == 0 && r.pet_name@.len() == 0,
            r.atlas_path@.len() == 0 && r.position@.len() == 0,
            r.pets@.len() == 0 && r.codex_pets@.len() == 0 && r.persona@.len() == 0,
            r.personas@.len() == 0 && r.deepseek_config@.len() == 0 && r.memory@.len() == 0,
            r.import_conflict@.len() == 0 && r.models@.len() == 0,
    {
        let bubble = match &self.bubble {
            Some(b) => owned(b.text.as_str()),
            None => String::new(),
        };
        RuntimeTexts {
            state: String::new(),
            pet_id: String::new(),
            pet_name: String::new(),
            bubble,
            atlas_path: String::new(),
            error: owned(self.status.as_str()),
            pets: String::new(),
            persona_id: owned(self.persona.id.as_str()),
            persona_name: owned(self.persona.name.as_str()),
            status: owned(self.status.as_str()),
            position: String::new(),
            codex_pets: String::new(),
            persona: String::new(),
            personas: String::new(),
            deepseek_config: String::new(),
            memory: String::new(),
            import_conflict: String::new(),
            models: String::new(),
        }
    }
}


/// Status after an export with `facts` facts and `events` events was written.
pub open spec fn exported_status(facts: nat, events: nat) -> Seq<char> {
    "已导出记忆："@ + decimal(facts) + " 条偏好 / "@ + decimal(events) + " 条事件"@
}

/// Status after an import of `facts` facts and `events` events.
pub open spec fn imported_status(facts: nat, events: nat) -> Seq<char> {
    "已导入记忆："@ + decimal(facts) + " 条偏好 / "@ + decimal(events) + " 条事件（覆盖当前人格）"@
}

impl PetsonaRuntime {
    /// The current persona's memory as an export bundle, for the host to
    /// write out.
    pub fn export_memory(&self) -> (bundle: MemoryExport)
        requires
            self.wf(),
        ensures
            bundle.kind@ == MEMORY_EXPORT_KIND@,
            bundle.version == MEMORY_VERSION,
            bundle.persona_id@ == self@.persona.id,
            fact_views(bundle.facts@) == persona_or_empty(self@.memory, self@.persona.id).facts,
            event_views(bundle.events@) == persona_or_empty(self@.memory, self@.persona.id).events,
    {
        self.memory.export_persona(self.persona.id.as_str())
    }

    /// Report that an export of `facts` facts and `events` events was written.
    pub fn memory_exported(&mut self, facts: usize, events: usize)
        ensures
            final(self).wf() == old(self).wf(),
            final(self)@ == (RuntimeView { status: exported_status(facts as nat, events as nat), ..old(self)@ }),
    {
        let mut v = chars_of("已导出记忆：");
        append_chars(&mut v, &decimal_chars(facts as u64));
        append_str(&mut v, " 条偏好 / ");
        append_chars(&mut v, &decimal_chars(events as u64));
        append_str(&mut v, " 条事件");
        self.status = string_from_chars(&v);
    }

    /// Replace the current persona's facts and events by those of an export
    /// bundle; a bundle of another kind changes nothing. The status says
    /// what was imported, or why nothing was.
    pub fn import_memory(&mut self, bundle: MemoryExport)
        requires
            old(self).wf(),
        ensures
            final(self).wf(),
            ({
                let v = old(self)@;
                let pid = v.persona.id;
                if bundle.kind@ == MEMORY_EXPORT_KIND@ {
                    final(self)@ == (RuntimeView {
                        memory: v.memory.insert(
                            pid,
                            imported_spec(
                                persona_or_empty(v.memory, pid),
                                fact_views(bundle.facts@),
                                event_views(bundle.events@),
                            ),
                        ),
                        status: imported_status(bundle.facts.len() as nat, bundle.events.len() as nat),
                        ..v
                    })
                } else {
                    final(self)@ == (RuntimeView {
                        status: "导入记忆失败："@ + "记忆导出文件的 kind 字段不匹配"@,
                        ..v
                    })
                }
            }),
    {
        let r = self.memory.import_persona(self.persona.id.as_str(), bundle);
        self.status = match r {
            Ok((facts, events)) => {
                let mut v = chars_of("已导入记忆：");
                append_chars(&mut v, &decimal_chars(facts as u64));
                append_str(&mut v, " 条偏好 / ");
                append_chars(&mut v, &decimal_chars(events as u64));
                append_str(&mut v, " 条事件（覆盖当前人格）");
                string_from_chars(&v)
            },
            Err(e) => {
                let mut v = chars_of("导入记忆失败：");
                append_str(&mut v, e.message());
                string_from_chars(&v)
            },
        };
    }

    /// Report a failed file operation: `prefix` followed by the error.
    pub fn report_failure(&mut self, prefix: &str, error: &str)
        ensures
            final(self).wf() == old(self).wf(),
            final(self)@ == (RuntimeView { status: prefix@ + error@, ..old(self)@ }),
    {
        let mut v = chars_of(prefix);
        append_str(&mut v, error);
        self.status = string_from_chars(&v);
    }
}


/// The state a native frontend polls, besides the texts.
#[derive(Debug, Clone, Copy, PartialEq, Eq, Structural)]
pub struct EngineSnapshot {
    /// The worker has loaded (or failed to load) its data.
    pub ready: bool,
    /// The worker failed and the engine is unusable.
    pub faulted: bool,
    /// Counts the projections published so far.
    pub revision: u64,
    pub has_pet: bool,
    pub pet_visible: bool,
    pub click_through: bool,
    pub auto_walk: bool,
    pub gravity_enabled: bool,
    pub always_on_top: bool,
    pub conversation_inflight: bool,
    /// Turns in the conversation history (at most `u32::MAX`).
    pub conversation_history_len: u32,
    /// Milliseconds until the frontend should look again.
    pub next_frame_ms: u32,
}

/// The wait reported for a shown pet: its time to the next frame, kept
/// between 1 ms and `u32::MAX`; the idle wait without a pet.
pub open spec fn snapshot_wait(next_frame_ms: Option<u64>) -> u32 {
    match next_frame_ms {
        Some(ms) => if ms < 1 {
            1
        } else if ms > u32::MAX {
            u32::MAX
        } else {
            ms as u32
        },
        None => IDLE_WORKER_WAIT_MS as u32,
    }
}

impl EngineSnapshot {
    /// The snapshot of a worker that failed to start: ready, faulted, no pet,
    /// the idle wait, everything else off.
    pub fn fault() -> (s: Self)
        ensures
            s.ready && s.faulted && s.revision == 0 && !s.has_pet && !s.pet_visible,
            !s.click_through && !s.auto_walk && !s.gravity_enabled && !s.always_on_top,
            !s.conversation_inflight && s.conversation_history_len == 0,
            s.next_frame_ms == IDLE_WORKER_WAIT_MS,
    {
        EngineSnapshot {
            ready: true,
            faulted: true,
            revision: 0,
            has_pet: false,
            pet_visible: false,
            click_through: false,
            auto_walk: false,
            gravity_enabled: false,
            always_on_top: false,
            conversation_inflight: false,
            conversation_history_len: 0,
            next_frame_ms: IDLE_WORKER_WAIT_MS as u32,
        }
    }
}

impl PetsonaRuntime {
    /// The snapshot published as projection number `revision`.
    /// `next_frame_ms` is the shown pet's time to its next frame, `None`
    /// when no pet is loaded.
    pub fn snapshot(&self, revision: u64, next_frame_ms: Option<u64>) -> (s: EngineSnapshot)
        ensures
            s.ready && !s.faulted,
            s.revision == revision,
            s.has_pet == next_frame_ms is Some,
            s.pet_visible == self@.pet_visible,
            s.click_through == self@.switches.click_through,
            s.auto_walk == self@.switches.auto_walk,
            s.gravity_enabled == self@.switches.gravity_enabled,
            s.always_on_top == self@.switches.always_on_top,
            s.conversation_inflight == self@.conversation_inflight,
            s.conversation_history_len == (if self.conversation_history@.len() > u32::MAX {
                u32::MAX as int
            } else {
                self.conversation_history@.len() as int
            }),
            s.next_frame_ms == snapshot_wait(next_frame_ms),
    {
        let turns = self.conversation_history.len();
        let conversation_history_len: u32 = if turns > u32::MAX as usize {
            u32::MAX
        } else {
            turns as u32
        };
        let next: u32 = match next_frame_ms {
            Some(ms) => if ms < 1 {
                1
            } else if ms > u32::MAX as u64 {
                u32::MAX
            } else {
                ms as u32
            },
            None => IDLE_WORKER_WAIT_MS as u32,
        };
        EngineSnapshot {
            ready: true,
            faulted: false,
            revision,
            has_pet: next_frame_ms.is_some(),
            pet_visible: self.pet_visible,
            click_through: self.switches.click_through,
            auto_walk: self.switches.auto_walk,
            gravity_enabled: self.switches.gravity_enabled,
            always_on_top: self.switches.always_on_top,
            conversation_inflight: self.conversation_inflight,
            conversation_history_len,
            next_frame_ms: next,
        }
    }
}

} // verus!
