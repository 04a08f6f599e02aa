//! The native command protocol: the numeric codes of the C ABI, the decoding
//! of one command record into what the runtime worker is asked to do, and the
//! calling thread's last error.
//!
//! Pointers never reach this module: the ABI layer copies the caller's bytes
//! into owned strings first, and writes back the bytes computed here.
use vstd::prelude::*;
use vstd::string::StringSliceAdditionalSpecFns;

use crate::runtime::{text_of, RuntimeTextField, RuntimeTexts};
use crate::text::{
    append_chars, append_str, chars_of, decimal, decimal_chars, is_blank, owned, split_once, split_once_spec,
    str_eq, string_from_chars, trim, trim_spec,
};

verus! {

/// Version of the C ABI; callers pass it (or 0) when they create an engine.
pub const ABI_VERSION: u32 = 3;

// ------------------------------------------------------------------------------------------
// Text fields
// ------------------------------------------------------------------------------------------
/// Text fields a native frontend can copy out of the engine.
#[derive(Clone, Copy, Debug, PartialEq, Eq, Structural)]
pub enum PetsonaTextField {
    State,
    PetId,
    PetName,
    Bubble,
    AtlasPath,
    Error,
    Pets,
    PersonaId,
    PersonaName,
    Status,
    Position,
    CodexPets,
    Persona,
    Personas,
    DeepSeekConfig,
    Memory,
    ImportConflict,
    Models,
}

/// The ABI number of a text field.
pub open spec fn text_field_code(f: PetsonaTextField) -> u32 {
    match f {
        PetsonaTextField::State => 0,
        PetsonaTextField::PetId => 1,
        PetsonaTextField::PetName => 2,
        PetsonaTextField::Bubble => 3,
        PetsonaTextField::AtlasPath => 4,
        PetsonaTextField::Error => 5,
        PetsonaTextField::Pets => 6,
        PetsonaTextField::PersonaId => 7,
        PetsonaTextField::PersonaName => 8,
        PetsonaTextField::Status => 9,
        PetsonaTextField::Position => 10,
        PetsonaTextField::CodexPets => 11,
        PetsonaTextField::Persona => 12,
        PetsonaTextField::Personas => 13,
        PetsonaTextField::DeepSeekConfig => 14,
        PetsonaTextField::Memory => 15,
        PetsonaTextField::ImportConflict => 16,
        PetsonaTextField::Models => 17,
    }
}

/// The runtime text a field projects.
pub open spec fn runtime_field_of(f: PetsonaTextField) -> RuntimeTextField {
    match f {
        PetsonaTextField::State => RuntimeTextField::State,
        PetsonaTextField::PetId => RuntimeTextField::PetId,
        PetsonaTextField::PetName => RuntimeTextField::PetName,
        PetsonaTextField::Bubble => RuntimeTextField::Bubble,
        PetsonaTextField::AtlasPath => RuntimeTextField::AtlasPath,
        PetsonaTextField::Error => RuntimeTextField::Error,
        PetsonaTextField::Pets => RuntimeTextField::Pets,
        PetsonaTextField::PersonaId => RuntimeTextField::PersonaId,
        PetsonaTextField::PersonaName => RuntimeTextField::PersonaName,
        PetsonaTextField::Status => RuntimeTextField::Status,
        PetsonaTextField::Position => RuntimeTextField::Position,
        PetsonaTextField::CodexPets => RuntimeTextField::CodexPets,
        PetsonaTextField::Persona => RuntimeTextField::Persona,
        PetsonaTextField::Personas => RuntimeTextField::Personas,
        PetsonaTextField::DeepSeekConfig => RuntimeTextField::DeepSeekConfig,
        PetsonaTextField::Memory => RuntimeTextField::Memory,
        PetsonaTextField::ImportConflict => RuntimeTextField::ImportConflict,
        PetsonaTextField::Models => RuntimeTextField::Models,
    }
}

impl PetsonaTextField {
    /// The ABI number of this field.
    pub fn code(&self) -> (r: u32)
        ensures
            r == text_field_code(*self),
    {
        match self {
            PetsonaTextField::State => 0,
            PetsonaTextField::PetId => 1,
            PetsonaTextField::PetName => 2,
            PetsonaTextField::Bubble => 3,
            PetsonaTextField::AtlasPath => 4,
            PetsonaTextField::Error => 5,
            PetsonaTextField::Pets => 6,
            PetsonaTextField::PersonaId => 7,
            PetsonaTextField::PersonaName => 8,
            PetsonaTextField::Status => 9,
            PetsonaTextField::Position => 10,
            PetsonaTextField::CodexPets => 11,
            PetsonaTextField::Persona => 12,
            PetsonaTextField::Personas => 13,
            PetsonaTextField::DeepSeekConfig => 14,
            PetsonaTextField::Memory => 15,
            PetsonaTextField::ImportConflict => 16,
            PetsonaTextField::Models => 17,
        }
    }
}

/// Decode an ABI text-field number into the field and the runtime text it
/// projects; unknown numbers give `None`.
pub fn text_field(field: u32) -> (r: Option<(PetsonaTextField, RuntimeTextField)>)
    ensures
        match r {
            Some((f, rf)) => text_field_code(f) == field && rf == runtime_field_of(f),
            None => forall|f: PetsonaTextField| text_field_code(f) != field,
        },
{
    let f = match field {
        0 => PetsonaTextField::State,
        1 => PetsonaTextField::PetId,
        2 => PetsonaTextField::PetName,
        3 => PetsonaTextField::Bubble,
        4 => PetsonaTextField::AtlasPath,
        5 => PetsonaTextField::Error,
        6 => PetsonaTextField::Pets,
        7 => PetsonaTextField::PersonaId,
        8 => PetsonaTextField::PersonaName,
        9 => PetsonaTextField::Status,
        10 => PetsonaTextField::Position,
        11 => PetsonaTextField::CodexPets,
        12 => PetsonaTextField::Persona,
        13 => PetsonaTextField::Personas,
        14 => PetsonaTextField::DeepSeekConfig,
        15 => PetsonaTextField::Memory,
        16 => PetsonaTextField::ImportConflict,
        17 => PetsonaTextField::Models,
        _ => {
            return None;
        },
    };
    let rf = match f {
        PetsonaTextField::State => RuntimeTextField::State,
        PetsonaTextField::PetId => RuntimeTextField::PetId,
        PetsonaTextField::PetName => RuntimeTextField::PetName,
        PetsonaTextField::Bubble => RuntimeTextField::Bubble,
        PetsonaTextField::AtlasPath => RuntimeTextField::AtlasPath,
        PetsonaTextField::Error => RuntimeTextField::Error,
        PetsonaTextField::Pets => RuntimeTextField::Pets,
        PetsonaTextField::PersonaId => RuntimeTextField::PersonaId,
        PetsonaTextField::PersonaName => RuntimeTextField::PersonaName,
        PetsonaTextField::Status => RuntimeTextField::Status,
        PetsonaTextField::Position => RuntimeTextField::Position,
        PetsonaTextField::CodexPets => RuntimeTextField::CodexPets,
        PetsonaTextField::Persona => RuntimeTextField::Persona,
        PetsonaTextField::Personas => RuntimeTextField::Personas,
        PetsonaTextField::DeepSeekConfig => RuntimeTextField::DeepSeekConfig,
        PetsonaTextField::Memory => RuntimeTextField::Memory,
        PetsonaTextField::ImportConflict => RuntimeTextField::ImportConflict,
        PetsonaTextField::Models => RuntimeTextField::Models,
    };
    Some((f, rf))
}

/// Different text fields have different numbers.
pub proof fn lemma_text_field_codes_distinct(a: PetsonaTextField, b: PetsonaTextField)
    ensures
        text_field_code(a) == text_field_code(b) ==> a == b,
{
}

/// The text handed out for a field: the engine's terminal error wins over the
/// runtime's own error text; every other field is the runtime's projection.
pub open spec fn field_text_spec(
    field: RuntimeTextField,
    terminal_error: Option<Seq<char>>,
    texts: RuntimeTexts,
) -> Seq<char> {
    match (field, terminal_error) {
        (RuntimeTextField::Error, Some(e)) => e,
        _ => text_of(texts, field),
    }
}

/// The text copied out for `field`.
pub fn field_text(field: RuntimeTextField, terminal_error: &Option<String>, texts: &RuntimeTexts) -> (r:
    String)
    ensures
        r@ == field_text_spec(
            field,
            match terminal_error {
                Some(e) => Some(e@),
                None => None,
            },
            *texts,
        ),
{
    match (field, terminal_error) {
        (RuntimeTextField::Error, Some(e)) => owned(e.as_str()),
        _ => owned(texts.get(field)),
    }
}

// ------------------------------------------------------------------------------------------
// Statuses
// ------------------------------------------------------------------------------------------
/// Result of an ABI call.
#[derive(Clone, Copy, Debug, PartialEq, Eq, Structural)]
pub enum PetsonaStatus {
    Success,
    InvalidArgument,
    InvalidHandle,
    AlreadyRunning,
    InitializationFailed,
    RuntimeFailed,
    Panic,
    Stopped,
}

/// The ABI number of a status.
pub open spec fn status_code(s: PetsonaStatus) -> i32 {
    match s {
        PetsonaStatus::Success => 0,
        PetsonaStatus::InvalidArgument => 1,
        PetsonaStatus::InvalidHandle => 2,
        PetsonaStatus::AlreadyRunning => 3,
        PetsonaStatus::InitializationFailed => 4,
        PetsonaStatus::RuntimeFailed => 5,
        PetsonaStatus::Panic => 6,
        PetsonaStatus::Stopped => 7,
    }
}

impl PetsonaStatus {
    /// The ABI number of this status.
    pub fn code(&self) -> (r: i32)
        ensures
            r == status_code(*self),
    {
        match self {
            PetsonaStatus::Success => 0,
            PetsonaStatus::InvalidArgument => 1,
            PetsonaStatus::InvalidHandle => 2,
            PetsonaStatus::AlreadyRunning => 3,
            PetsonaStatus::InitializationFailed => 4,
            PetsonaStatus::RuntimeFailed => 5,
            PetsonaStatus::Panic => 6,
            PetsonaStatus::Stopped => 7,
        }
    }
}

/// Status of an engine before it takes a command: a terminal error (a panic
/// crossed the boundary) outranks a runtime fault.
pub open spec fn runtime_status_spec(terminal_error: bool, faulted: bool) -> PetsonaStatus {
    if terminal_error {
        PetsonaStatus::Panic
    } else if faulted {
        PetsonaStatus::RuntimeFailed
    } else {
        PetsonaStatus::Success
    }
}

/// The status an engine reports from its terminal error and fault flags.
pub fn runtime_status(terminal_error: bool, faulted: bool) -> (r: PetsonaStatus)
    ensures
        r == runtime_status_spec(terminal_error, faulted),
{
    if terminal_error {
        PetsonaStatus::Panic
    } else if faulted {
        PetsonaStatus::RuntimeFailed
    } else {
        PetsonaStatus::Success
    }
}

// ------------------------------------------------------------------------------------------
// Engine creation
// ------------------------------------------------------------------------------------------
/// The message for an ABI version the library does not speak.
pub open spec fn abi_version_message(version: u32) -> Seq<char> {
    "unsupported ABI version "@ + decimal(version as nat) + "; expected 3"@
}

/// Accept the caller's ABI version: 0 (unspecified) or the current one.
pub fn check_abi_version(version: u32) -> (r: Result<(), String>)
    ensures
        version == 0 || version == ABI_VERSION <==> r is Ok,
        r matches Err(m) ==> m@ == abi_version_message(version),
{
    if version != 0 && version != ABI_VERSION {
        let mut v = chars_of("unsupported ABI version ");
        let d = decimal_chars(version as u64);
        append_chars(&mut v, &d);
        let tail = chars_of("; expected 3");
        append_chars(&mut v, &tail);
        return Err(string_from_chars(&v));
    }
    Ok(())
}

/// The data directory asked for at creation: a blank one means the default.
pub fn home_dir(value: String) -> (r: Option<String>)
    ensures
        trim_spec(value@).len() == 0 <==> r is None,
        r matches Some(h) ==> h@ == value@,
{
    if is_blank(value.as_str()) {
        None
    } else {
        Some(value)
    }
}

// ------------------------------------------------------------------------------------------
// Commands
// ------------------------------------------------------------------------------------------
/// Commands a native frontend can send.
#[derive(Clone, Copy, Debug, PartialEq, Eq, Structural)]
pub enum PetsonaCommandKind {
    SetVisibility,
    SetClickThrough,
    SetScale,
    SetState,
    ShowBubble,
    ClearBubble,
    SetPosition,
    SetAutoWalk,
    SetGravity,
    SetAlwaysOnTop,
    SetGazeTarget,
    ClearGaze,
    ScanCodexPets,
    RefreshPets,
    ImportPet,
    ExportPet,
    SelectPet,
    DeletePet,
    UpdatePersona,
    SavePersona,
    SaveDeepSeekKey,
    SendConversation,
    UpdateDeepSeekConfig,
    UpdateMemoryConfig,
    RememberFact,
    ForgetFact,
    ClearMemory,
    RefreshPersonas,
    CreatePersona,
    DuplicatePersona,
    SelectPersona,
    DeletePersona,
    ImportPersona,
    ExportPersona,
    ClearImportConflict,
    UpdateGreetingConfig,
}

/// The ABI number of a command kind.
pub open spec fn command_kind_code(k: PetsonaCommandKind) -> u32 {
    match k {
        PetsonaCommandKind::SetVisibility => 1,
        PetsonaCommandKind::SetClickThrough => 2,
        PetsonaCommandKind::SetScale => 3,
        PetsonaCommandKind::SetState => 4,
        PetsonaCommandKind::ShowBubble => 5,
        PetsonaCommandKind::ClearBubble => 6,
        PetsonaCommandKind::SetPosition => 7,
        PetsonaCommandKind::SetAutoWalk => 8,
        PetsonaCommandKind::SetGravity => 9,
        PetsonaCommandKind::SetAlwaysOnTop => 10,
        PetsonaCommandKind::SetGazeTarget => 20,
        PetsonaCommandKind::ClearGaze => 21,
        PetsonaCommandKind::ScanCodexPets => 22,
        PetsonaCommandKind::RefreshPets => 11,
        PetsonaCommandKind::ImportPet => 12,
        PetsonaCommandKind::ExportPet => 13,
        PetsonaCommandKind::SelectPet => 14,
        PetsonaCommandKind::DeletePet => 15,
        PetsonaCommandKind::UpdatePersona => 16,
        PetsonaCommandKind::SavePersona => 17,
        PetsonaCommandKind::SaveDeepSeekKey => 18,
        PetsonaCommandKind::SendConversation => 19,
        PetsonaCommandKind::UpdateDeepSeekConfig => 23,
        PetsonaCommandKind::UpdateMemoryConfig => 24,
        PetsonaCommandKind::RememberFact => 25,
        PetsonaCommandKind::ForgetFact => 26,
        PetsonaCommandKind::ClearMemory => 27,
        PetsonaCommandKind::RefreshPersonas => 28,
        PetsonaCommandKind::CreatePersona => 29,
        PetsonaCommandKind::DuplicatePersona => 30,
        PetsonaCommandKind::SelectPersona => 31,
        PetsonaCommandKind::DeletePersona => 32,
        PetsonaCommandKind::ImportPersona => 33,
        PetsonaCommandKind::ExportPersona => 34,
        PetsonaCommandKind::ClearImportConflict => 35,
        PetsonaCommandKind::UpdateGreetingConfig => 36,
    }
}

impl PetsonaCommandKind {
    /// The ABI number of this command kind.
    pub fn code(&self) -> (r: u32)
        ensures
            r == command_kind_code(*self),
    {
        match self {
            PetsonaCommandKind::SetVisibility => 1,
            PetsonaCommandKind::SetClickThrough => 2,
            PetsonaCommandKind::SetScale => 3,
            PetsonaCommandKind::SetState => 4,
            PetsonaCommandKind::ShowBubble => 5,
            PetsonaCommandKind::ClearBubble => 6,
            PetsonaCommandKind::SetPosition => 7,
            PetsonaCommandKind::SetAutoWalk => 8,
            PetsonaCommandKind::SetGravity => 9,
            PetsonaCommandKind::SetAlwaysOnTop => 10,
            PetsonaCommandKind::SetGazeTarget => 20,
            PetsonaCommandKind::ClearGaze => 21,
            PetsonaCommandKind::ScanCodexPets => 22,
            PetsonaCommandKind::RefreshPets => 11,
            PetsonaCommandKind::ImportPet => 12,
            PetsonaCommandKind::ExportPet => 13,
            PetsonaCommandKind::SelectPet => 14,
            PetsonaCommandKind::DeletePet => 15,
            PetsonaCommandKind::UpdatePersona => 16,
            PetsonaCommandKind::SavePersona => 17,
            PetsonaCommandKind::SaveDeepSeekKey => 18,
            PetsonaCommandKind::SendConversation => 19,
            PetsonaCommandKind::UpdateDeepSeekConfig => 23,
            PetsonaCommandKind::UpdateMemoryConfig => 24,
            PetsonaCommandKind::RememberFact => 25,
            PetsonaCommandKind::ForgetFact => 26,
            PetsonaCommandKind::ClearMemory => 27,
            PetsonaCommandKind::RefreshPersonas => 28,
            PetsonaCommandKind::CreatePersona => 29,
            PetsonaCommandKind::DuplicatePersona => 30,
            PetsonaCommandKind::SelectPersona => 31,
            PetsonaCommandKind::DeletePersona => 32,
            PetsonaCommandKind::ImportPersona => 33,
            PetsonaCommandKind::ExportPersona => 34,
            PetsonaCommandKind::ClearImportConflict => 35,
            PetsonaCommandKind::UpdateGreetingConfig => 36,
        }
    }
}

/// Different command kinds have different numbers, so a number names at
/// most one kind.
pub proof fn lemma_command_kind_codes_distinct(a: PetsonaCommandKind, b: PetsonaCommandKind)
    ensures
        command_kind_code(a) == command_kind_code(b) ==> a == b,
{
}

/// Decode a command number; unknown numbers give `None`.
pub fn command_kind(code: u32) -> (r: Option<PetsonaCommandKind>)
    ensures
        match r {
            Some(k) => command_kind_code(k) == code,
            None => forall|k: PetsonaCommandKind| command_kind_code(k) != code,
        },
        r is None <==> code == 0 || code > 36,
{
    match code {
        1 => Some(PetsonaCommandKind::SetVisibility),
        2 => Some(PetsonaCommandKind::SetClickThrough),
        3 => Some(PetsonaCommandKind::SetScale),
        4 => Some(PetsonaCommandKind::SetState),
        5 => Some(PetsonaCommandKind::ShowBubble),
        6 => Some(PetsonaCommandKind::ClearBubble),
        7 => Some(PetsonaCommandKind::SetPosition),
        8 => Some(PetsonaCommandKind::SetAutoWalk),
        9 => Some(PetsonaCommandKind::SetGravity),
        10 => Some(PetsonaCommandKind::SetAlwaysOnTop),
        11 => Some(PetsonaCommandKind::RefreshPets),
        12 => Some(PetsonaCommandKind::ImportPet),
        13 => Some(PetsonaCommandKind::ExportPet),
        14 => Some(PetsonaCommandKind::SelectPet),
        15 => Some(PetsonaCommandKind::DeletePet),
        16 => Some(PetsonaCommandKind::UpdatePersona),
        17 => Some(PetsonaCommandKind::SavePersona),
        18 => Some(PetsonaCommandKind::SaveDeepSeekKey),
        19 => Some(PetsonaCommandKind::SendConversation),
        20 => Some(PetsonaCommandKind::SetGazeTarget),
        21 => Some(PetsonaCommandKind::ClearGaze),
        22 => Some(PetsonaCommandKind::ScanCodexPets),
        23 => Some(PetsonaCommandKind::UpdateDeepSeekConfig),
        24 => Some(PetsonaCommandKind::UpdateMemoryConfig),
        25 => Some(PetsonaCommandKind::RememberFact),
        26 => Some(PetsonaCommandKind::ForgetFact),
        27 => Some(PetsonaCommandKind::ClearMemory),
        28 => Some(PetsonaCommandKind::RefreshPersonas),
        29 => Some(PetsonaCommandKind::CreatePersona),
        30 => Some(PetsonaCommandKind::DuplicatePersona),
        31 => Some(PetsonaCommandKind::SelectPersona),
        32 => Some(PetsonaCommandKind::DeletePersona),
        33 => Some(PetsonaCommandKind::ImportPersona),
        34 => Some(PetsonaCommandKind::ExportPersona),
        35 => Some(PetsonaCommandKind::ClearImportConflict),
        36 => Some(PetsonaCommandKind::UpdateGreetingConfig),
        _ => None,
    }
}

/// What a command record asks of the runtime worker. Numbers that the
/// frontend sends as text stay text here (trimmed, as the frontend wrote
/// them); JSON payloads stay the JSON text the frontend sent.
#[derive(Debug)]
pub enum DecodedCommand {
    SetVisibility(bool),
    SetClickThrough(bool),
    /// The scale is the record's floating-point value.
    SetScale,
    SetPosition { x: String, y: String },
    SetAutoWalk(bool),
    SetGravity(bool),
    SetAlwaysOnTop(bool),
    SetGazeTarget { dx: String, dy: String },
    ClearGaze,
    /// A pet state by name, held for `ttl_ms` milliseconds, or until changed.
    SetState { name: String, ttl_ms: Option<u64> },
    ShowBubble { text: String, duration_ms: u64 },
    ClearBubble,
    RefreshPets,
    ScanCodexPets,
    ImportPet { path: String, overwrite: bool },
    ClearImportConflict,
    ExportPet { id: String, path: String },
    SelectPet(String),
    DeletePet(String),
    UpdatePersona(String),
    SavePersona,
    RefreshPersonas,
    CreatePersona(String),
    DuplicatePersona(String),
    SelectPersona(String),
    DeletePersona(String),
    ImportPersona { path: String, overwrite: bool },
    ExportPersona { id: String, path: String },
    UpdateDeepSeekConfig(String),
    UpdateMemoryConfig(String),
    RememberFact(String),
    ForgetFact(String),
    ClearMemory,
    SaveDeepSeekKey(String),
    SendConversation(String),
}

/// How long a bubble stays when the record gives no time: eight seconds.
pub const DEFAULT_BUBBLE_TTL_MS: u64 = 8000;

/// The message for a command number that no decoder handles.
pub open spec fn unknown_kind_message(kind: u32) -> Seq<char> {
    "unknown command kind: "@ + decimal(kind as nat)
}

/// The pet states a state record may name.
pub open spec fn is_pet_state(name: Seq<char>) -> bool {
    ||| name == "idle"@
    ||| name == "running"@
    ||| name == "waiting"@
    ||| name == "failed"@
    ||| name == "review"@
    ||| name == "waving"@
    ||| name == "jumping"@
    ||| name == "running-left"@
    ||| name == "running-right"@
    ||| name == "look-row-9"@
    ||| name == "look-row-10"@
}

/// Does `name` name a pet state?
pub fn is_pet_state_name(name: &str) -> (r: bool)
    ensures
        r == is_pet_state(name@),
{
    str_eq(name, "idle") || str_eq(name, "running") || str_eq(name, "waiting") || str_eq(
        name,
        "failed",
    ) || str_eq(name, "review") || str_eq(name, "waving") || str_eq(name, "jumping") || str_eq(
        name,
        "running-left",
    ) || str_eq(name, "running-right") || str_eq(name, "look-row-9") || str_eq(name, "look-row-10")
}

/// Why a record cannot be decoded, if it cannot: a pair without its
/// separator, a state that is not a pet state, or a number that no decoder
/// handles.
pub open spec fn decode_error(kind: u32, text: Seq<char>) -> Option<Seq<char>> {
    if kind == 7 && split_once_spec(text, ',') is None {
        Some("position must be encoded as x,y"@)
    } else if kind == 20 && split_once_spec(text, ',') is None {
        Some("gaze target must be encoded as dx,dy"@)
    } else if kind == 13 && split_once_spec(text, '\n') is None {
        Some("export must be encoded as id\\npath"@)
    } else if kind == 34 && split_once_spec(text, '\n') is None {
        Some("persona export must be encoded as id\\npath"@)
    } else if kind == 4 && !is_pet_state(text) {
        Some("unknown pet state: "@ + text)
    } else if kind == 0 || kind > 35 {
        Some(unknown_kind_message(kind))
    } else {
        None
    }
}

/// The trimmed halves of a pair written `a<sep>b`.
pub open spec fn trimmed_pair(text: Seq<char>, sep: char) -> (Seq<char>, Seq<char>) {
    match split_once_spec(text, sep) {
        Some((a, b)) => (trim_spec(a), trim_spec(b)),
        None => (Seq::empty(), Seq::empty()),
    }
}

/// The halves of a pair written `a<sep>b`.
pub open spec fn raw_pair(text: Seq<char>, sep: char) -> (Seq<char>, Seq<char>) {
    match split_once_spec(text, sep) {
        Some(p) => p,
        None => (Seq::empty(), Seq::empty()),
    }
}

/// The command that a record (kind, switch, time, text) decodes to, where it
/// decodes. `on` is whether the record's value reads as switched on.
pub open spec fn decodes_to(kind: u32, on: bool, ttl_ms: u64, text: Seq<char>, c: DecodedCommand) -> bool {
    match c {
        DecodedCommand::SetVisibility(b) => kind == 1 && b == on,
        DecodedCommand::SetClickThrough(b) => kind == 2 && b == on,
        DecodedCommand::SetScale => kind == 3,
        DecodedCommand::SetState { name, ttl_ms: t } => kind == 4 && name@ == text && t == (if ttl_ms
            == 0 {
            None
        } else {
            Some(ttl_ms)
        }),
        DecodedCommand::ShowBubble { text: t, duration_ms: d } => kind == 5 && t@ == text && d == (if ttl_ms
            == 0 {
            DEFAULT_BUBBLE_TTL_MS
        } else {
            ttl_ms
        }),
        DecodedCommand::ClearBubble => kind == 6,
        DecodedCommand::SetPosition { x, y } => kind == 7 && (x@, y@) == trimmed_pair(text, ','),
        DecodedCommand::SetAutoWalk(b) => kind == 8 && b == on,
        DecodedCommand::SetGravity(b) => kind == 9 && b == on,
        DecodedCommand::SetAlwaysOnTop(b) => kind == 10 && b == on,
        DecodedCommand::RefreshPets => kind == 11,
        DecodedCommand::ImportPet { path, overwrite } => kind == 12 && path@ == text && overwrite
            == on,
        DecodedCommand::ExportPet { id, path } => kind == 13 && (id@, path@) == raw_pair(text, '\n'),
        DecodedCommand::SelectPet(t) => kind == 14 && t@ == text,
        DecodedCommand::DeletePet(t) => kind == 15 && t@ == text,
        DecodedCommand::UpdatePersona(t) => kind == 16 && t@ == text,
        DecodedCommand::SavePersona => kind == 17,
        DecodedCommand::SaveDeepSeekKey(t) => kind == 18 && t@ == text,
        DecodedCommand::SendConversation(t) => kind == 19 && t@ == text,
        DecodedCommand::SetGazeTarget { dx, dy } => kind == 20 && (dx@, dy@) == trimmed_pair(
            text,
            ',',
        ),
        DecodedCommand::ClearGaze => kind == 21,
        DecodedCommand::ScanCodexPets => kind == 22,
        DecodedCommand::UpdateDeepSeekConfig(t) => kind == 23 && t@ == text,
        DecodedCommand::UpdateMemoryConfig(t) => kind == 24 && t@ == text,
        DecodedCommand::RememberFact(t) => kind == 25 && t@ == text,
        DecodedCommand::ForgetFact(t) => kind == 26 && t@ == text,
        DecodedCommand::ClearMemory => kind == 27,
        DecodedCommand::RefreshPersonas => kind == 28,
        DecodedCommand::CreatePersona(t) => kind == 29 && t@ == text,
        DecodedCommand::DuplicatePersona(t) => kind == 30 && t@ == text,
        DecodedCommand::SelectPersona(t) => kind == 31 && t@ == text,
        DecodedCommand::DeletePersona(t) => kind == 32 && t@ == text,
        DecodedCommand::ImportPersona { path, overwrite } => kind == 33 && path@ == text && overwrite
            == on,
        DecodedCommand::ExportPersona { id, path } => kind == 34 && (id@, path@) == raw_pair(
            text,
            '\n',
        ),
        DecodedCommand::ClearImportConflict => kind == 35,
    }
}

fn trimmed_halves(text: &str, sep: char) -> (r: Option<(String, String)>)
    ensures
        r is None <==> split_once_spec(text@, sep) is None,
        r matches Some((a, b)) ==> (a@, b@) == trimmed_pair(text@, sep),
{
    match split_once(text, sep) {
        Some((a, b)) => Some((trim(a.as_str()), trim(b.as_str()))),
        None => None,
    }
}

fn invalid(message: &str) -> (r: (PetsonaStatus, String))
    ensures
        r.0 == PetsonaStatus::InvalidArgument,
        r.1@ == message@,
{
    (PetsonaStatus::InvalidArgument, owned(message))
}

/// Decode one command record. `on` is whether the record's value reads as
/// switched on (at least one half); `ttl_ms` is its time in milliseconds and
/// `text` its text, already copied out of the caller's memory.
///
/// The record is refused exactly where `decode_error` names a reason, with
/// `InvalidArgument` and that reason; otherwise it decodes to the one command
/// of its kind.
pub fn decode_command(kind: u32, on: bool, ttl_ms: u64, text: String) -> (r: Result<
    DecodedCommand,
    (PetsonaStatus, String),
>)
    ensures
        match r {
            Ok(c) => decode_error(kind, text@) is None && decodes_to(kind, on, ttl_ms, text@, c),
            Err((status, message)) => status == PetsonaStatus::InvalidArgument && decode_error(
                kind,
                text@,
            ) == Some(message@),
        },
{
    let ghost t = text@;
    let k = match command_kind(kind) {
        Some(k) => k,
        None => {
            let mut v = chars_of("unknown command kind: ");
            let d = decimal_chars(kind as u64);
            append_chars(&mut v, &d);
            return Err((PetsonaStatus::InvalidArgument, string_from_chars(&v)));
        },
    };
    match k {
        PetsonaCommandKind::SetVisibility => Ok(DecodedCommand::SetVisibility(on)),
        PetsonaCommandKind::SetClickThrough => Ok(DecodedCommand::SetClickThrough(on)),
        PetsonaCommandKind::SetScale => Ok(DecodedCommand::SetScale),
        PetsonaCommandKind::SetPosition => match trimmed_halves(text.as_str(), ',') {
            Some((x, y)) => Ok(DecodedCommand::SetPosition { x, y }),
            None => Err(invalid("position must be encoded as x,y")),
        },
        PetsonaCommandKind::SetAutoWalk => Ok(DecodedCommand::SetAutoWalk(on)),
        PetsonaCommandKind::SetGravity => Ok(DecodedCommand::SetGravity(on)),
        PetsonaCommandKind::SetAlwaysOnTop => Ok(DecodedCommand::SetAlwaysOnTop(on)),
        PetsonaCommandKind::SetGazeTarget => match trimmed_halves(text.as_str(), ',') {
            Some((dx, dy)) => Ok(DecodedCommand::SetGazeTarget { dx, dy }),
            None => Err(invalid("gaze target must be encoded as dx,dy")),
        },
        PetsonaCommandKind::ClearGaze => Ok(DecodedCommand::ClearGaze),
        PetsonaCommandKind::SetState => {
            if !is_pet_state_name(text.as_str()) {
                let mut v = chars_of("unknown pet state: ");
                append_str(&mut v, text.as_str());
                return Err((PetsonaStatus::InvalidArgument, string_from_chars(&v)));
            }
            let t = if ttl_ms == 0 {
                None
            } else {
                Some(ttl_ms)
            };
            Ok(DecodedCommand::SetState { name: text, ttl_ms: t })
        },
        PetsonaCommandKind::ShowBubble => {
            let d = if ttl_ms == 0 {
                DEFAULT_BUBBLE_TTL_MS
            } else {
                ttl_ms
            };
            Ok(DecodedCommand::ShowBubble { text, duration_ms: d })
        },
        PetsonaCommandKind::ClearBubble => Ok(DecodedCommand::ClearBubble),
        PetsonaCommandKind::RefreshPets => Ok(DecodedCommand::RefreshPets),
        PetsonaCommandKind::ScanCodexPets => Ok(DecodedCommand::ScanCodexPets),
        PetsonaCommandKind::ImportPet => Ok(DecodedCommand::ImportPet { path: text, overwrite: on }),
        PetsonaCommandKind::ClearImportConflict => Ok(DecodedCommand::ClearImportConflict),
        PetsonaCommandKind::ExportPet => match split_once(text.as_str(), '\n') {
            Some((id, path)) => Ok(DecodedCommand::ExportPet { id, path }),
            None => Err(invalid("export must be encoded as id\\npath")),
        },
        PetsonaCommandKind::SelectPet => Ok(DecodedCommand::SelectPet(text)),
        PetsonaCommandKind::DeletePet => Ok(DecodedCommand::DeletePet(text)),
        PetsonaCommandKind::UpdatePersona => Ok(DecodedCommand::UpdatePersona(text)),
        PetsonaCommandKind::SavePersona => Ok(DecodedCommand::SavePersona),
        PetsonaCommandKind::RefreshPersonas => Ok(DecodedCommand::RefreshPersonas),
        PetsonaCommandKind::CreatePersona => Ok(DecodedCommand::CreatePersona(text)),
        PetsonaCommandKind::DuplicatePersona => Ok(DecodedCommand::DuplicatePersona(text)),
        PetsonaCommandKind::SelectPersona => Ok(DecodedCommand::SelectPersona(text)),
        PetsonaCommandKind::DeletePersona => Ok(DecodedCommand::DeletePersona(text)),
        PetsonaCommandKind::ImportPersona => Ok(
            DecodedCommand::ImportPersona { path: text, overwrite: on },
        ),
        PetsonaCommandKind::ExportPersona => match split_once(text.as_str(), '\n') {
            Some((id, path)) => Ok(DecodedCommand::ExportPersona { id, path }),
            None => Err(invalid("persona export must be encoded as id\\npath")),
        },
        PetsonaCommandKind::UpdateDeepSeekConfig => Ok(DecodedCommand::UpdateDeepSeekConfig(text)),
        PetsonaCommandKind::UpdateMemoryConfig => Ok(DecodedCommand::UpdateMemoryConfig(text)),
        PetsonaCommandKind::RememberFact => Ok(DecodedCommand::RememberFact(text)),
        PetsonaCommandKind::ForgetFact => Ok(DecodedCommand::ForgetFact(text)),
        PetsonaCommandKind::ClearMemory => Ok(DecodedCommand::ClearMemory),
        PetsonaCommandKind::SaveDeepSeekKey => Ok(DecodedCommand::SaveDeepSeekKey(text)),
        PetsonaCommandKind::SendConversation => Ok(DecodedCommand::SendConversation(text)),
        // The record layout reserves this number, but no decoder handles it yet.
        PetsonaCommandKind::UpdateGreetingConfig => {
            let mut v = chars_of("unknown command kind: ");
            let d = decimal_chars(kind as u64);
            append_chars(&mut v, &d);
            Err((PetsonaStatus::InvalidArgument, string_from_chars(&v)))
        },
    }
}

// ------------------------------------------------------------------------------------------
// The last error
// ------------------------------------------------------------------------------------------
/// The bytes that reach a caller's buffer: nothing when there is no buffer
/// (or it has no room), else as many leading bytes as fit.
pub open spec fn copied_prefix(bytes: Seq<u8>, writable: bool, capacity: usize) -> Seq<u8> {
    if writable && capacity != 0 {
        if bytes.len() <= capacity {
            bytes
        } else {
            bytes.take(capacity as int)
        }
    } else {
        Seq::empty()
    }
}

/// Copy `bytes` into a caller's buffer of `capacity` bytes (`writable` says
/// whether there is one). Returns the full length, which tells the caller how
/// much room the whole text needs, and the bytes to write.
pub fn copy_bytes(bytes: &[u8], writable: bool, capacity: usize) -> (r: (usize, Vec<u8>))
    ensures
        r.0 == bytes@.len(),
        r.1@ == copied_prefix(bytes@, writable, capacity),
{
    let mut out: Vec<u8> = Vec::new();
    if writable && capacity != 0 {
        let amount = if bytes.len() < capacity {
            bytes.len()
        } else {
            capacity
        };
        let mut i: usize = 0;
        while i < amount
            invariant
                i <= amount <= bytes@.len(),
                amount <= capacity,
                out@ == bytes@.take(i as int),
            decreases amount - i,
        {
            out.push(bytes[i]);
            assert(out@ =~= bytes@.take(i + 1));
            i = i + 1;
        }
        assert(bytes@.len() <= capacity ==> bytes@.take(amount as int) =~= bytes@);
    }
    (bytes.len(), out)
}

/// The last error message of an ABI call; the ABI layer keeps one per
/// calling thread.
#[derive(Debug)]
pub struct LastError {
    pub message: String,
}

impl LastError {
    /// No error yet.
    pub fn new() -> (r: Self)
        ensures
            r.message@ == Seq::<char>::empty(),
    {
        LastError { message: String::new() }
    }

    /// Record `message` as the last error.
    pub fn set(&mut self, message: String)
        ensures
            final(self).message@ == message@,
    {
        self.message = message;
    }

    /// Forget the last error.
    pub fn clear(&mut self)
        ensures
            final(self).message@ == Seq::<char>::empty(),
    {
        self.set(String::new());
    }

    /// The last error message.
    pub fn get(&self) -> (r: String)
        ensures
            r@ == self.message@,
    {
        self.message.clone()
    }

    /// Copy the message's UTF-8 bytes into a caller's buffer; see
    /// `copy_bytes`.
    pub fn copy(&self, writable: bool, capacity: usize) -> (r: (usize, Vec<u8>))
        ensures
            r.0 == vstd::utf8::encode_utf8(self.message@).len(),
            r.1@ == copied_prefix(vstd::utf8::encode_utf8(self.message@), writable, capacity),
    {
        let text = self.message.as_str();
        let bytes = text.as_bytes();
        proof {
            assert(text.spec_bytes() == vstd::utf8::encode_utf8(text@));
        }
        copy_bytes(bytes, writable, capacity)
    }
}

} // verus!
