//! Personas: system prompt, style traits and greeting. A persona is the unit
//! of customisation the user edits; the persona store keeps one per file
//! (`personas/<id>.json`), listed by name.
use vstd::prelude::*;

use crate::text::{
    append_chars, append_str, char_vec_views, chars_of, contains_seq, join_chars, join_spec,
    lemma_contains_trans, lemma_join_contains_part, lex_le, lex_lt,
    lex_less, owned, str_eq, string_from_chars, trim_chars, trim_spec,
};

verus! {

/// Id of the built-in persona that can never be deleted.
pub const DEFAULT_PERSONA_ID: &'static str = "default";

pub const DEFAULT_TONE: &'static str = "friendly and concise";

pub const DEFAULT_VERBOSITY: &'static str = "normal";

pub const DEFAULT_LANGUAGE: &'static str = "zh-CN";

pub const DEFAULT_NAME: &'static str = "小助手";

pub const DEFAULT_DESCRIPTION: &'static str = "默认人格：友好、简洁、乐于帮忙。";

pub const DEFAULT_SYSTEM_PROMPT: &'static str = "你是一只住在用户桌面上的宠物伙伴。你友好、好奇、说话简洁。你可以陪用户聊天、帮忙梳理思路，但不要编造事实。回答时优先使用用户使用的语言。";

pub const DEFAULT_GREETING: &'static str = "我在这儿呢，需要我陪你聊聊吗？";

/// Style traits of a persona.
#[derive(Debug)]
pub struct PersonaTraits {
    /// Free-form tone description, e.g. "毒舌但温柔".
    pub tone: String,
    /// `short` | `normal` | `detailed`.
    pub verbosity: String,
    /// BCP-47-ish language tag, e.g. `zh-CN`.
    pub language: String,
    pub emoji: bool,
}

pub struct PersonaTraitsView {
    pub tone: Seq<char>,
    pub verbosity: Seq<char>,
    pub language: Seq<char>,
    pub emoji: bool,
}

impl View for PersonaTraits {
    type V = PersonaTraitsView;

    open spec fn view(&self) -> PersonaTraitsView {
        PersonaTraitsView {
            tone: self.tone@,
            verbosity: self.verbosity@,
            language: self.language@,
            emoji: self.emoji,
        }
    }
}

pub open spec fn default_traits() -> PersonaTraitsView {
    PersonaTraitsView {
        tone: DEFAULT_TONE@,
        verbosity: DEFAULT_VERBOSITY@,
        language: DEFAULT_LANGUAGE@,
        emoji: false,
    }
}

impl Default for PersonaTraits {
    fn default() -> (r: Self)
        ensures
            r@ == default_traits(),
    {
        PersonaTraits {
            tone: owned(DEFAULT_TONE),
            verbosity: owned(DEFAULT_VERBOSITY),
            language: owned(DEFAULT_LANGUAGE),
            emoji: false,
        }
    }
}

impl Clone for PersonaTraits {
    fn clone(&self) -> (r: Self)
        ensures
            r == *self,
    {
        PersonaTraits {
            tone: self.tone.clone(),
            verbosity: self.verbosity.clone(),
            language: self.language.clone(),
            emoji: self.emoji,
        }
    }
}

/// A persona: who the pet is when it talks.
#[derive(Debug)]
pub struct Persona {
    pub id: String,
    pub name: String,
    pub description: Option<String>,
    pub system_prompt: String,
    pub greeting: Option<String>,
    pub traits: PersonaTraits,
    /// Built-in personas can be edited but not deleted.
    pub builtin: bool,
}

pub struct PersonaView {
    pub id: Seq<char>,
    pub name: Seq<char>,
    pub description: Option<Seq<char>>,
    pub system_prompt: Seq<char>,
    pub greeting: Option<Seq<char>>,
    pub traits: PersonaTraitsView,
    pub builtin: bool,
}

pub open spec fn opt_string_view(s: Option<String>) -> Option<Seq<char>> {
    match s {
        Some(t) => Some(t@),
        None => None,
    }
}

pub open spec fn opt_str_view(s: Option<&str>) -> Option<Seq<char>> {
    match s {
        Some(t) => Some(t@),
        None => None,
    }
}

impl View for Persona {
    type V = PersonaView;

    open spec fn view(&self) -> PersonaView {
        PersonaView {
            id: self.id@,
            name: self.name@,
            description: opt_string_view(self.description),
            system_prompt: self.system_prompt@,
            greeting: opt_string_view(self.greeting),
            traits: self.traits@,
            builtin: self.builtin,
        }
    }
}

fn clone_opt(s: &Option<String>) -> (r: Option<String>)
    ensures
        r == *s,
{
    match s {
        Some(t) => Some(t.clone()),
        None => None,
    }
}

impl Clone for Persona {
    fn clone(&self) -> (r: Self)
        ensures
            r == *self,
    {
        Persona {
            id: self.id.clone(),
            name: self.name.clone(),
            description: clone_opt(&self.description),
            system_prompt: self.system_prompt.clone(),
            greeting: clone_opt(&self.greeting),
            traits: self.traits.clone(),
            builtin: self.builtin,
        }
    }
}

/// The shipped default persona.
pub open spec fn default_persona() -> PersonaView {
    PersonaView {
        id: DEFAULT_PERSONA_ID@,
        name: DEFAULT_NAME@,
        description: Some(DEFAULT_DESCRIPTION@),
        system_prompt: DEFAULT_SYSTEM_PROMPT@,
        greeting: Some(DEFAULT_GREETING@),
        traits: default_traits(),
        builtin: true,
    }
}

impl Default for Persona {
    fn default() -> (r: Self)
        ensures
            r@ == default_persona(),
    {
        Persona {
            id: owned(DEFAULT_PERSONA_ID),
            name: owned(DEFAULT_NAME),
            description: Some(owned(DEFAULT_DESCRIPTION)),
            system_prompt: owned(DEFAULT_SYSTEM_PROMPT),
            greeting: Some(owned(DEFAULT_GREETING)),
            traits: PersonaTraits::default(),
            builtin: true,
        }
    }
}

/// The shipped default persona passes validation.
pub proof fn lemma_default_persona_valid()
    ensures
        validation_error(default_persona()) is None,
{
    reveal_strlit("default");
    reveal_strlit("小助手");
    reveal_strlit("你是一只住在用户桌面上的宠物伙伴。你友好、好奇、说话简洁。你可以陪用户聊天、帮忙梳理思路，但不要编造事实。回答时优先使用用户使用的语言。");
    let name = DEFAULT_NAME@;
    let prompt = DEFAULT_SYSTEM_PROMPT@;
    assert(!crate::text::is_ws(name[0]) && !crate::text::is_ws(name.last()));
    assert(!crate::text::is_ws(prompt[0]) && !crate::text::is_ws(prompt.last()));
    assert(trim_spec(name) == name);
    assert(trim_spec(prompt) == prompt);
}

/// A user persona: the default persona's text under a new id and name.
pub open spec fn new_persona(id: Seq<char>, name: Seq<char>) -> PersonaView {
    PersonaView {
        id,
        name,
        description: Some(DEFAULT_DESCRIPTION@),
        system_prompt: DEFAULT_SYSTEM_PROMPT@,
        greeting: Some(DEFAULT_GREETING@),
        traits: default_traits(),
        builtin: false,
    }
}

/// Line asking for short answers.
pub const SHORT_STYLE: &'static str = "回答保持简短，通常不超过三句话。";

/// Line allowing detailed answers.
pub const DETAILED_STYLE: &'static str = "回答可以详细一些，必要时分点说明。";

/// Line asking for answers of moderate length.
pub const NORMAL_STYLE: &'static str = "回答长度适中，避免冗长。";

/// Line forbidding emoji.
pub const NO_EMOJI_STYLE: &'static str = "不要使用 emoji。";

/// Closing instruction of every system prompt.
pub const OUTPUT_RULE: &'static str = "只输出你要对用户说的话，不要描述自己的动作或心理活动，不要使用 Markdown 标题。";

/// The style lines derived from the traits.
pub open spec fn style_lines(t: PersonaTraitsView) -> Seq<Seq<char>> {
    let tone = if trim_spec(t.tone).len() > 0 {
        seq!["语气："@ + trim_spec(t.tone)]
    } else {
        Seq::empty()
    };
    let language = if trim_spec(t.language).len() > 0 {
        seq!["默认语言："@ + trim_spec(t.language)]
    } else {
        Seq::empty()
    };
    let verbosity = if t.verbosity == "short"@ {
        SHORT_STYLE@
    } else if t.verbosity == "detailed"@ {
        DETAILED_STYLE@
    } else {
        NORMAL_STYLE@
    };
    let emoji = if !t.emoji {
        seq![NO_EMOJI_STYLE@]
    } else {
        Seq::empty()
    };
    tone + language + seq![verbosity] + emoji
}

/// The line that tells the model which pet it is.
pub open spec fn pet_line(pet: Seq<char>, state: Option<Seq<char>>) -> Seq<char> {
    "你现在的桌宠形象是「"@ + pet + "」"@ + match state {
        Some(s) => "，当前状态："@ + s,
        None => Seq::empty(),
    }
}

/// The blocks of the system prompt, in order.
pub open spec fn prompt_parts(p: PersonaView, pet: Option<Seq<char>>, state: Option<Seq<char>>) -> Seq<Seq<char>> {
    seq![trim_spec(p.system_prompt), join_spec(style_lines(p.traits), "\n"@)] + match pet {
        Some(name) => seq![pet_line(name, state)],
        None => Seq::empty(),
    } + seq![OUTPUT_RULE@]
}

/// The system prompt actually sent to the model.
pub open spec fn effective_prompt(p: PersonaView, pet: Option<Seq<char>>, state: Option<Seq<char>>) -> Seq<char> {
    join_spec(prompt_parts(p, pet, state), "\n\n"@)
}

/// The answer length a persona asks for reaches its system prompt: `short`
/// asks for short answers, `detailed` allows detail, and anything else asks
/// for moderate length; the three requests are different lines.
pub proof fn lemma_verbosity_reaches_prompt(p: PersonaView, pet: Option<Seq<char>>, state: Option<Seq<char>>)
    ensures
        p.traits.verbosity == "short"@ ==> contains_seq(
            effective_prompt(p, pet, state),
            "回答保持简短，通常不超过三句话。"@,
        ),
        p.traits.verbosity == "detailed"@ ==> contains_seq(
            effective_prompt(p, pet, state),
            "回答可以详细一些，必要时分点说明。"@,
        ),
        p.traits.verbosity != "short"@ && p.traits.verbosity != "detailed"@ ==> contains_seq(
            effective_prompt(p, pet, state),
            "回答长度适中，避免冗长。"@,
        ),
        "回答保持简短，通常不超过三句话。"@ != "回答可以详细一些，必要时分点说明。"@,
        "回答保持简短，通常不超过三句话。"@ != "回答长度适中，避免冗长。"@,
        "回答可以详细一些，必要时分点说明。"@ != "回答长度适中，避免冗长。"@,
{
    reveal_strlit("回答保持简短，通常不超过三句话。");
    reveal_strlit("回答可以详细一些，必要时分点说明。");
    reveal_strlit("回答长度适中，避免冗长。");
    reveal_strlit("short");
    reveal_strlit("detailed");
    assert("short"@.len() != "detailed"@.len());
    assert("回答保持简短，通常不超过三句话。"@[2] != "回答可以详细一些，必要时分点说明。"@[2]);
    assert("回答保持简短，通常不超过三句话。"@.len() != "回答长度适中，避免冗长。"@.len());
    assert("回答可以详细一些，必要时分点说明。"@.len() != "回答长度适中，避免冗长。"@.len());
    let t = p.traits;
    let lines = style_lines(t);
    let tone = if trim_spec(t.tone).len() > 0 {
        seq!["语气："@ + trim_spec(t.tone)]
    } else {
        Seq::empty()
    };
    let language = if trim_spec(t.language).len() > 0 {
        seq!["默认语言："@ + trim_spec(t.language)]
    } else {
        Seq::empty()
    };
    let k = tone.len() + language.len();
    assert(lines[k as int] == if t.verbosity == "short"@ {
        SHORT_STYLE@
    } else if t.verbosity == "detailed"@ {
        DETAILED_STYLE@
    } else {
        NORMAL_STYLE@
    });
    lemma_join_contains_part(lines, "\n"@, k as int);
    let parts = prompt_parts(p, pet, state);
    assert(parts[1] == join_spec(lines, "\n"@));
    lemma_join_contains_part(parts, "\n\n"@, 1);
    lemma_contains_trans(effective_prompt(p, pet, state), parts[1], lines[k as int]);
}

/// Why a persona operation was refused.
#[derive(Debug, Clone, Copy, PartialEq, Eq, Structural)]
pub enum PersonaError {
    /// The persona id is empty.
    EmptyId,
    /// The persona name is blank.
    EmptyName,
    /// The system prompt is blank.
    EmptyPrompt,
    /// The default persona cannot be deleted.
    DefaultUndeletable,
    /// No persona has this id.
    NotFound,
    /// A persona with this id already exists.
    AlreadyExists,
}

impl PersonaError {
    /// Message shown to the user.
    pub fn message(&self) -> (r: &'static str)
        ensures
            r@ == persona_error_message(*self),
    {
        match self {
            PersonaError::EmptyId => "persona id must not be empty",
            PersonaError::EmptyName => "persona name must not be empty",
            PersonaError::EmptyPrompt => "persona system prompt must not be empty",
            PersonaError::DefaultUndeletable => "the default persona cannot be deleted",
            PersonaError::NotFound => "persona not found",
            PersonaError::AlreadyExists => "persona already exists",
        }
    }
}

pub open spec fn persona_error_message(e: PersonaError) -> Seq<char> {
    match e {
        PersonaError::EmptyId => "persona id must not be empty"@,
        PersonaError::EmptyName => "persona name must not be empty"@,
        PersonaError::EmptyPrompt => "persona system prompt must not be empty"@,
        PersonaError::DefaultUndeletable => "the default persona cannot be deleted"@,
        PersonaError::NotFound => "persona not found"@,
        PersonaError::AlreadyExists => "persona already exists"@,
    }
}

/// The first problem of a persona, checked in order: id, name, prompt.
pub open spec fn validation_error(p: PersonaView) -> Option<PersonaError> {
    if p.id.len() == 0 {
        Some(PersonaError::EmptyId)
    } else if trim_spec(p.name).len() == 0 {
        Some(PersonaError::EmptyName)
    } else if trim_spec(p.system_prompt).len() == 0 {
        Some(PersonaError::EmptyPrompt)
    } else {
        None
    }
}

impl Persona {
    /// A user persona with the default text under a new id and name.
    pub fn new(id: &str, name: &str) -> (r: Self)
        ensures
            r@ == new_persona(id@, name@),
    {
        let base = Persona::default();
        Persona { id: owned(id), name: owned(name), builtin: false, ..base }
    }

    /// The system prompt actually sent to the model: the persona's prompt,
    /// its style lines, which pet it is (and in which state), and the output
    /// rule, separated by blank lines.
    pub fn effective_system_prompt(&self, pet_name: Option<&str>, state: Option<&str>) -> (r: String)
        ensures
            r@ == effective_prompt(self@, opt_str_view(pet_name), opt_str_view(state)),
    {
        let mut parts: Vec<Vec<char>> = Vec::new();
        let prompt = chars_of(self.system_prompt.as_str());
        parts.push(trim_chars(&prompt));
        let mut style: Vec<Vec<char>> = Vec::new();
        let tone = trim_chars(&chars_of(self.traits.tone.as_str()));
        if tone.len() > 0 {
            let mut line = chars_of("语气：");
            append_chars(&mut line, &tone);
            style.push(line);
        }
        let language = trim_chars(&chars_of(self.traits.language.as_str()));
        if language.len() > 0 {
            let mut line = chars_of("默认语言：");
            append_chars(&mut line, &language);
            style.push(line);
        }
        let verbosity = if str_eq(self.traits.verbosity.as_str(), "short") {
            SHORT_STYLE
        } else if str_eq(self.traits.verbosity.as_str(), "detailed") {
            DETAILED_STYLE
        } else {
            NORMAL_STYLE
        };
        style.push(chars_of(verbosity));
        if !self.traits.emoji {
            style.push(chars_of(NO_EMOJI_STYLE));
        }
        assert(char_vec_views(style@) =~= style_lines(self.traits@));
        parts.push(join_chars(&style, "\n"));
        match pet_name {
            Some(pet) => {
                let mut line = chars_of("你现在的桌宠形象是「");
                append_str(&mut line, pet);
                append_str(&mut line, "」");
                match state {
                    Some(s) => {
                        append_str(&mut line, "，当前状态：");
                        append_str(&mut line, s);
                    },
                    None => {},
                }
                assert(line@ =~= pet_line(pet@, opt_str_view(state)));
                parts.push(line);
            },
            None => {},
        }
        parts.push(chars_of(OUTPUT_RULE));
        assert(char_vec_views(parts@) =~= prompt_parts(self@, opt_str_view(pet_name), opt_str_view(state)));
        let joined = join_chars(&parts, "\n\n");
        string_from_chars(&joined)
    }

    /// Check that the persona can be stored: non-empty id, non-blank name
    /// and non-blank system prompt.
    pub fn validate(&self) -> (r: Result<(), PersonaError>)
        ensures
            r matches Err(e) ==> validation_error(self@) == Some(e),
            r is Ok <==> validation_error(self@) is None,
    {
        if self.id.as_str().unicode_len() == 0 {
            return Err(PersonaError::EmptyId);
        }
        if trim_chars(&chars_of(self.name.as_str())).len() == 0 {
            return Err(PersonaError::EmptyName);
        }
        if trim_chars(&chars_of(self.system_prompt.as_str())).len() == 0 {
            return Err(PersonaError::EmptyPrompt);
        }
        Ok(())
    }

    /// Name of the file the persona is stored in: `<id>.json`.
    pub fn file_name(&self) -> (r: String)
        ensures
            r@ == self.id@ + ".json"@,
    {
        let mut v = chars_of(self.id.as_str());
        append_str(&mut v, ".json");
        string_from_chars(&v)
    }
}

// ------------------------------------------------------------------------------------------
// Starter personas
// ------------------------------------------------------------------------------------------
pub const ADVISOR_DESCRIPTION: &'static str = "冷静、结构化，适合梳理思路和做决策。";

pub const ADVISOR_PROMPT: &'static str = "你是一只沉稳的桌面宠物顾问。你冷静、结构化，习惯先澄清问题再给建议，会指出风险，也会给出可执行的下一步。";

pub const ADVISOR_GREETING: &'static str = "需要我帮你理一理思路吗？";

pub const GENKI_DESCRIPTION: &'static str = "活力满满，鼓励式回应，适合日常陪伴。";

pub const GENKI_PROMPT: &'static str = "你是一只元气满满的桌面宠物。你热情、爱鼓励人，喜欢用轻快的语气回应，但在用户需要认真帮助时会立刻切换到靠谱模式。";

pub const GENKI_GREETING: &'static str = "今天也要一起加油呀！";

pub const SNARK_DESCRIPTION: &'static str = "嘴上不饶人，实际很关心你。";

pub const SNARK_PROMPT: &'static str = "你是一只嘴很毒的桌面宠物。你爱吐槽，但吐槽背后是真的关心用户，绝不进行人身攻击，也不会贬低用户的努力。用户认真提问时要给出准确答案。";

pub const SNARK_GREETING: &'static str = "又见面了，今天又想偷懒多久？";

/// A built-in starter persona.
pub open spec fn template_view(
    id: Seq<char>,
    name: Seq<char>,
    description: Seq<char>,
    prompt: Seq<char>,
    tone: Seq<char>,
    verbosity: Seq<char>,
    greeting: Seq<char>,
) -> PersonaView {
    PersonaView {
        id,
        name,
        description: Some(description),
        system_prompt: prompt,
        greeting: Some(greeting),
        traits: PersonaTraitsView { tone, verbosity, language: DEFAULT_LANGUAGE@, emoji: false },
        builtin: true,
    }
}

/// The starter personas, ordered by id.
pub open spec fn templates_spec() -> Seq<PersonaView> {
    seq![
        template_view(
            "advisor"@,
            "沉稳顾问"@,
            ADVISOR_DESCRIPTION@,
            ADVISOR_PROMPT@,
            "沉稳、克制"@,
            "detailed"@,
            ADVISOR_GREETING@,
        ),
        template_view(
            "genki"@,
            "元气助手"@,
            GENKI_DESCRIPTION@,
            GENKI_PROMPT@,
            "元气、鼓励、轻快"@,
            "short"@,
            GENKI_GREETING@,
        ),
        template_view(
            "snark"@,
            "毒舌吐槽"@,
            SNARK_DESCRIPTION@,
            SNARK_PROMPT@,
            "毒舌但温柔"@,
            "short"@,
            SNARK_GREETING@,
        ),
    ]
}

pub open spec fn persona_views(s: Seq<Persona>) -> Seq<PersonaView> {
    s.map_values(|p: Persona| p@)
}

fn make_template(
    id: &str,
    name: &str,
    description: &str,
    prompt: &str,
    tone: &str,
    verbosity: &str,
    greeting: &str,
) -> (r: Persona)
    ensures
        r@ == template_view(id@, name@, description@, prompt@, tone@, verbosity@, greeting@),
{
    let mut p = Persona::new(id, name);
    p.description = Some(owned(description));
    p.system_prompt = owned(prompt);
    p.traits.tone = owned(tone);
    p.traits.verbosity = owned(verbosity);
    p.greeting = Some(owned(greeting));
    p.builtin = true;
    p
}

/// Starter personas offered in the UI, ordered by id.
pub fn templates() -> (r: Vec<Persona>)
    ensures
        persona_views(r@) == templates_spec(),
{
    let mut out: Vec<Persona> = Vec::new();
    out.push(
        make_template(
            "advisor",
            "沉稳顾问",
            ADVISOR_DESCRIPTION,
            ADVISOR_PROMPT,
            "沉稳、克制",
            "detailed",
            ADVISOR_GREETING,
        ),
    );
    out.push(
        make_template(
            "genki",
            "元气助手",
            GENKI_DESCRIPTION,
            GENKI_PROMPT,
            "元气、鼓励、轻快",
            "short",
            GENKI_GREETING,
        ),
    );
    out.push(
        make_template(
            "snark",
            "毒舌吐槽",
            SNARK_DESCRIPTION,
            SNARK_PROMPT,
            "毒舌但温柔",
            "short",
            SNARK_GREETING,
        ),
    );
    assert(persona_views(out@) =~= templates_spec());
    out
}

/// The starter persona with this id, if there is one.
pub fn template(id: &str) -> (r: Option<Persona>)
    ensures
        r matches Some(p) ==> p@ == templates_spec()[first_with_id(templates_spec(), id@)],
        r is Some <==> first_with_id(templates_spec(), id@) < templates_spec().len(),
{
    let all = templates();
    lookup(&all, id)
}

// ------------------------------------------------------------------------------------------
// The persona store
// ------------------------------------------------------------------------------------------
/// Unicode lowercase of a string, as `str::to_lowercase` computes it.
pub uninterp spec fn unicode_lowercase(s: Seq<char>) -> Seq<char>;

/// `str::to_lowercase` (std).
#[verifier::external_body]
fn lowercase(s: &str) -> (r: String)
    ensures
        r@ == unicode_lowercase(s@),
{
    s.to_lowercase()
}

/// Personas are listed by their lowercase name.
pub open spec fn name_key(p: PersonaView) -> Seq<char> {
    unicode_lowercase(p.name)
}

/// Where a persona with sort key `key` goes in a list ordered by name: after
/// every persona whose key is not greater.
pub open spec fn name_pos(s: Seq<PersonaView>, key: Seq<char>) -> int
    decreases s.len(),
{
    if s.len() == 0 {
        0
    } else if lex_lt(key, name_key(s[0])) {
        0
    } else {
        1 + name_pos(s.drop_first(), key)
    }
}

pub proof fn lemma_name_pos_bound(s: Seq<PersonaView>, key: Seq<char>)
    ensures
        0 <= name_pos(s, key) <= s.len(),
    decreases s.len(),
{
    if s.len() > 0 {
        lemma_name_pos_bound(s.drop_first(), key);
    }
}

/// Stable sort by lowercase name (`sort_by_key(|p| p.name.to_lowercase())`).
pub open spec fn sort_by_name(s: Seq<PersonaView>) -> Seq<PersonaView>
    decreases s.len(),
{
    if s.len() == 0 {
        s
    } else {
        let t = sort_by_name(s.drop_last());
        t.insert(name_pos(t, name_key(s.last())), s.last())
    }
}

/// Sorting by name keeps every persona of the list.
pub proof fn lemma_sort_by_name_contains(s: Seq<PersonaView>, x: PersonaView)
    requires
        s.contains(x),
    ensures
        sort_by_name(s).contains(x),
    decreases s.len(),
{
    let t = sort_by_name(s.drop_last());
    let p = name_pos(t, name_key(s.last()));
    lemma_name_pos_bound(t, name_key(s.last()));
    let r = t.insert(p, s.last());
    if x == s.last() {
        assert(r[p] == x);
    } else {
        let k = choose|k: int| 0 <= k < s.len() && s[k] == x;
        assert(s.drop_last()[k] == x);
        lemma_sort_by_name_contains(s.drop_last(), x);
        let j = choose|j: int| 0 <= j < t.len() && t[j] == x;
        if j < p {
            assert(r[j] == x);
        } else {
            assert(r[j + 1] == x);
        }
    }
}

/// Sorting by name brings in no persona that was not in the list.
proof fn lemma_sort_by_name_members(s: Seq<PersonaView>, x: PersonaView)
    requires
        sort_by_name(s).contains(x),
    ensures
        s.contains(x),
    decreases s.len(),
{
    if s.len() > 0 {
        let t = sort_by_name(s.drop_last());
        let p = name_pos(t, name_key(s.last()));
        lemma_name_pos_bound(t, name_key(s.last()));
        let r = t.insert(p, s.last());
        let k = choose|k: int| 0 <= k < r.len() && r[k] == x;
        if x != s.last() {
            if k < p {
                assert(t[k] == x);
            } else {
                assert(k != p);
                assert(t[k - 1] == x);
            }
            lemma_sort_by_name_members(s.drop_last(), x);
            let j = choose|j: int| 0 <= j < s.drop_last().len() && s.drop_last()[j] == x;
            assert(s[j] == x);
        } else {
            assert(s[s.len() - 1] == x);
        }
    }
}

/// Index of the first persona with id `id`, or the length of the list.
pub open spec fn first_with_id(s: Seq<PersonaView>, id: Seq<char>) -> int
    decreases s.len(),
{
    if s.len() == 0 {
        0
    } else if s[0].id == id {
        0
    } else {
        1 + first_with_id(s.drop_first(), id)
    }
}

/// The personas whose id is not `id`.
pub open spec fn other_ids(s: Seq<PersonaView>, id: Seq<char>) -> Seq<PersonaView>
    decreases s.len(),
{
    if s.len() == 0 {
        s
    } else {
        let rest = other_ids(s.drop_last(), id);
        if s.last().id == id {
            rest
        } else {
            rest.push(s.last())
        }
    }
}

/// The personas kept by [`other_ids`] are exactly those of the list with
/// another id.
proof fn lemma_other_ids_members(s: Seq<PersonaView>, id: Seq<char>, x: PersonaView)
    ensures
        other_ids(s, id).contains(x) <==> (s.contains(x) && x.id != id),
    decreases s.len(),
{
    if s.len() > 0 {
        lemma_other_ids_members(s.drop_last(), id, x);
        let rest = other_ids(s.drop_last(), id);
        if s.contains(x) && x.id != id {
            let k = choose|k: int| 0 <= k < s.len() && s[k] == x;
            if k < s.len() - 1 {
                assert(s.drop_last()[k] == x);
                if s.last().id != id {
                    let j = choose|j: int| 0 <= j < rest.len() && rest[j] == x;
                    assert(rest.push(s.last())[j] == x);
                }
            } else {
                assert(rest.push(s.last())[rest.len() as int] == x);
            }
        }
        if other_ids(s, id).contains(x) {
            let o = other_ids(s, id);
            let k = choose|k: int| 0 <= k < o.len() && o[k] == x;
            if s.last().id != id && k == rest.len() {
                assert(s[s.len() - 1] == x);
            } else {
                assert(rest[k] == x);
                let j = choose|j: int| 0 <= j < s.drop_last().len() && s.drop_last()[j] == x;
                assert(s[j] == x);
            }
        }
    }
}

/// A valid persona saved into a store is what reading its id then gives;
/// deleting that id afterwards leaves no persona with it (for any id but
/// the default one, which cannot be deleted).
pub proof fn lemma_persona_store_round_trip(stored: Seq<PersonaView>, p: PersonaView)
    ensures
        ({
            let saved = sort_by_name(other_ids(stored, p.id).push(p));
            &&& first_with_id(saved, p.id) < saved.len()
            &&& saved[first_with_id(saved, p.id)] == p
            &&& first_with_id(other_ids(saved, p.id), p.id) == other_ids(saved, p.id).len()
        }),
{
    let kept = other_ids(stored, p.id).push(p);
    let saved = sort_by_name(kept);
    assert(kept[kept.len() - 1] == p);
    lemma_sort_by_name_contains(kept, p);
    lemma_first_with_id(saved, p.id);
    let k = choose|k: int| 0 <= k < saved.len() && saved[k] == p;
    assert(first_with_id(saved, p.id) <= k) by {
        if first_with_id(saved, p.id) > k {
            assert(saved[k].id != p.id);
        }
    }
    let q = saved[first_with_id(saved, p.id)];
    assert(saved.contains(q));
    lemma_sort_by_name_members(kept, q);
    if q != p {
        let j = choose|j: int| 0 <= j < kept.len() && kept[j] == q;
        assert(j < kept.len() - 1);
        assert(other_ids(stored, p.id)[j] == q);
        lemma_other_ids_members(stored, p.id, q);
    }
    let gone = other_ids(saved, p.id);
    lemma_first_with_id(gone, p.id);
    if first_with_id(gone, p.id) < gone.len() {
        let r = gone[first_with_id(gone, p.id)];
        assert(gone.contains(r));
        lemma_other_ids_members(saved, p.id, r);
    }
}

pub proof fn lemma_first_with_id(s: Seq<PersonaView>, id: Seq<char>)
    ensures
        0 <= first_with_id(s, id) <= s.len(),
        forall|i: int| 0 <= i < first_with_id(s, id) ==> #[trigger] s[i].id != id,
        first_with_id(s, id) < s.len() ==> s[first_with_id(s, id)].id == id,
    decreases s.len(),
{
    if s.len() > 0 && s[0].id != id {
        lemma_first_with_id(s.drop_first(), id);
        assert forall|i: int| 0 <= i < first_with_id(s, id) implies #[trigger] s[i].id != id by {
            if i > 0 {
                assert(s[i] == s.drop_first()[i - 1]);
            }
        }
    }
}

fn find_by_id(personas: &Vec<Persona>, id: &str) -> (r: usize)
    ensures
        r == first_with_id(persona_views(personas@), id@),
{
    let ghost v = persona_views(personas@);
    let mut i: usize = 0;
    assert(v.skip(0) =~= v);
    while i < personas.len() && !str_eq(personas[i].id.as_str(), id)
        invariant
            i <= personas.len(),
            v == persona_views(personas@),
            first_with_id(v, id@) == i + first_with_id(v.skip(i as int), id@),
        decreases personas.len() - i,
    {
        assert(v.skip(i as int).drop_first() =~= v.skip(i + 1));
        assert(v.skip(i as int)[0] == personas@[i as int]@);
        i = i + 1;
    }
    proof {
        if i < personas.len() {
            assert(v.skip(i as int)[0] == personas@[i as int]@);
        }
    }
    i
}

/// A copy of the first persona with id `id`.
fn lookup(personas: &Vec<Persona>, id: &str) -> (r: Option<Persona>)
    ensures
        r is Some <==> first_with_id(persona_views(personas@), id@) < personas@.len(),
        r matches Some(p) ==> p@ == persona_views(personas@)[first_with_id(
            persona_views(personas@),
            id@,
        )],
{
    let i = find_by_id(personas, id);
    proof {
        lemma_first_with_id(persona_views(personas@), id@);
    }
    if i < personas.len() {
        Some(personas[i].clone())
    } else {
        None
    }
}

fn remove_id(personas: Vec<Persona>, id: &str) -> (r: Vec<Persona>)
    ensures
        persona_views(r@) == other_ids(persona_views(personas@), id@),
{
    let ghost v = persona_views(personas@);
    let mut out: Vec<Persona> = Vec::new();
    let mut i: usize = 0;
    assert(persona_views(out@) =~= other_ids(v.subrange(0, 0), id@));
    while i < personas.len()
        invariant
            i <= personas.len(),
            v == persona_views(personas@),
            persona_views(out@) == other_ids(v.subrange(0, i as int), id@),
        decreases personas.len() - i,
    {
        if !str_eq(personas[i].id.as_str(), id) {
            out.push(personas[i].clone());
        }
        assert(v.subrange(0, i + 1).drop_last() =~= v.subrange(0, i as int));
        assert(persona_views(out@) =~= other_ids(v.subrange(0, i + 1), id@));
        i = i + 1;
    }
    assert(v.subrange(0, personas.len() as int) =~= v);
    out
}

fn find_name_pos(keys: &Vec<Vec<char>>, key: &Vec<char>, ghost_sorted: Ghost<Seq<PersonaView>>) -> (r: usize)
    requires
        keys@.len() == ghost_sorted@.len(),
        forall|i: int| 0 <= i < keys@.len() ==> #[trigger] keys@[i]@ == name_key(ghost_sorted@[i]),
    ensures
        r == name_pos(ghost_sorted@, key@),
        r <= keys@.len(),
{
    proof {
        lemma_name_pos_bound(ghost_sorted@, key@);
    }
    let ghost v = ghost_sorted@;
    let mut i: usize = 0;
    assert(v.skip(0) =~= v);
    while i < keys.len() && !lex_less(key, &keys[i])
        invariant
            i <= keys.len(),
            v == ghost_sorted@,
            keys@.len() == v.len(),
            forall|k: int| 0 <= k < keys@.len() ==> #[trigger] keys@[k]@ == name_key(v[k]),
            name_pos(v, key@) == i + name_pos(v.skip(i as int), key@),
        decreases keys.len() - i,
    {
        assert(v.skip(i as int).drop_first() =~= v.skip(i + 1));
        assert(v.skip(i as int)[0] == v[i as int]);
        assert(keys@[i as int]@ == name_key(v[i as int]));
        i = i + 1;
    }
    proof {
        if i < keys.len() {
            assert(v.skip(i as int)[0] == v[i as int]);
            assert(keys@[i as int]@ == name_key(v[i as int]));
        }
    }
    i
}

/// Stable sort of personas by lowercase name.
pub fn sort_personas(personas: Vec<Persona>) -> (r: Vec<Persona>)
    ensures
        persona_views(r@) == sort_by_name(persona_views(personas@)),
{
    let ghost orig = persona_views(personas@);
    let mut sorted: Vec<Persona> = Vec::new();
    let mut keys: Vec<Vec<char>> = Vec::new();
    let mut i: usize = 0;
    assert(persona_views(sorted@) =~= sort_by_name(orig.subrange(0, 0)));
    while i < personas.len()
        invariant
            i <= personas.len(),
            orig == persona_views(personas@),
            persona_views(sorted@) == sort_by_name(orig.subrange(0, i as int)),
            keys@.len() == sorted@.len(),
            forall|k: int| 0 <= k < keys@.len() ==> #[trigger] keys@[k]@ == name_key(sorted@[k]@),
        decreases personas.len() - i,
    {
        let p = personas[i].clone();
        let key = chars_of(lowercase(p.name.as_str()).as_str());
        let ghost sv = persona_views(sorted@);
        assert forall|k: int| 0 <= k < keys@.len() implies #[trigger] keys@[k]@ == name_key(sv[k]) by {
            assert(keys@[k]@ == name_key(sorted@[k]@));
        }
        let pos = find_name_pos(&keys, &key, Ghost(sv));
        let ghost pv = p@;
        let ghost before_sorted = sorted@;
        let ghost before_keys = keys@;
        sorted.insert(pos, p);
        keys.insert(pos, key);
        proof {
            let sub = orig.subrange(0, i + 1);
            assert(sub.drop_last() =~= orig.subrange(0, i as int));
            assert(sub.last() == pv);
            assert(persona_views(sorted@) =~= sv.insert(pos as int, pv));
            assert forall|k: int| 0 <= k < keys@.len() implies #[trigger] keys@[k]@ == name_key(sorted@[k]@) by {
                if k < pos {
                    assert(keys@[k] == before_keys[k] && sorted@[k] == before_sorted[k]);
                } else if k > pos {
                    assert(keys@[k] == before_keys[k - 1] && sorted@[k] == before_sorted[k - 1]);
                }
            }
        }
        i = i + 1;
    }
    assert(orig.subrange(0, personas.len() as int) =~= orig);
    sorted
}

/// The personas on disk, listed by name. The host reads and writes the
/// files; the store decides what they hold.
#[derive(Debug)]
pub struct PersonaStore {
    dir: String,
    personas: Vec<Persona>,
}

impl View for PersonaStore {
    type V = Seq<PersonaView>;

    closed spec fn view(&self) -> Seq<PersonaView> {
        persona_views(self.personas@)
    }
}

impl PersonaStore {
    pub closed spec fn dir_view(&self) -> Seq<char> {
        self.dir@
    }

    /// An empty store for the directory `dir`.
    pub fn new(dir: &str) -> (r: Self)
        ensures
            r@ == Seq::<PersonaView>::empty(),
            r.dir_view() == dir@,
    {
        let r = PersonaStore { dir: owned(dir), personas: Vec::new() };
        assert(r@ =~= Seq::<PersonaView>::empty());
        r
    }

    /// The store holding the personas read from `dir`, listed by name.
    pub fn from_listing(dir: &str, personas: Vec<Persona>) -> (r: Self)
        ensures
            r@ == sort_by_name(persona_views(personas@)),
            r.dir_view() == dir@,
    {
        PersonaStore { dir: owned(dir), personas: sort_personas(personas) }
    }

    /// The directory the personas live in.
    pub fn dir(&self) -> (r: &str)
        ensures
            r@ == self.dir_view(),
    {
        self.dir.as_str()
    }

    /// All personas, ordered by lowercase name.
    pub fn list(&self) -> (r: Vec<Persona>)
        ensures
            persona_views(r@) == self@,
    {
        let mut r: Vec<Persona> = Vec::new();
        let mut i: usize = 0;
        while i < self.personas.len()
            invariant
                i <= self.personas.len(),
                r@ == self.personas@.subrange(0, i as int),
            decreases self.personas.len() - i,
        {
            r.push(self.personas[i].clone());
            assert(r@ =~= self.personas@.subrange(0, i + 1));
            i = i + 1;
        }
        assert(self.personas@.subrange(0, self.personas.len() as int) =~= self.personas@);
        r
    }

    /// The first listed persona with id `id`.
    pub fn get(&self, id: &str) -> (r: Option<Persona>)
        ensures
            r is Some <==> first_with_id(self@, id@) < self@.len(),
            r matches Some(p) ==> p@ == self@[first_with_id(self@, id@)],
    {
        lookup(&self.personas, id)
    }

    /// Store a persona, replacing any persona with the same id (its file).
    /// Invalid personas are refused.
    pub fn save(&mut self, persona: &Persona) -> (r: Result<(), PersonaError>)
        ensures
            final(self).dir_view() == old(self).dir_view(),
            validation_error(persona@) matches Some(e) ==> r == Err::<(), PersonaError>(e)
                && final(self)@ == old(self)@,
            validation_error(persona@) is None ==> r is Ok && final(self)@ == sort_by_name(
                other_ids(old(self)@, persona@.id).push(persona@),
            ),
    {
        match persona.validate() {
            Err(e) => return Err(e),
            Ok(()) => {},
        }
        let mut personas: Vec<Persona> = Vec::new();
        std::mem::swap(&mut personas, &mut self.personas);
        let mut kept = remove_id(personas, persona.id.as_str());
        let ghost kv = persona_views(kept@);
        kept.push(persona.clone());
        assert(persona_views(kept@) =~= kv.push(persona@));
        self.personas = sort_personas(kept);
        Ok(())
    }

    /// Seed the default persona into an empty store.
    pub fn ensure(&mut self)
        ensures
            final(self).dir_view() == old(self).dir_view(),
            old(self)@.len() == 0 ==> final(self)@ == seq![default_persona()],
            old(self)@.len() > 0 ==> final(self)@ == old(self)@,
    {
        if self.personas.len() == 0 {
            let default = Persona::default();
            proof {
                lemma_default_persona_valid();
            }
            let result = self.save(&default);
            proof {
                let s = seq![default_persona()];
                assert(other_ids(old(self)@, default_persona().id) =~= Seq::<PersonaView>::empty());
                assert(Seq::<PersonaView>::empty().push(default_persona()) =~= s);
                assert(s.drop_last() =~= Seq::<PersonaView>::empty());
                assert(sort_by_name(s.drop_last()) =~= Seq::<PersonaView>::empty());
                assert(Seq::<PersonaView>::empty().insert(0, default_persona()) =~= s);
                assert(sort_by_name(s) =~= s);
            }
        }
    }

    /// Delete the persona(s) with id `id`. The default persona cannot be
    /// deleted.
    pub fn delete(&mut self, id: &str) -> (r: Result<(), PersonaError>)
        ensures
            final(self).dir_view() == old(self).dir_view(),
            id@ == DEFAULT_PERSONA_ID@ ==> r == Err::<(), PersonaError>(
                PersonaError::DefaultUndeletable,
            ) && final(self)@ == old(self)@,
            id@ != DEFAULT_PERSONA_ID@ && first_with_id(old(self)@, id@) >= old(self)@.len() ==> r
                == Err::<(), PersonaError>(PersonaError::NotFound) && final(self)@ == old(self)@,
            id@ != DEFAULT_PERSONA_ID@ && first_with_id(old(self)@, id@) < old(self)@.len() ==> r
                is Ok && final(self)@ == other_ids(old(self)@, id@),
    {
        if str_eq(id, DEFAULT_PERSONA_ID) {
            return Err(PersonaError::DefaultUndeletable);
        }
        let i = find_by_id(&self.personas, id);
        if i >= self.personas.len() {
            return Err(PersonaError::NotFound);
        }
        let mut personas: Vec<Persona> = Vec::new();
        std::mem::swap(&mut personas, &mut self.personas);
        self.personas = remove_id(personas, id);
        Ok(())
    }

    /// Copy persona `id` under a new id and name as a user persona.
    pub fn duplicate(&mut self, id: &str, new_id: &str, new_name: &str) -> (r: Result<Persona, PersonaError>)
        ensures
            final(self).dir_view() == old(self).dir_view(),
            first_with_id(old(self)@, id@) >= old(self)@.len() ==> r == Err::<Persona, PersonaError>(
                PersonaError::NotFound,
            ) && final(self)@ == old(self)@,
            first_with_id(old(self)@, id@) < old(self)@.len() ==> {
                let copy = renamed(old(self)@[first_with_id(old(self)@, id@)], new_id@, new_name@);
                &&& validation_error(copy) matches Some(e) ==> r == Err::<Persona, PersonaError>(e)
                    && final(self)@ == old(self)@
                &&& validation_error(copy) is None ==> (r matches Ok(p) && p@ == copy)
                &&& validation_error(copy) is None ==> final(self)@ == sort_by_name(
                    other_ids(old(self)@, new_id@).push(copy),
                )
            },
    {
        let source = match self.get(id) {
            Some(p) => p,
            None => return Err(PersonaError::NotFound),
        };
        let copy = Persona { id: owned(new_id), name: owned(new_name), builtin: false, ..source };
        match self.save(&copy) {
            Ok(()) => Ok(copy),
            Err(e) => Err(e),
        }
    }

    /// Add a persona read from an import file as a user persona. Without
    /// `overwrite` an existing id is refused.
    pub fn import(&mut self, persona: Persona, overwrite: bool) -> (r: Result<Persona, PersonaError>)
        ensures
            final(self).dir_view() == old(self).dir_view(),
            validation_error(persona@) matches Some(e) ==> r == Err::<Persona, PersonaError>(e)
                && final(self)@ == old(self)@,
            validation_error(persona@) is None && !overwrite && first_with_id(old(self)@, persona@.id)
                < old(self)@.len() ==> r == Err::<Persona, PersonaError>(PersonaError::AlreadyExists)
                && final(self)@ == old(self)@,
            validation_error(persona@) is None && (overwrite || first_with_id(
                old(self)@,
                persona@.id,
            ) >= old(self)@.len()) ==> {
                let stored = PersonaView { builtin: false, ..persona@ };
                &&& r matches Ok(p) && p@ == stored
                &&& final(self)@ == sort_by_name(other_ids(old(self)@, persona@.id).push(stored))
            },
    {
        match persona.validate() {
            Err(e) => return Err(e),
            Ok(()) => {},
        }
        if !overwrite {
            let i = find_by_id(&self.personas, persona.id.as_str());
            if i < self.personas.len() {
                return Err(PersonaError::AlreadyExists);
            }
        }
        let stored = Persona { builtin: false, ..persona };
        match self.save(&stored) {
            Ok(()) => Ok(stored),
            Err(e) => Err(e),
        }
    }
}

/// A persona copied under a new id and name as a user persona.
pub open spec fn renamed(p: PersonaView, id: Seq<char>, name: Seq<char>) -> PersonaView {
    PersonaView { id, name, builtin: false, ..p }
}

} // verus!
