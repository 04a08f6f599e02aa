//! Lightweight pet memory.
//!
//! This is deliberately not a chat transcript. It keeps, per persona, a small
//! set of stable facts about the user, recent interaction events and greeting
//! bookkeeping. The store here is the in-memory model; the host persists it as
//! one JSON file after each change.
use vstd::prelude::*;

use crate::text::{
    append_chars, append_str, char_vec_views, chars_of, decimal, decimal_chars, eq_ignore_ascii_case,
    eq_ignore_ascii_case_spec, join_chars, join_spec, owned, str_eq, string_from_chars,
};

verus! {

/// Version written into a fresh memory file.
pub const MEMORY_VERSION: u32 = 1;

/// At most this many events are kept per persona; older ones are dropped.
pub const MAX_EVENTS: usize = 200;

/// At most this many facts are kept per persona after an upsert or import.
pub const MAX_FACTS: usize = 50;

/// Confidence of a fact, in thousandths (`1000` = certain).
pub const FULL_CONFIDENCE: u32 = 1000;

/// Confidence given to a fact extracted from a user's own words.
pub const EXTRACTED_CONFIDENCE: u32 = 900;

/// Confidence given to the folded profile fact.
pub const PROFILE_CONFIDENCE: u32 = 600;

/// Milliseconds since the Unix epoch, from the system clock (0 if the clock is
/// before the epoch).
#[verifier::external_body]
pub fn now_ms() -> i64 {
    std::time::SystemTime::now().duration_since(std::time::UNIX_EPOCH).map(
        |duration| duration.as_millis() as i64,
    ).unwrap_or(0)
}

/// A fresh random identifier (`uuid::Uuid::new_v4`, hyphenated).
#[verifier::external_body]
fn new_id() -> String {
    uuid::Uuid::new_v4().to_string()
}

/// Where a fact came from.
pub const FACT_SOURCE_MANUAL: &'static str = "manual";

pub const FACT_SOURCE_CONVERSATION: &'static str = "conversation";

pub const FACT_SOURCE_IMPORT: &'static str = "import";

pub const FACT_SOURCE_COMPRESSED: &'static str = "compressed";

/// Source recorded for facts read from files written before sources existed.
pub fn default_fact_source() -> (r: String)
    ensures
        r@ == FACT_SOURCE_MANUAL@,
{
    owned(FACT_SOURCE_MANUAL)
}

/// A stable fact about the user.
#[derive(Debug)]
pub struct Fact {
    pub id: String,
    pub key: String,
    pub value: String,
    /// Confidence in thousandths.
    pub confidence: u32,
    pub created_at: i64,
    pub updated_at: i64,
    pub source: String,
}

impl Clone for Fact {
    fn clone(&self) -> (r: Self)
        ensures
            r == *self,
    {
        Fact {
            id: self.id.clone(),
            key: self.key.clone(),
            value: self.value.clone(),
            confidence: self.confidence,
            created_at: self.created_at,
            updated_at: self.updated_at,
            source: self.source.clone(),
        }
    }
}

/// Mathematical value of a [`Fact`].
pub struct FactView {
    pub id: Seq<char>,
    pub key: Seq<char>,
    pub value: Seq<char>,
    pub confidence: u32,
    pub created_at: i64,
    pub updated_at: i64,
    pub source: Seq<char>,
}

impl View for Fact {
    type V = FactView;

    open spec fn view(&self) -> FactView {
        FactView {
            id: self.id@,
            key: self.key@,
            value: self.value@,
            confidence: self.confidence,
            created_at: self.created_at,
            updated_at: self.updated_at,
            source: self.source@,
        }
    }
}

pub open spec fn fact_views(s: Seq<Fact>) -> Seq<FactView> {
    s.map_values(|f: Fact| f@)
}

/// What happened in an interaction event.
#[derive(Debug, Clone, Copy, PartialEq, Eq, Structural)]
pub enum EventKind {
    AppStart,
    UserClick,
    UserMessage,
    PetGreeting,
    PetReaction,
    PetChanged,
    CodexStatus,
    IdleReturn,
}

/// Human readable label of an event kind.
pub open spec fn event_label(kind: EventKind) -> Seq<char> {
    match kind {
        EventKind::AppStart => "应用启动"@,
        EventKind::UserClick => "用户点击了宠物"@,
        EventKind::UserMessage => "用户说了一句话"@,
        EventKind::PetGreeting => "宠物主动问候"@,
        EventKind::PetReaction => "宠物做出了回应"@,
        EventKind::PetChanged => "更换了宠物"@,
        EventKind::CodexStatus => "Codex 状态变化"@,
        EventKind::IdleReturn => "用户离开后回来"@,
    }
}

impl EventKind {
    /// Human readable label, used when an event carries no text.
    pub fn label(self) -> (r: &'static str)
        ensures
            r@ == event_label(self),
    {
        match self {
            EventKind::AppStart => "应用启动",
            EventKind::UserClick => "用户点击了宠物",
            EventKind::UserMessage => "用户说了一句话",
            EventKind::PetGreeting => "宠物主动问候",
            EventKind::PetReaction => "宠物做出了回应",
            EventKind::PetChanged => "更换了宠物",
            EventKind::CodexStatus => "Codex 状态变化",
            EventKind::IdleReturn => "用户离开后回来",
        }
    }
}

/// One recorded interaction.
#[derive(Debug)]
pub struct MemoryEvent {
    pub id: String,
    pub kind: EventKind,
    pub text: Option<String>,
    pub created_at: i64,
}

impl Clone for MemoryEvent {
    fn clone(&self) -> (r: Self)
        ensures
            r == *self,
    {
        let text = match &self.text {
            Some(t) => Some(t.clone()),
            None => None,
        };
        MemoryEvent { id: self.id.clone(), kind: self.kind, text, created_at: self.created_at }
    }
}

/// Mathematical value of a [`MemoryEvent`].
pub struct EventView {
    pub id: Seq<char>,
    pub kind: EventKind,
    pub text: Option<Seq<char>>,
    pub created_at: i64,
}

impl View for MemoryEvent {
    type V = EventView;

    open spec fn view(&self) -> EventView {
        EventView { id: self.id@, kind: self.kind, text: opt_view(self.text), created_at: self.created_at }
    }
}

pub open spec fn event_views(s: Seq<MemoryEvent>) -> Seq<EventView> {
    s.map_values(|e: MemoryEvent| e@)
}

/// Everything remembered for one persona.
#[derive(Debug)]
pub struct PersonaMemory {
    pub facts: Vec<Fact>,
    pub events: Vec<MemoryEvent>,
    pub last_seen_at: Option<i64>,
    pub last_greeting_at: Option<i64>,
    pub last_trigger: Option<String>,
}

/// Mathematical value of a [`PersonaMemory`].
pub struct PersonaMemoryView {
    pub facts: Seq<FactView>,
    pub events: Seq<EventView>,
    pub last_seen_at: Option<i64>,
    pub last_greeting_at: Option<i64>,
    pub last_trigger: Option<Seq<char>>,
}

pub open spec fn opt_view(s: Option<String>) -> Option<Seq<char>> {
    match s {
        Some(t) => Some(t@),
        None => None,
    }
}

impl View for PersonaMemory {
    type V = PersonaMemoryView;

    open spec fn view(&self) -> PersonaMemoryView {
        PersonaMemoryView {
            facts: fact_views(self.facts@),
            events: event_views(self.events@),
            last_seen_at: self.last_seen_at,
            last_greeting_at: self.last_greeting_at,
            last_trigger: opt_view(self.last_trigger),
        }
    }
}

/// The memory of a persona that has never been seen.
pub open spec fn empty_persona_view() -> PersonaMemoryView {
    PersonaMemoryView {
        facts: Seq::empty(),
        events: Seq::empty(),
        last_seen_at: None,
        last_greeting_at: None,
        last_trigger: None,
    }
}

impl PersonaMemory {
    pub fn new() -> (r: Self)
        ensures
            r@ == empty_persona_view(),
    {
        let r = PersonaMemory {
            facts: Vec::new(),
            events: Vec::new(),
            last_seen_at: None,
            last_greeting_at: None,
            last_trigger: None,
        };
        assert(fact_views(r.facts@) =~= Seq::empty());
        assert(event_views(r.events@) =~= Seq::empty());
        r
    }
}

impl Clone for PersonaMemory {
    fn clone(&self) -> (r: Self)
        ensures
            r@ == self@,
    {
        PersonaMemory {
            facts: clone_facts(&self.facts),
            events: clone_events(&self.events),
            last_seen_at: self.last_seen_at,
            last_greeting_at: self.last_greeting_at,
            last_trigger: match &self.last_trigger {
                Some(t) => Some(t.clone()),
                None => None,
            },
        }
    }
}

/// Element-wise copy of a fact list.
pub fn clone_facts(facts: &Vec<Fact>) -> (r: Vec<Fact>)
    ensures
        r@ == facts@,
{
    let mut r: Vec<Fact> = Vec::new();
    let mut i: usize = 0;
    while i < facts.len()
        invariant
            i <= facts.len(),
            r@ == facts@.subrange(0, i as int),
        decreases facts.len() - i,
    {
        r.push(facts[i].clone());
        assert(r@ =~= facts@.subrange(0, i + 1));
        i = i + 1;
    }
    assert(facts@.subrange(0, facts.len() as int) =~= facts@);
    r
}

/// Element-wise copy of an event list.
pub fn clone_events(events: &Vec<MemoryEvent>) -> (r: Vec<MemoryEvent>)
    ensures
        r@ == events@,
{
    let mut r: Vec<MemoryEvent> = Vec::new();
    let mut i: usize = 0;
    while i < events.len()
        invariant
            i <= events.len(),
            r@ == events@.subrange(0, i as int),
        decreases events.len() - i,
    {
        r.push(events[i].clone());
        assert(r@ =~= events@.subrange(0, i + 1));
        i = i + 1;
    }
    assert(events@.subrange(0, events.len() as int) =~= events@);
    r
}

/// The memory of one persona, stored under the persona's id.
#[derive(Debug)]
pub struct PersonaSlot {
    pub id: String,
    pub memory: PersonaMemory,
}

/// The whole memory file: a version and the memory of each persona.
#[derive(Debug)]
pub struct MemoryFile {
    pub version: u32,
    pub personas: Vec<PersonaSlot>,
}

/// Persona id to memory, as stored in a sequence of slots.
pub open spec fn slots_map(s: Seq<PersonaSlot>) -> Map<Seq<char>, PersonaMemoryView>
    decreases s.len(),
{
    if s.len() == 0 {
        Map::empty()
    } else {
        slots_map(s.drop_last()).insert(s.last().id@, s.last().memory@)
    }
}

/// No persona id occurs twice.
pub open spec fn unique_slots(s: Seq<PersonaSlot>) -> bool {
    forall|i: int, j: int| 0 <= i < s.len() && 0 <= j < s.len() && i != j ==> s[i].id@ != s[j].id@
}

pub proof fn lemma_slots_map(s: Seq<PersonaSlot>)
    requires
        unique_slots(s),
    ensures
        forall|k: Seq<char>|
            #[trigger] slots_map(s).dom().contains(k) <==> exists|i: int|
                0 <= i < s.len() && s[i].id@ == k,
        forall|i: int| 0 <= i < s.len() ==> #[trigger] slots_map(s)[s[i].id@] == s[i].memory@,
        slots_map(s).dom().finite(),
    decreases s.len(),
{
    if s.len() > 0 {
        let t = s.drop_last();
        assert(unique_slots(t));
        lemma_slots_map(t);
        assert forall|k: Seq<char>| #[trigger] slots_map(s).dom().contains(k) <==> exists|i: int|
            0 <= i < s.len() && s[i].id@ == k by {
            if slots_map(s).dom().contains(k) {
                if k == s.last().id@ {
                    assert(s[s.len() - 1].id@ == k);
                } else {
                    let i = choose|i: int| 0 <= i < t.len() && t[i].id@ == k;
                    assert(s[i].id@ == k);
                }
            }
            if exists|i: int| 0 <= i < s.len() && s[i].id@ == k {
                let i = choose|i: int| 0 <= i < s.len() && s[i].id@ == k;
                if i < s.len() - 1 {
                    assert(t[i].id@ == k);
                }
            }
        }
        assert forall|i: int| 0 <= i < s.len() implies #[trigger] slots_map(s)[s[i].id@]
            == s[i].memory@ by {
            if i < s.len() - 1 {
                assert(t[i] == s[i]);
                assert(s[i].id@ != s.last().id@);
            }
        }
    }
}

/// Replacing one slot by a slot with the same id updates one map entry.
pub proof fn lemma_slots_update(s: Seq<PersonaSlot>, i: int, slot: PersonaSlot)
    requires
        unique_slots(s),
        0 <= i < s.len(),
        slot.id@ == s[i].id@,
    ensures
        unique_slots(s.update(i, slot)),
        slots_map(s.update(i, slot)) == slots_map(s).insert(slot.id@, slot.memory@),
{
    let u = s.update(i, slot);
    assert(unique_slots(u)) by {
        assert forall|a: int, b: int|
            0 <= a < u.len() && 0 <= b < u.len() && a != b implies u[a].id@ != u[b].id@ by {
            assert(u[a].id@ == s[a].id@);
            assert(u[b].id@ == s[b].id@);
        }
    }
    lemma_slots_map(s);
    lemma_slots_map(u);
    assert forall|k: Seq<char>| #[trigger] slots_map(u).dom().contains(k) <==> slots_map(s).insert(
        slot.id@,
        slot.memory@,
    ).dom().contains(k) by {
        if slots_map(u).dom().contains(k) {
            let j = choose|j: int| 0 <= j < u.len() && u[j].id@ == k;
            assert(s[j].id@ == k);
        }
        if slots_map(s).dom().contains(k) {
            let j = choose|j: int| 0 <= j < s.len() && s[j].id@ == k;
            assert(u[j].id@ == k);
        }
        assert(u[i].id@ == slot.id@);
    }
    assert forall|k: Seq<char>| #[trigger] slots_map(u).dom().contains(k) implies slots_map(u)[k]
        == slots_map(s).insert(slot.id@, slot.memory@)[k] by {
        let j = choose|j: int| 0 <= j < u.len() && u[j].id@ == k;
        assert(slots_map(u)[u[j].id@] == u[j].memory@);
        if j != i {
            assert(slots_map(s)[s[j].id@] == s[j].memory@);
        }
    }
    assert(slots_map(u) =~= slots_map(s).insert(slot.id@, slot.memory@));
}

/// Appending a slot with a fresh id adds one map entry.
pub proof fn lemma_slots_push(s: Seq<PersonaSlot>, slot: PersonaSlot)
    requires
        unique_slots(s),
        !slots_map(s).dom().contains(slot.id@),
    ensures
        unique_slots(s.push(slot)),
        slots_map(s.push(slot)) == slots_map(s).insert(slot.id@, slot.memory@),
{
    lemma_slots_map(s);
    let u = s.push(slot);
    assert forall|a: int, b: int|
        0 <= a < u.len() && 0 <= b < u.len() && a != b implies u[a].id@ != u[b].id@ by {
        if a == s.len() {
            assert(u[b] == s[b]);
        } else if b == s.len() {
            assert(u[a] == s[a]);
        } else {
            assert(u[a] == s[a]);
            assert(u[b] == s[b]);
        }
    }
    assert(u.drop_last() =~= s);
}

/// Removing a slot drops its map entry.
pub proof fn lemma_slots_remove(s: Seq<PersonaSlot>, i: int)
    requires
        unique_slots(s),
        0 <= i < s.len(),
    ensures
        unique_slots(s.remove(i)),
        slots_map(s.remove(i)) == slots_map(s).remove(s[i].id@),
{
    let u = s.remove(i);
    assert forall|a: int, b: int|
        0 <= a < u.len() && 0 <= b < u.len() && a != b implies u[a].id@ != u[b].id@ by {
        let sa = if a < i {
            a
        } else {
            a + 1
        };
        let sb = if b < i {
            b
        } else {
            b + 1
        };
        assert(u[a] == s[sa]);
        assert(u[b] == s[sb]);
    }
    lemma_slots_map(s);
    lemma_slots_map(u);
    assert forall|k: Seq<char>| #[trigger] slots_map(u).dom().contains(k) <==> slots_map(s).remove(
        s[i].id@,
    ).dom().contains(k) by {
        if slots_map(u).dom().contains(k) {
            let j = choose|j: int| 0 <= j < u.len() && u[j].id@ == k;
            let sj = if j < i {
                j
            } else {
                j + 1
            };
            assert(u[j] == s[sj]);
        }
        if slots_map(s).dom().contains(k) && k != s[i].id@ {
            let j = choose|j: int| 0 <= j < s.len() && s[j].id@ == k;
            if j < i {
                assert(u[j] == s[j]);
            } else {
                assert(u[j - 1] == s[j]);
            }
        }
    }
    assert forall|k: Seq<char>| #[trigger] slots_map(u).dom().contains(k) implies slots_map(u)[k]
        == slots_map(s).remove(s[i].id@)[k] by {
        let j = choose|j: int| 0 <= j < u.len() && u[j].id@ == k;
        let sj = if j < i {
            j
        } else {
            j + 1
        };
        assert(u[j] == s[sj]);
        assert(slots_map(u)[u[j].id@] == u[j].memory@);
        assert(slots_map(s)[s[sj].id@] == s[sj].memory@);
    }
    assert(slots_map(u) =~= slots_map(s).remove(s[i].id@));
}

/// The memory of persona `id`, or the empty memory for an unknown persona.
pub open spec fn persona_or_empty(m: Map<Seq<char>, PersonaMemoryView>, id: Seq<char>) -> PersonaMemoryView {
    if m.dom().contains(id) {
        m[id]
    } else {
        empty_persona_view()
    }
}

/// Keep only the `MAX_EVENTS` newest events.
pub open spec fn trim_events_spec(events: Seq<EventView>) -> Seq<EventView> {
    if events.len() > MAX_EVENTS {
        events.skip(events.len() - MAX_EVENTS)
    } else {
        events
    }
}

/// The last `n` elements of a sequence (all of them if there are fewer).
pub open spec fn last_n<A>(s: Seq<A>, n: int) -> Seq<A> {
    if s.len() > n {
        s.skip(s.len() - n)
    } else {
        s
    }
}

/// The first `n` elements (all of them if there are fewer), as
/// `Vec::truncate` leaves them.
pub open spec fn take_n<A>(s: Seq<A>, n: int) -> Seq<A> {
    if s.len() > n {
        s.take(n)
    } else {
        s
    }
}

/// Copy of the last `n` events.
fn last_events(events: &Vec<MemoryEvent>, n: usize) -> (r: Vec<MemoryEvent>)
    ensures
        r@ == last_n(events@, n as int),
        event_views(r@) == last_n(event_views(events@), n as int),
{
    let start: usize = if events.len() > n {
        events.len() - n
    } else {
        0
    };
    let mut r: Vec<MemoryEvent> = Vec::new();
    let mut i = start;
    while i < events.len()
        invariant
            start <= i <= events.len(),
            r@ == events@.subrange(start as int, i as int),
        decreases events.len() - i,
    {
        r.push(events[i].clone());
        assert(r@ =~= events@.subrange(start as int, i + 1));
        i = i + 1;
    }
    assert(last_n(events@, n as int) =~= events@.subrange(start as int, events.len() as int));
    assert(event_views(r@) =~= last_n(event_views(events@), n as int));
    r
}


// ------------------------------------------------------------------------------------------
// Ordering facts by recency
// ------------------------------------------------------------------------------------------
/// Index at which a fact updated at `key` is inserted into a list ordered
/// newest first: after every fact that is at least as recent.
pub open spec fn insert_pos(s: Seq<FactView>, key: i64) -> int
    decreases s.len(),
{
    if s.len() == 0 {
        0
    } else if s[0].updated_at < key {
        0
    } else {
        1 + insert_pos(s.drop_first(), key)
    }
}

/// Insert `f` into a newest-first list, after facts of equal recency.
pub open spec fn insert_desc(s: Seq<FactView>, f: FactView) -> Seq<FactView> {
    s.insert(insert_pos(s, f.updated_at), f)
}

/// Stable sort, newest `updated_at` first
/// (`sort_by_key(|fact| Reverse(fact.updated_at))`).
pub open spec fn sort_desc(s: Seq<FactView>) -> Seq<FactView>
    decreases s.len(),
{
    if s.len() == 0 {
        s
    } else {
        insert_desc(sort_desc(s.drop_last()), s.last())
    }
}

/// Newest first.
pub open spec fn sorted_desc(s: Seq<FactView>) -> bool {
    forall|i: int, j: int| 0 <= i < j < s.len() ==> s[j].updated_at <= s[i].updated_at
}

pub proof fn lemma_insert_pos(s: Seq<FactView>, key: i64)
    ensures
        0 <= insert_pos(s, key) <= s.len(),
        forall|i: int| 0 <= i < insert_pos(s, key) ==> key <= #[trigger] s[i].updated_at,
        insert_pos(s, key) < s.len() ==> s[insert_pos(s, key)].updated_at < key,
    decreases s.len(),
{
    if s.len() > 0 && s[0].updated_at >= key {
        lemma_insert_pos(s.drop_first(), key);
        assert forall|i: int| 0 <= i < insert_pos(s, key) implies key <= #[trigger] s[i].updated_at by {
            if i > 0 {
                assert(s[i] == s.drop_first()[i - 1]);
            }
        }
    }
}

/// Sorting orders the facts newest first and keeps every fact.
pub proof fn lemma_sort_desc(s: Seq<FactView>)
    ensures
        sorted_desc(sort_desc(s)),
        sort_desc(s).to_multiset() == s.to_multiset(),
        sort_desc(s).len() == s.len(),
    decreases s.len(),
{
    broadcast use vstd::seq_lib::group_to_multiset_ensures;

    if s.len() > 0 {
        let t = sort_desc(s.drop_last());
        lemma_sort_desc(s.drop_last());
        let f = s.last();
        let p = insert_pos(t, f.updated_at);
        lemma_insert_pos(t, f.updated_at);
        let r = t.insert(p, f);
        assert forall|i: int, j: int| 0 <= i < j < r.len() implies r[j].updated_at
            <= r[i].updated_at by {
            if j < p {
                assert(r[i] == t[i] && r[j] == t[j]);
            } else if j == p {
                assert(r[i] == t[i]);
            } else if i < p {
                assert(r[i] == t[i] && r[j] == t[j - 1]);
            } else if i == p {
                assert(r[j] == t[j - 1]);
                assert(t[j - 1].updated_at <= t[p].updated_at);
            } else {
                assert(r[i] == t[i - 1] && r[j] == t[j - 1]);
            }
        }
        vstd::seq_lib::to_multiset_insert(t, p, f);
        assert(s =~= s.drop_last().push(f));
    }
}

/// Sorting a list that is already newest first leaves it unchanged.
pub proof fn lemma_sort_desc_sorted(s: Seq<FactView>)
    requires
        sorted_desc(s),
    ensures
        sort_desc(s) == s,
    decreases s.len(),
{
    if s.len() > 0 {
        let t = s.drop_last();
        lemma_sort_desc_sorted(t);
        lemma_insert_pos_end(t, s.last().updated_at);
        assert(t.insert(t.len() as int, s.last()) =~= s);
    }
}

proof fn lemma_insert_pos_end(s: Seq<FactView>, key: i64)
    requires
        forall|i: int| 0 <= i < s.len() ==> key <= #[trigger] s[i].updated_at,
    ensures
        insert_pos(s, key) == s.len(),
    decreases s.len(),
{
    if s.len() > 0 {
        let t = s.drop_first();
        assert forall|i: int| 0 <= i < t.len() implies key <= #[trigger] t[i].updated_at by {
            assert(t[i] == s[i + 1]);
        }
        lemma_insert_pos_end(t, key);
    }
}

proof fn lemma_insert_pos_at_stop(s: Seq<FactView>, key: i64, i: int)
    requires
        0 <= i <= s.len(),
        i == s.len() || s[i].updated_at < key,
    ensures
        insert_pos(s.skip(i), key) == 0,
{
    if i < s.len() {
        assert(s.skip(i)[0] == s[i]);
    }
}

fn find_insert_pos(s: &Vec<Fact>, key: i64) -> (r: usize)
    ensures
        r == insert_pos(fact_views(s@), key),
{
    let ghost v = fact_views(s@);
    let mut i: usize = 0;
    assert(v.skip(0) =~= v);
    while i < s.len() && s[i].updated_at >= key
        invariant
            i <= s.len(),
            v == fact_views(s@),
            insert_pos(v, key) == i + insert_pos(v.skip(i as int), key),
        decreases s.len() - i,
    {
        assert(v.skip(i as int).drop_first() =~= v.skip(i + 1));
        assert(v.skip(i as int)[0] == s@[i as int]@);
        i = i + 1;
    }
    proof {
        if i < s.len() {
            assert(v[i as int] == s@[i as int]@);
        }
        lemma_insert_pos_at_stop(v, key, i as int);
    }
    i
}

/// Stable sort of a fact list, newest first.
pub fn sort_facts_desc(facts: Vec<Fact>) -> (r: Vec<Fact>)
    ensures
        fact_views(r@) == sort_desc(fact_views(facts@)),
        r@.to_multiset() == facts@.to_multiset(),
{
    broadcast use vstd::seq_lib::group_to_multiset_ensures;

    let mut sorted: Vec<Fact> = Vec::new();
    let mut rest = facts;
    let ghost orig = rest@;
    let ghost ov = fact_views(orig);
    let total = rest.len();
    assert(orig.len() == total);
    let mut taken: usize = 0;
    let mut queue: Vec<Fact> = Vec::new();
    // Move the input into `queue` in reverse so that `pop` yields it in order.
    while rest.len() > 0
        invariant
            orig.len() <= usize::MAX,
            queue@.len() + rest@.len() == orig.len(),
            rest@ == orig.subrange(0, rest@.len() as int),
            forall|i: int| 0 <= i < queue@.len() ==> #[trigger] queue@[i] == orig[orig.len() - 1 - i],
        decreases rest.len(),
    {
        let f = rest.pop().unwrap();
        queue.push(f);
        assert(rest@ =~= orig.subrange(0, rest@.len() as int));
    }
    assert(fact_views(sorted@) =~= sort_desc(ov.subrange(0, 0)));
    assert(sorted@.to_multiset() =~= orig.subrange(0, 0).to_multiset());
    while queue.len() > 0
        invariant
            orig.len() <= usize::MAX,
            ov == fact_views(orig),
            taken + queue@.len() == orig.len(),
            fact_views(sorted@) == sort_desc(ov.subrange(0, taken as int)),
            sorted@.to_multiset() == orig.subrange(0, taken as int).to_multiset(),
            forall|i: int| 0 <= i < queue@.len() ==> #[trigger] queue@[i] == orig[orig.len() - 1 - i],
        decreases queue.len(),
    {
        let f = queue.pop().unwrap();
        assert(f == orig[taken as int]);
        let p = find_insert_pos(&sorted, f.updated_at);
        proof {
            lemma_insert_pos(fact_views(sorted@), f.updated_at);
            let next = ov.subrange(0, taken + 1);
            assert(next.drop_last() =~= ov.subrange(0, taken as int));
            assert(next.last() == f@);
            vstd::seq_lib::to_multiset_insert(sorted@, p as int, f);
            assert(orig.subrange(0, taken + 1) =~= orig.subrange(0, taken as int).push(f));
        }
        let ghost before = sorted@;
        let ghost fv = f@;
        let ghost fx = f;
        sorted.insert(p, f);
        assert(fact_views(sorted@) =~= fact_views(before).insert(p as int, fv));
        proof {
            vstd::seq_lib::to_multiset_insert(before, p as int, fx);
            vstd::seq_lib::to_multiset_build(orig.subrange(0, taken as int), fx);
        }
        taken = taken + 1;
    }
    assert(orig.subrange(0, orig.len() as int) =~= orig);
    assert(ov.subrange(0, ov.len() as int) =~= ov);
    sorted
}

// ------------------------------------------------------------------------------------------
// What each operation does to the memory of one persona
// ------------------------------------------------------------------------------------------
/// Record an event: it becomes the newest event and marks the persona as seen.
pub open spec fn record_spec(pm: PersonaMemoryView, event: EventView) -> PersonaMemoryView {
    PersonaMemoryView {
        facts: pm.facts,
        events: trim_events_spec(pm.events.push(event)),
        last_seen_at: Some(event.created_at),
        last_greeting_at: pm.last_greeting_at,
        last_trigger: pm.last_trigger,
    }
}

/// Index of the first fact whose key equals `key` ignoring ASCII case, or the
/// number of facts when there is none.
pub open spec fn key_index(facts: Seq<FactView>, key: Seq<char>) -> int
    decreases facts.len(),
{
    if facts.len() == 0 {
        0
    } else if eq_ignore_ascii_case_spec(facts[0].key, key) {
        0
    } else {
        1 + key_index(facts.drop_first(), key)
    }
}

pub proof fn lemma_key_index(facts: Seq<FactView>, key: Seq<char>)
    ensures
        0 <= key_index(facts, key) <= facts.len(),
        forall|i: int|
            0 <= i < key_index(facts, key) ==> !eq_ignore_ascii_case_spec(#[trigger] facts[i].key, key),
        key_index(facts, key) < facts.len() ==> eq_ignore_ascii_case_spec(
            facts[key_index(facts, key)].key,
            key,
        ),
    decreases facts.len(),
{
    if facts.len() > 0 && !eq_ignore_ascii_case_spec(facts[0].key, key) {
        lemma_key_index(facts.drop_first(), key);
        assert forall|i: int| 0 <= i < key_index(facts, key) implies !eq_ignore_ascii_case_spec(
            #[trigger] facts[i].key,
            key,
        ) by {
            if i > 0 {
                assert(facts[i] == facts.drop_first()[i - 1]);
            }
        }
    }
}

/// The fact written by an upsert of `key`: an existing fact with that key
/// keeps its id, key and creation time and takes the new value, confidence,
/// source and update time; otherwise a new fact is created.
pub open spec fn upserted_fact(
    facts: Seq<FactView>,
    key: Seq<char>,
    value: Seq<char>,
    confidence: u32,
    source: Seq<char>,
    id: Seq<char>,
    now: i64,
) -> FactView {
    let j = key_index(facts, key);
    if j < facts.len() {
        FactView {
            id: facts[j].id,
            key: facts[j].key,
            value,
            confidence,
            created_at: facts[j].created_at,
            updated_at: now,
            source,
        }
    } else {
        FactView { id, key, value, confidence, created_at: now, updated_at: now, source }
    }
}

/// The fact list after an upsert: the written fact replaces the old one (or
/// is appended), the list is re-sorted newest first and cut to `MAX_FACTS`.
pub open spec fn upsert_facts(
    facts: Seq<FactView>,
    key: Seq<char>,
    value: Seq<char>,
    confidence: u32,
    source: Seq<char>,
    id: Seq<char>,
    now: i64,
) -> Seq<FactView> {
    let j = key_index(facts, key);
    let f = upserted_fact(facts, key, value, confidence, source, id, now);
    let changed = if j < facts.len() {
        facts.update(j, f)
    } else {
        facts.push(f)
    };
    take_n(sort_desc(changed), MAX_FACTS as int)
}

pub open spec fn with_facts(pm: PersonaMemoryView, facts: Seq<FactView>) -> PersonaMemoryView {
    PersonaMemoryView {
        facts,
        events: pm.events,
        last_seen_at: pm.last_seen_at,
        last_greeting_at: pm.last_greeting_at,
        last_trigger: pm.last_trigger,
    }
}

pub open spec fn with_events(pm: PersonaMemoryView, events: Seq<EventView>) -> PersonaMemoryView {
    PersonaMemoryView {
        facts: pm.facts,
        events,
        last_seen_at: pm.last_seen_at,
        last_greeting_at: pm.last_greeting_at,
        last_trigger: pm.last_trigger,
    }
}

/// Facts without the one(s) whose id is `id`.
pub open spec fn without_id(s: Seq<FactView>, id: Seq<char>) -> Seq<FactView>
    decreases s.len(),
{
    if s.len() == 0 {
        s
    } else {
        let rest = without_id(s.drop_last(), id);
        if s.last().id == id {
            rest
        } else {
            rest.push(s.last())
        }
    }
}

/// Index of the first fact with id `id`, or the number of facts.
pub open spec fn id_index(facts: Seq<FactView>, id: Seq<char>) -> int
    decreases facts.len(),
{
    if facts.len() == 0 {
        0
    } else if facts[0].id == id {
        0
    } else {
        1 + id_index(facts.drop_first(), id)
    }
}

pub proof fn lemma_id_index(facts: Seq<FactView>, id: Seq<char>)
    ensures
        0 <= id_index(facts, id) <= facts.len(),
        forall|i: int| 0 <= i < id_index(facts, id) ==> #[trigger] facts[i].id != id,
        id_index(facts, id) < facts.len() ==> facts[id_index(facts, id)].id == id,
    decreases facts.len(),
{
    if facts.len() > 0 && facts[0].id != id {
        lemma_id_index(facts.drop_first(), id);
        assert forall|i: int| 0 <= i < id_index(facts, id) implies #[trigger] facts[i].id != id by {
            if i > 0 {
                assert(facts[i] == facts.drop_first()[i - 1]);
            }
        }
    }
}

/// Confidence clamped into `0..=FULL_CONFIDENCE`.
pub open spec fn clamp_confidence(c: u32) -> u32 {
    if c > FULL_CONFIDENCE {
        FULL_CONFIDENCE
    } else {
        c
    }
}

/// Is an event created at `created_at` outside a retention window of `days`
/// days at time `now`? Zero days means "keep forever".
pub open spec fn retention_expired_spec(created_at: i64, now: i64, days: u32) -> bool {
    days != 0 && sat_i64(now - created_at) > days * 86_400_000
}

pub open spec fn sat_i64(value: int) -> int {
    if value > i64::MAX {
        i64::MAX as int
    } else if value < i64::MIN {
        i64::MIN as int
    } else {
        value
    }
}

/// True when the retention window has expired (0 days = keep forever).
pub fn retention_expired(created_at_ms: i64, now_ms: i64, days: u32) -> (r: bool)
    ensures
        r == retention_expired_spec(created_at_ms, now_ms, days),
{
    if days == 0 {
        return false;
    }
    let window_ms: i64 = days as i64 * 24 * 60 * 60 * 1000;
    let wide: i128 = now_ms as i128 - created_at_ms as i128;
    let elapsed: i64 = if wide > i64::MAX as i128 {
        i64::MAX
    } else if wide < i64::MIN as i128 {
        i64::MIN
    } else {
        wide as i64
    };
    elapsed > window_ms
}

/// Events that survive a retention window.
pub open spec fn unexpired(s: Seq<EventView>, now: i64, days: u32) -> Seq<EventView>
    decreases s.len(),
{
    if s.len() == 0 {
        s
    } else {
        let rest = unexpired(s.drop_last(), now, days);
        if retention_expired_spec(s.last().created_at, now, days) {
            rest
        } else {
            rest.push(s.last())
        }
    }
}

/// The folded profile fact is recognised by its key and source.
pub open spec fn is_profile(f: FactView) -> bool {
    f.key == PROFILE_KEY@ && f.source == FACT_SOURCE_COMPRESSED@
}

/// Key of the folded profile fact.
pub const PROFILE_KEY: &'static str = "画像";

/// Separator between the folded facts in a profile.
pub const PROFILE_SEPARATOR: &'static str = "；";

/// Separator between key and value of a folded fact.
pub const PROFILE_KEY_SEPARATOR: &'static str = "：";

/// Index of the first profile fact, or the number of facts.
pub open spec fn profile_index(facts: Seq<FactView>) -> int
    decreases facts.len(),
{
    if facts.len() == 0 {
        0
    } else if is_profile(facts[0]) {
        0
    } else {
        1 + profile_index(facts.drop_first())
    }
}

pub proof fn lemma_profile_index(facts: Seq<FactView>)
    ensures
        0 <= profile_index(facts) <= facts.len(),
        forall|i: int| 0 <= i < profile_index(facts) ==> !is_profile(#[trigger] facts[i]),
        profile_index(facts) < facts.len() ==> is_profile(facts[profile_index(facts)]),
    decreases facts.len(),
{
    if facts.len() > 0 && !is_profile(facts[0]) {
        lemma_profile_index(facts.drop_first());
        assert forall|i: int| 0 <= i < profile_index(facts) implies !is_profile(#[trigger] facts[i]) by {
            if i > 0 {
                assert(facts[i] == facts.drop_first()[i - 1]);
            }
        }
    }
}

/// Facts that are not the folded profile.
pub open spec fn without_profiles(s: Seq<FactView>) -> Seq<FactView>
    decreases s.len(),
{
    if s.len() == 0 {
        s
    } else {
        let rest = without_profiles(s.drop_last());
        if is_profile(s.last()) {
            rest
        } else {
            rest.push(s.last())
        }
    }
}

/// `key：value` of one folded fact.
pub open spec fn profile_entry(f: FactView) -> Seq<char> {
    f.key + PROFILE_KEY_SEPARATOR@ + f.value
}

/// The folded facts, joined by `；`.
pub open spec fn merge_facts(s: Seq<FactView>) -> Seq<char>
    decreases s.len(),
{
    if s.len() == 0 {
        Seq::empty()
    } else if s.len() == 1 {
        profile_entry(s[0])
    } else {
        merge_facts(s.drop_last()) + PROFILE_SEPARATOR@ + profile_entry(s.last())
    }
}

/// The profile fact after folding `old` into it.
pub open spec fn folded_profile(facts: Seq<FactView>, old: Seq<FactView>, id: Seq<char>, now: i64) -> FactView {
    let j = profile_index(facts);
    let merged = merge_facts(old);
    if j < facts.len() {
        FactView {
            id: facts[j].id,
            key: facts[j].key,
            value: facts[j].value + PROFILE_SEPARATOR@ + merged,
            confidence: facts[j].confidence,
            created_at: facts[j].created_at,
            updated_at: now,
            source: facts[j].source,
        }
    } else {
        FactView {
            id,
            key: PROFILE_KEY@,
            value: merged,
            confidence: PROFILE_CONFIDENCE,
            created_at: now,
            updated_at: now,
            source: FACT_SOURCE_COMPRESSED@,
        }
    }
}

pub open spec fn max_nat(a: int, b: int) -> int {
    if a >= b {
        a
    } else {
        b
    }
}

/// The fact list after folding everything but the `keep` newest facts into one
/// profile fact (nothing happens while there are at most `max(keep, 1)` facts).
pub open spec fn compress_spec(facts: Seq<FactView>, keep: int, id: Seq<char>, now: i64) -> Seq<FactView> {
    let k = max_nat(keep, 1);
    if facts.len() <= k {
        facts
    } else {
        let sorted = sort_desc(facts);
        let recent = sorted.take(k);
        let old = sorted.skip(k);
        sort_desc(without_profiles(recent).push(folded_profile(facts, old, id, now)))
    }
}

/// How many facts a compression folds away.
pub open spec fn compress_count(facts: Seq<FactView>, keep: int) -> int {
    let k = max_nat(keep, 1);
    if facts.len() <= k {
        0
    } else {
        facts.len() - k
    }
}

/// Memory of a persona after a greeting was shown.
pub open spec fn greeted_spec(pm: PersonaMemoryView, trigger: Seq<char>, event: EventView) -> PersonaMemoryView {
    PersonaMemoryView {
        facts: pm.facts,
        events: trim_events_spec(pm.events.push(event)),
        last_seen_at: pm.last_seen_at,
        last_greeting_at: Some(event.created_at),
        last_trigger: Some(trigger),
    }
}

// ------------------------------------------------------------------------------------------
// Executable helpers on fact and event lists
// ------------------------------------------------------------------------------------------
fn find_key_index(facts: &Vec<Fact>, key: &str) -> (r: usize)
    ensures
        r == key_index(fact_views(facts@), key@),
{
    let ghost v = fact_views(facts@);
    let mut i: usize = 0;
    assert(v.skip(0) =~= v);
    while i < facts.len() && !eq_ignore_ascii_case(facts[i].key.as_str(), key)
        invariant
            i <= facts.len(),
            v == fact_views(facts@),
            key_index(v, key@) == i + key_index(v.skip(i as int), key@),
        decreases facts.len() - i,
    {
        assert(v.skip(i as int).drop_first() =~= v.skip(i + 1));
        assert(v.skip(i as int)[0] == facts@[i as int]@);
        i = i + 1;
    }
    proof {
        if i < facts.len() {
            assert(v.skip(i as int)[0] == facts@[i as int]@);
        }
    }
    i
}

fn find_id_index(facts: &Vec<Fact>, id: &str) -> (r: usize)
    ensures
        r == id_index(fact_views(facts@), id@),
{
    let ghost v = fact_views(facts@);
    let mut i: usize = 0;
    assert(v.skip(0) =~= v);
    while i < facts.len() && !str_eq(facts[i].id.as_str(), id)
        invariant
            i <= facts.len(),
            v == fact_views(facts@),
            id_index(v, id@) == i + id_index(v.skip(i as int), id@),
        decreases facts.len() - i,
    {
        assert(v.skip(i as int).drop_first() =~= v.skip(i + 1));
        assert(v.skip(i as int)[0] == facts@[i as int]@);
        i = i + 1;
    }
    proof {
        if i < facts.len() {
            assert(v.skip(i as int)[0] == facts@[i as int]@);
        }
    }
    i
}

fn fact_is_profile(f: &Fact) -> (r: bool)
    ensures
        r == is_profile(f@),
{
    str_eq(f.key.as_str(), PROFILE_KEY) && str_eq(f.source.as_str(), FACT_SOURCE_COMPRESSED)
}

fn find_profile_index(facts: &Vec<Fact>) -> (r: usize)
    ensures
        r == profile_index(fact_views(facts@)),
{
    let ghost v = fact_views(facts@);
    let mut i: usize = 0;
    assert(v.skip(0) =~= v);
    while i < facts.len() && !fact_is_profile(&facts[i])
        invariant
            i <= facts.len(),
            v == fact_views(facts@),
            profile_index(v) == i + profile_index(v.skip(i as int)),
        decreases facts.len() - i,
    {
        assert(v.skip(i as int).drop_first() =~= v.skip(i + 1));
        assert(v.skip(i as int)[0] == facts@[i as int]@);
        i = i + 1;
    }
    proof {
        if i < facts.len() {
            assert(v.skip(i as int)[0] == facts@[i as int]@);
        }
    }
    i
}

/// Facts whose id differs from `id`.
fn remove_fact_id(facts: Vec<Fact>, id: &str) -> (r: Vec<Fact>)
    ensures
        fact_views(r@) == without_id(fact_views(facts@), id@),
{
    let ghost v = fact_views(facts@);
    let mut out: Vec<Fact> = Vec::new();
    let mut i: usize = 0;
    assert(fact_views(out@) =~= without_id(v.subrange(0, 0), id@));
    while i < facts.len()
        invariant
            i <= facts.len(),
            v == fact_views(facts@),
            fact_views(out@) == without_id(v.subrange(0, i as int), id@),
        decreases facts.len() - i,
    {
        let keep = !str_eq(facts[i].id.as_str(), id);
        let ghost before = out@;
        if keep {
            out.push(facts[i].clone());
        }
        assert(v.subrange(0, i + 1).drop_last() =~= v.subrange(0, i as int));
        assert(fact_views(out@) =~= without_id(v.subrange(0, i + 1), id@));
        i = i + 1;
    }
    assert(v.subrange(0, facts.len() as int) =~= v);
    out
}

/// Facts that are not the folded profile.
fn remove_profiles(facts: &Vec<Fact>) -> (r: Vec<Fact>)
    ensures
        fact_views(r@) == without_profiles(fact_views(facts@)),
{
    let ghost v = fact_views(facts@);
    let mut out: Vec<Fact> = Vec::new();
    let mut i: usize = 0;
    assert(fact_views(out@) =~= without_profiles(v.subrange(0, 0)));
    while i < facts.len()
        invariant
            i <= facts.len(),
            v == fact_views(facts@),
            fact_views(out@) == without_profiles(v.subrange(0, i as int)),
        decreases facts.len() - i,
    {
        if !fact_is_profile(&facts[i]) {
            out.push(facts[i].clone());
        }
        assert(v.subrange(0, i + 1).drop_last() =~= v.subrange(0, i as int));
        assert(fact_views(out@) =~= without_profiles(v.subrange(0, i + 1)));
        i = i + 1;
    }
    assert(v.subrange(0, facts.len() as int) =~= v);
    out
}

/// Events that survive the retention window.
fn keep_unexpired(events: &Vec<MemoryEvent>, now: i64, days: u32) -> (r: Vec<MemoryEvent>)
    ensures
        event_views(r@) == unexpired(event_views(events@), now, days),
{
    let ghost v = event_views(events@);
    let mut out: Vec<MemoryEvent> = Vec::new();
    let mut i: usize = 0;
    assert(event_views(out@) =~= unexpired(v.subrange(0, 0), now, days));
    while i < events.len()
        invariant
            i <= events.len(),
            v == event_views(events@),
            event_views(out@) == unexpired(v.subrange(0, i as int), now, days),
        decreases events.len() - i,
    {
        if !retention_expired(events[i].created_at, now, days) {
            out.push(events[i].clone());
        }
        assert(v.subrange(0, i + 1).drop_last() =~= v.subrange(0, i as int));
        assert(event_views(out@) =~= unexpired(v.subrange(0, i + 1), now, days));
        i = i + 1;
    }
    assert(v.subrange(0, events.len() as int) =~= v);
    out
}

/// Copy of the first `n` facts.
fn first_facts(facts: &Vec<Fact>, n: usize) -> (r: Vec<Fact>)
    ensures
        fact_views(r@) == take_n(fact_views(facts@), n as int),
{
    let end: usize = if facts.len() > n {
        n
    } else {
        facts.len()
    };
    let mut r: Vec<Fact> = Vec::new();
    let mut i: usize = 0;
    while i < end
        invariant
            i <= end <= facts.len(),
            r@ == facts@.subrange(0, i as int),
        decreases end - i,
    {
        r.push(facts[i].clone());
        assert(r@ =~= facts@.subrange(0, i + 1));
        i = i + 1;
    }
    assert(fact_views(r@) =~= fact_views(facts@).subrange(0, end as int));
    assert(take_n(fact_views(facts@), n as int) =~= fact_views(facts@).subrange(0, end as int));
    r
}

/// Copy of the facts from index `n` on.
fn facts_from(facts: &Vec<Fact>, n: usize) -> (r: Vec<Fact>)
    requires
        n <= facts.len(),
    ensures
        fact_views(r@) == fact_views(facts@).skip(n as int),
{
    let mut r: Vec<Fact> = Vec::new();
    let mut i: usize = n;
    while i < facts.len()
        invariant
            n <= i <= facts.len(),
            r@ == facts@.subrange(n as int, i as int),
        decreases facts.len() - i,
    {
        r.push(facts[i].clone());
        assert(r@ =~= facts@.subrange(n as int, i + 1));
        i = i + 1;
    }
    assert(fact_views(r@) =~= fact_views(facts@).subrange(n as int, facts.len() as int));
    assert(fact_views(facts@).skip(n as int) =~= fact_views(facts@).subrange(
        n as int,
        facts.len() as int,
    ));
    r
}

/// `key：value` entries of the facts, joined by `；`.
fn merge_fact_text(facts: &Vec<Fact>) -> (r: Vec<char>)
    ensures
        r@ == merge_facts(fact_views(facts@)),
{
    let ghost v = fact_views(facts@);
    let mut out: Vec<char> = Vec::new();
    let mut i: usize = 0;
    assert(v.subrange(0, 0) =~= Seq::<FactView>::empty());
    while i < facts.len()
        invariant
            i <= facts.len(),
            v == fact_views(facts@),
            out@ == merge_facts(v.subrange(0, i as int)),
        decreases facts.len() - i,
    {
        let ghost sub = v.subrange(0, i + 1);
        assert(sub.drop_last() =~= v.subrange(0, i as int));
        assert(sub.last() == facts@[i as int]@);
        if i > 0 {
            append_str(&mut out, PROFILE_SEPARATOR);
        } else {
            assert(sub =~= seq![sub[0]]);
        }
        append_str(&mut out, facts[i].key.as_str());
        append_str(&mut out, PROFILE_KEY_SEPARATOR);
        append_str(&mut out, facts[i].value.as_str());
        assert(out@ =~= merge_facts(sub));
        i = i + 1;
    }
    assert(v.subrange(0, facts.len() as int) =~= v);
    out
}

/// Keep only the `MAX_EVENTS` newest events.
fn trim_events(events: Vec<MemoryEvent>) -> (r: Vec<MemoryEvent>)
    ensures
        event_views(r@) == trim_events_spec(event_views(events@)),
{
    if events.len() > MAX_EVENTS {
        last_events(&events, MAX_EVENTS)
    } else {
        events
    }
}

// ------------------------------------------------------------------------------------------
// The store
// ------------------------------------------------------------------------------------------
/// Pet memory: the memory of every persona, and the file it is kept in.
#[derive(Debug)]
pub struct PetMemory {
    path: String,
    file: MemoryFile,
}

impl View for PetMemory {
    type V = Map<Seq<char>, PersonaMemoryView>;

    closed spec fn view(&self) -> Map<Seq<char>, PersonaMemoryView> {
        slots_map(self.file.personas@)
    }
}

/// A recorded event, as a mathematical value.
pub open spec fn event_value(id: Seq<char>, kind: EventKind, text: Option<Seq<char>>, created_at: i64) -> EventView {
    EventView { id, kind, text, created_at }
}

impl PetMemory {
    /// No persona appears twice.
    pub closed spec fn wf(&self) -> bool {
        unique_slots(self.file.personas@)
    }

    pub closed spec fn path_view(&self) -> Seq<char> {
        self.path@
    }

    /// An empty memory kept at `path`.
    pub fn new(path: &str) -> (r: Self)
        ensures
            r.wf(),
            r@ == Map::<Seq<char>, PersonaMemoryView>::empty(),
            r.path_view() == path@,
    {
        let r = PetMemory {
            path: owned(path),
            file: MemoryFile { version: MEMORY_VERSION, personas: Vec::new() },
        };
        assert(r.file.personas@.len() == 0);
        r
    }

    /// The memory read back from a file. When a persona appears more than
    /// once, its last entry wins.
    pub fn from_file(path: &str, file: MemoryFile) -> (r: Self)
        ensures
            r.wf(),
            r@ == slots_map(file.personas@),
            r.path_view() == path@,
            r.version() == file.version,
    {
        let version = file.version;
        let mut personas = file.personas;
        let ghost all = personas@;
        let total = personas.len();
        assert(all.len() == total);
        let mut memory = PetMemory {
            path: owned(path),
            file: MemoryFile { version, personas: Vec::new() },
        };
        let mut queue: Vec<PersonaSlot> = Vec::new();
        while personas.len() > 0
            invariant
                all.len() <= usize::MAX,
                queue@.len() + personas@.len() == all.len(),
                personas@ == all.subrange(0, personas@.len() as int),
                forall|i: int| 0 <= i < queue@.len() ==> #[trigger] queue@[i] == all[all.len() - 1 - i],
            decreases personas.len(),
        {
            let slot = personas.pop().unwrap();
            queue.push(slot);
            assert(personas@ =~= all.subrange(0, personas@.len() as int));
        }
        let mut taken: usize = 0;
        assert(memory@ =~= slots_map(all.subrange(0, 0)));
        while queue.len() > 0
            invariant
                all.len() <= usize::MAX,
                taken + queue@.len() == all.len(),
                memory.wf(),
                memory@ == slots_map(all.subrange(0, taken as int)),
                memory.path_view() == path@,
                memory.file.version == version,
                forall|i: int| 0 <= i < queue@.len() ==> #[trigger] queue@[i] == all[all.len() - 1 - i],
            decreases queue.len(),
        {
            let slot = queue.pop().unwrap();
            assert(slot == all[taken as int]);
            let PersonaSlot { id, memory: pm } = slot;
            let ghost pmv = pm@;
            let ghost idv = id@;
            memory.put(id.as_str(), pm);
            proof {
                let sub = all.subrange(0, taken + 1);
                assert(sub.drop_last() =~= all.subrange(0, taken as int));
                assert(sub.last() == all[taken as int]);
            }
            taken = taken + 1;
        }
        assert(all.subrange(0, all.len() as int) =~= all);
        memory
    }

    /// The memory file to persist.
    pub fn file(&self) -> (r: &MemoryFile)
        ensures
            slots_map(r.personas@) == self@,
    {
        &self.file
    }

    pub closed spec fn version(&self) -> u32 {
        self.file.version
    }

    /// Where the memory file lives.
    pub fn path(&self) -> (r: &str)
        ensures
            r@ == self.path_view(),
    {
        self.path.as_str()
    }

    /// Slot of persona `id`, if it has one.
    fn slot_index(&self, id: &str) -> (r: Option<usize>)
        requires
            self.wf(),
        ensures
            r is Some <==> self@.dom().contains(id@),
            r matches Some(i) ==> i < self.file.personas@.len() && self.file.personas@[i as int].id@
                == id@,
    {
        proof {
            lemma_slots_map(self.file.personas@);
        }
        let mut i: usize = 0;
        while i < self.file.personas.len()
            invariant
                self.wf(),
                i <= self.file.personas@.len(),
                forall|j: int| 0 <= j < i ==> #[trigger] self.file.personas@[j].id@ != id@,
            decreases self.file.personas.len() - i,
        {
            if str_eq(self.file.personas[i].id.as_str(), id) {
                proof {
                    lemma_slots_map(self.file.personas@);
                    assert(self.file.personas@[i as int].id@ == id@);
                }
                return Some(i);
            }
            i = i + 1;
        }
        None
    }

    /// Swap the memory stored in slot `i` for `memory`.
    fn swap_memory(&mut self, i: usize, memory: PersonaMemory) -> (previous: PersonaMemory)
        requires
            old(self).wf(),
            i < old(self).file.personas@.len(),
        ensures
            final(self).wf(),
            previous@ == old(self).file.personas@[i as int].memory@,
            final(self)@ == old(self)@.insert(old(self).file.personas@[i as int].id@, memory@),
            final(self).file.personas@.len() == old(self).file.personas@.len(),
            final(self).file.personas@[i as int].id@ == old(self).file.personas@[i as int].id@,
            final(self).path_view() == old(self).path_view(),
            final(self).file.version == old(self).file.version,
    {
        let ghost s = self.file.personas@;
        let slot = self.file.personas.remove(i);
        let PersonaSlot { id, memory: previous } = slot;
        let new_slot = PersonaSlot { id, memory };
        proof {
            lemma_slots_update(s, i as int, new_slot);
            assert(s.remove(i as int).insert(i as int, new_slot) =~= s.update(i as int, new_slot));
        }
        self.file.personas.insert(i, new_slot);
        previous
    }

    /// Store `memory` as the memory of persona `id`.
    fn put(&mut self, id: &str, memory: PersonaMemory)
        requires
            old(self).wf(),
        ensures
            final(self).wf(),
            final(self)@ == old(self)@.insert(id@, memory@),
            final(self).path_view() == old(self).path_view(),
            final(self).file.version == old(self).file.version,
    {
        match self.slot_index(id) {
            Some(i) => {
                let _ = self.swap_memory(i, memory);
            },
            None => {
                let slot = PersonaSlot { id: owned(id), memory };
                proof {
                    lemma_slots_push(self.file.personas@, slot);
                }
                self.file.personas.push(slot);
            },
        }
    }

    /// Take the memory of persona `id` out of the store (the empty memory if
    /// the persona is unknown); the store keeps an empty memory in its place.
    fn take(&mut self, id: &str) -> (r: PersonaMemory)
        requires
            old(self).wf(),
        ensures
            final(self).wf(),
            r@ == persona_or_empty(old(self)@, id@),
            final(self)@ == old(self)@.insert(id@, empty_persona_view()),
            final(self).path_view() == old(self).path_view(),
            final(self).file.version == old(self).file.version,
    {
        proof {
            lemma_slots_map(self.file.personas@);
        }
        match self.slot_index(id) {
            Some(i) => self.swap_memory(i, PersonaMemory::new()),
            None => {
                self.put(id, PersonaMemory::new());
                PersonaMemory::new()
            },
        }
    }

    /// Record an interaction event with a given id and time. The event becomes
    /// the persona's newest event, the persona counts as seen at that time and
    /// at most `MAX_EVENTS` events are kept.
    pub fn record_event_at(
        &mut self,
        persona_id: &str,
        kind: EventKind,
        text: Option<String>,
        id: String,
        now: i64,
    ) -> (event: MemoryEvent)
        requires
            old(self).wf(),
        ensures
            final(self).wf(),
            event@ == event_value(id@, kind, opt_view(text), now),
            final(self)@ == old(self)@.insert(
                persona_id@,
                record_spec(persona_or_empty(old(self)@, persona_id@), event@),
            ),
            final(self).path_view() == old(self).path_view(),
    {
        let event = MemoryEvent { id, kind, text, created_at: now };
        let pm = self.take(persona_id);
        let PersonaMemory { facts, events, last_seen_at: _, last_greeting_at, last_trigger } = pm;
        let mut events = events;
        let ghost ev = event_views(events@);
        events.push(event.clone());
        assert(event_views(events@) =~= ev.push(event@));
        let events = trim_events(events);
        let updated = PersonaMemory { facts, events, last_seen_at: Some(now), last_greeting_at, last_trigger };
        self.put(persona_id, updated);
        proof {
            assert(final(self)@ =~= old(self)@.insert(
                persona_id@,
                record_spec(persona_or_empty(old(self)@, persona_id@), event@),
            ));
        }
        event
    }

    /// Record an interaction event now, under a fresh random id.
    pub fn record_event(&mut self, persona_id: &str, kind: EventKind, text: Option<String>) -> (event: MemoryEvent)
        requires
            old(self).wf(),
        ensures
            final(self).wf(),
            event.kind == kind,
            event@.text == opt_view(text),
            final(self)@ == old(self)@.insert(
                persona_id@,
                record_spec(persona_or_empty(old(self)@, persona_id@), event@),
            ),
            final(self).path_view() == old(self).path_view(),
    {
        let id = new_id();
        let now = now_ms();
        self.record_event_at(persona_id, kind, text, id, now)
    }

    /// Everything remembered about one persona, as a portable export bundle.
    pub fn export_persona(&self, persona_id: &str) -> (bundle: MemoryExport)
        requires
            self.wf(),
        ensures
            bundle.kind@ == MEMORY_EXPORT_KIND@,
            bundle.version == MEMORY_VERSION,
            bundle.persona_id@ == persona_id@,
            fact_views(bundle.facts@) == persona_or_empty(self@, persona_id@).facts,
            event_views(bundle.events@) == persona_or_empty(self@, persona_id@).events,
    {
        let snapshot = self.persona_snapshot(persona_id);
        MemoryExport {
            kind: owned(MEMORY_EXPORT_KIND),
            version: MEMORY_VERSION,
            persona_id: owned(persona_id),
            facts: snapshot.facts,
            events: snapshot.events,
        }
    }

    /// Replace one persona's facts and events with an export bundle. The
    /// greeting bookkeeping (last seen, last greeting) is kept. Facts are
    /// re-sorted newest first and cut to `MAX_FACTS`, events cut to
    /// `MAX_EVENTS`. Returns how many facts and events the bundle held.
    pub fn import_persona(&mut self, persona_id: &str, bundle: MemoryExport) -> (r: Result<
        (usize, usize),
        MemoryError,
    >)
        requires
            old(self).wf(),
        ensures
            final(self).wf(),
            final(self).path_view() == old(self).path_view(),
            bundle.kind@ != MEMORY_EXPORT_KIND@ ==> r == Err::<(usize, usize), MemoryError>(
                MemoryError::NotAnExport,
            ) && final(self)@ == old(self)@,
            bundle.kind@ == MEMORY_EXPORT_KIND@ ==> {
                let pm = persona_or_empty(old(self)@, persona_id@);
                &&& r == Ok::<(usize, usize), MemoryError>((bundle.facts.len(), bundle.events.len()))
                &&& final(self)@ == old(self)@.insert(
                    persona_id@,
                    imported_spec(pm, fact_views(bundle.facts@), event_views(bundle.events@)),
                )
            },
    {
        if !str_eq(bundle.kind.as_str(), MEMORY_EXPORT_KIND) {
            return Err(MemoryError::NotAnExport);
        }
        let MemoryExport { kind: _, version: _, persona_id: _, facts, events } = bundle;
        let counts = (facts.len(), events.len());
        let pm = self.take(persona_id);
        let PersonaMemory { facts: _, events: _, last_seen_at, last_greeting_at, last_trigger } = pm;
        let events = trim_events(events);
        let mut sorted = sort_facts_desc(facts);
        let ghost sv = fact_views(sorted@);
        sorted.truncate(MAX_FACTS);
        assert(fact_views(sorted@) =~= take_n(sv, MAX_FACTS as int));
        let updated = PersonaMemory { facts: sorted, events, last_seen_at, last_greeting_at, last_trigger };
        self.put(persona_id, updated);
        Ok(counts)
    }

    /// Facts and recent events handed to the model when it writes a greeting:
    /// the `fact_limit` newest facts and the `recent_events` newest events.
    pub fn build_greeting_context(&self, persona_id: &str, recent_events: usize, fact_limit: usize) -> (r: GreetingContext)
        requires
            self.wf(),
        ensures
            !self@.dom().contains(persona_id@) ==> r@ == empty_context(),
            self@.dom().contains(persona_id@) ==> r@ == context_spec(
                self@[persona_id@],
                recent_events as int,
                fact_limit as int,
            ),
    {
        proof {
            lemma_slots_map(self.file.personas@);
        }
        match self.slot_index(persona_id) {
            None => {
                let r = GreetingContext {
                    facts: Vec::new(),
                    recent_events: Vec::new(),
                    last_seen_at: None,
                    last_greeting_at: None,
                };
                assert(fact_views(r.facts@) =~= Seq::empty());
                assert(event_views(r.recent_events@) =~= Seq::empty());
                r
            },
            Some(i) => {
                let pm = &self.file.personas[i].memory;
                let copy = clone_facts(&pm.facts);
                let sorted = sort_facts_desc(copy);
                let facts = first_facts(&sorted, fact_limit);
                let events = last_events(&pm.events, recent_events);
                GreetingContext {
                    facts,
                    recent_events: events,
                    last_seen_at: pm.last_seen_at,
                    last_greeting_at: pm.last_greeting_at,
                }
            },
        }
    }

    /// Keep the `max(keep, 1)` most recently updated facts and fold every
    /// older one into a single profile fact (key `画像`, source `compressed`),
    /// using `id` and `now` when a new profile has to be created. An existing
    /// profile is extended instead of duplicated. Returns how many facts were
    /// folded.
    pub fn compress_facts_at(&mut self, persona_id: &str, keep: usize, id: String, now: i64) -> (folded: usize)
        requires
            old(self).wf(),
        ensures
            final(self).wf(),
            final(self).path_view() == old(self).path_view(),
            !old(self)@.dom().contains(persona_id@) ==> final(self)@ == old(self)@ && folded == 0,
            old(self)@.dom().contains(persona_id@) ==> {
                let pm = old(self)@[persona_id@];
                &&& folded == compress_count(pm.facts, keep as int)
                &&& folded == 0 ==> final(self)@ == old(self)@
                &&& folded > 0 ==> final(self)@ == old(self)@.insert(
                    persona_id@,
                    with_facts(pm, compress_spec(pm.facts, keep as int, id@, now)),
                )
            },
    {
        let i = match self.slot_index(persona_id) {
            Some(i) => i,
            None => return 0,
        };
        proof {
            lemma_slots_map(self.file.personas@);
        }
        let k: usize = if keep > 1 {
            keep
        } else {
            1
        };
        if self.file.personas[i].memory.facts.len() <= k {
            return 0;
        }
        let pm = self.swap_memory(i, PersonaMemory::new());
        let PersonaMemory { facts, events, last_seen_at, last_greeting_at, last_trigger } = pm;
        let ghost fv = fact_views(facts@);
        let total = facts.len();
        let j = find_profile_index(&facts);
        proof {
            lemma_profile_index(fv);
        }
        let existing: Option<Fact> = if j < facts.len() {
            Some(facts[j].clone())
        } else {
            None
        };
        let sorted = sort_facts_desc(facts);
        proof {
            lemma_sort_desc(fv);
        }
        let recent = first_facts(&sorted, k);
        let older = facts_from(&sorted, k);
        let merged = merge_fact_text(&older);
        let profile = match existing {
            Some(p) => {
                let mut value = chars_of(p.value.as_str());
                append_str(&mut value, PROFILE_SEPARATOR);
                append_chars(&mut value, &merged);
                Fact {
                    id: p.id,
                    key: p.key,
                    value: string_from_chars(&value),
                    confidence: p.confidence,
                    created_at: p.created_at,
                    updated_at: now,
                    source: p.source,
                }
            },
            None => Fact {
                id,
                key: owned(PROFILE_KEY),
                value: string_from_chars(&merged),
                confidence: PROFILE_CONFIDENCE,
                created_at: now,
                updated_at: now,
                source: owned(FACT_SOURCE_COMPRESSED),
            },
        };
        let ghost pv = profile@;
        let mut kept = remove_profiles(&recent);
        let ghost kv = fact_views(kept@);
        kept.push(profile);
        assert(fact_views(kept@) =~= kv.push(pv));
        let new_facts = sort_facts_desc(kept);
        proof {
            let sv = sort_desc(fv);
            assert(sv.take(k as int) =~= take_n(sv, k as int));
            assert(pv == folded_profile(fv, sv.skip(k as int), id@, now));
        }
        let updated = PersonaMemory { facts: new_facts, events, last_seen_at, last_greeting_at, last_trigger };
        self.swap_memory(i, updated);
        proof {
            let pm = old(self)@[persona_id@];
            assert(final(self)@ =~= old(self)@.insert(
                persona_id@,
                with_facts(pm, compress_spec(pm.facts, keep as int, id@, now)),
            ));
        }
        total - k
    }

    /// Fold old facts into the profile now.
    pub fn compress_facts(&mut self, persona_id: &str, keep: usize) -> (folded: usize)
        requires
            old(self).wf(),
        ensures
            final(self).wf(),
            final(self).path_view() == old(self).path_view(),
            !old(self)@.dom().contains(persona_id@) ==> final(self)@ == old(self)@ && folded == 0,
            old(self)@.dom().contains(persona_id@) ==> {
                let pm = old(self)@[persona_id@];
                &&& folded == compress_count(pm.facts, keep as int)
                &&& folded == 0 ==> final(self)@ == old(self)@
                &&& folded > 0 ==> exists|id: Seq<char>, now: i64|
                    final(self)@ == old(self)@.insert(
                        persona_id@,
                        with_facts(pm, #[trigger] compress_spec(pm.facts, keep as int, id, now)),
                    )
            },
    {
        let id = new_id();
        let ghost idv = id@;
        let now = now_ms();
        let folded = self.compress_facts_at(persona_id, keep, id, now);
        proof {
            if old(self)@.dom().contains(persona_id@) && folded > 0 {
                let pm = old(self)@[persona_id@];
                assert(final(self)@ == old(self)@.insert(
                    persona_id@,
                    with_facts(pm, compress_spec(pm.facts, keep as int, idv, now)),
                ));
            }
        }
        folded
    }

    /// Upsert a fact by key (keys match ignoring ASCII case) with a given id
    /// for a new fact and a given time, then keep the `MAX_FACTS` newest facts.
    /// Returns the written fact.
    pub fn remember_fact_from_at(
        &mut self,
        persona_id: &str,
        key: &str,
        value: &str,
        confidence: u32,
        source: &str,
        id: String,
        now: i64,
    ) -> (fact: Fact)
        requires
            old(self).wf(),
        ensures
            final(self).wf(),
            fact@ == upserted_fact(
                persona_or_empty(old(self)@, persona_id@).facts,
                key@,
                value@,
                confidence,
                source@,
                id@,
                now,
            ),
            final(self)@ == old(self)@.insert(
                persona_id@,
                with_facts(
                    persona_or_empty(old(self)@, persona_id@),
                    upsert_facts(
                        persona_or_empty(old(self)@, persona_id@).facts,
                        key@,
                        value@,
                        confidence,
                        source@,
                        id@,
                        now,
                    ),
                ),
            ),
            final(self).path_view() == old(self).path_view(),
    {
        let pm = self.take(persona_id);
        let PersonaMemory { facts, events, last_seen_at, last_greeting_at, last_trigger } = pm;
        let mut facts = facts;
        let ghost fv = fact_views(facts@);
        let j = find_key_index(&facts, key);
        proof {
            lemma_key_index(fv, key@);
        }
        let written: Fact;
        if j < facts.len() {
            let previous = facts.remove(j);
            assert(previous@ == fv[j as int]);
            let f = Fact {
                id: previous.id,
                key: previous.key,
                value: owned(value),
                confidence,
                created_at: previous.created_at,
                updated_at: now,
                source: owned(source),
            };
            written = f.clone();
            let ghost before = facts@;
            facts.insert(j, f);
            assert(fact_views(facts@) =~= fv.update(j as int, written@));
        } else {
            let f = Fact {
                id,
                key: owned(key),
                value: owned(value),
                confidence,
                created_at: now,
                updated_at: now,
                source: owned(source),
            };
            written = f.clone();
            facts.push(f);
            assert(fact_views(facts@) =~= fv.push(written@));
        }
        let mut sorted = sort_facts_desc(facts);
        let ghost sv = fact_views(sorted@);
        sorted.truncate(MAX_FACTS);
        assert(fact_views(sorted@) =~= take_n(sv, MAX_FACTS as int));
        let updated = PersonaMemory { facts: sorted, events, last_seen_at, last_greeting_at, last_trigger };
        self.put(persona_id, updated);
        proof {
            assert(final(self)@ =~= old(self)@.insert(
                persona_id@,
                with_facts(
                    persona_or_empty(old(self)@, persona_id@),
                    upsert_facts(fv, key@, value@, confidence, source@, id@, now),
                ),
            ));
        }
        written
    }

    /// Upsert a fact now, recording where it came from.
    pub fn remember_fact_from(
        &mut self,
        persona_id: &str,
        key: &str,
        value: &str,
        confidence: u32,
        source: &str,
    ) -> (fact: Fact)
        requires
            old(self).wf(),
        ensures
            final(self).wf(),
            fact@.value == value@,
            fact@.confidence == confidence,
            fact@.source == source@,
            final(self)@ == old(self)@.insert(
                persona_id@,
                with_facts(
                    persona_or_empty(old(self)@, persona_id@),
                    upsert_facts(
                        persona_or_empty(old(self)@, persona_id@).facts,
                        key@,
                        value@,
                        confidence,
                        source@,
                        fact@.id,
                        fact@.updated_at,
                    ),
                ),
            ),
            final(self).path_view() == old(self).path_view(),
    {
        let id = new_id();
        let now = now_ms();
        let ghost idv = id@;
        let fact = self.remember_fact_from_at(persona_id, key, value, confidence, source, id, now);
        proof {
            let facts = persona_or_empty(old(self)@, persona_id@).facts;
            lemma_key_index(facts, key@);
            if key_index(facts, key@) < facts.len() {
                // The id of an existing fact is kept, so any id describes the same list.
                assert(upsert_facts(facts, key@, value@, confidence, source@, fact@.id, now)
                    == upsert_facts(facts, key@, value@, confidence, source@, idv, now));
            }
        }
        fact
    }

    /// Upsert a fact entered by hand.
    pub fn remember_fact(&mut self, persona_id: &str, key: &str, value: &str, confidence: u32) -> (fact: Fact)
        requires
            old(self).wf(),
        ensures
            final(self).wf(),
            fact@.value == value@,
            fact@.confidence == confidence,
            fact@.source == FACT_SOURCE_MANUAL@,
            final(self)@ == old(self)@.insert(
                persona_id@,
                with_facts(
                    persona_or_empty(old(self)@, persona_id@),
                    upsert_facts(
                        persona_or_empty(old(self)@, persona_id@).facts,
                        key@,
                        value@,
                        confidence,
                        FACT_SOURCE_MANUAL@,
                        fact@.id,
                        fact@.updated_at,
                    ),
                ),
            ),
            final(self).path_view() == old(self).path_view(),
    {
        self.remember_fact_from(persona_id, key, value, confidence, FACT_SOURCE_MANUAL)
    }

    /// Forget the fact with id `fact_id`. Returns whether one was removed.
    pub fn forget_fact(&mut self, persona_id: &str, fact_id: &str) -> (removed: bool)
        requires
            old(self).wf(),
        ensures
            final(self).wf(),
            !old(self)@.dom().contains(persona_id@) ==> final(self)@ == old(self)@ && !removed,
            old(self)@.dom().contains(persona_id@) ==> final(self)@ == old(self)@.insert(
                persona_id@,
                with_facts(old(self)@[persona_id@], without_id(old(self)@[persona_id@].facts, fact_id@)),
            ),
            old(self)@.dom().contains(persona_id@) ==> removed == (without_id(
                old(self)@[persona_id@].facts,
                fact_id@,
            ).len() != old(self)@[persona_id@].facts.len()),
            final(self).path_view() == old(self).path_view(),
    {
        let i = match self.slot_index(persona_id) {
            Some(i) => i,
            None => return false,
        };
        proof {
            lemma_slots_map(self.file.personas@);
        }
        let pm = self.swap_memory(i, PersonaMemory::new());
        let PersonaMemory { facts, events, last_seen_at, last_greeting_at, last_trigger } = pm;
        let before = facts.len();
        let kept = remove_fact_id(facts, fact_id);
        let removed = kept.len() != before;
        let updated = PersonaMemory { facts: kept, events, last_seen_at, last_greeting_at, last_trigger };
        self.swap_memory(i, updated);
        proof {
            assert(final(self)@ =~= old(self)@.insert(
                persona_id@,
                with_facts(old(self)@[persona_id@], without_id(old(self)@[persona_id@].facts, fact_id@)),
            ));
        }
        removed
    }

    /// Edit the fact with id `fact_id` in place at a given time: key, value and
    /// (clamped) confidence change, id, creation time and source are kept, and
    /// the list is re-sorted newest first. `None` when there is no such fact.
    pub fn update_fact_at(
        &mut self,
        persona_id: &str,
        fact_id: &str,
        key: &str,
        value: &str,
        confidence: u32,
        now: i64,
    ) -> (r: Option<Fact>)
        requires
            old(self).wf(),
        ensures
            final(self).wf(),
            final(self).path_view() == old(self).path_view(),
            ({
                let pm = persona_or_empty(old(self)@, persona_id@);
                let j = id_index(pm.facts, fact_id@);
                if !old(self)@.dom().contains(persona_id@) || j >= pm.facts.len() {
                    r is None && final(self)@ == old(self)@
                } else {
                    let f = updated_fact(pm.facts[j], key@, value@, confidence, now);
                    &&& r matches Some(u) && u@ == f
                    &&& final(self)@ == old(self)@.insert(
                        persona_id@,
                        with_facts(pm, sort_desc(pm.facts.update(j, f))),
                    )
                }
            }),
    {
        let i = match self.slot_index(persona_id) {
            Some(i) => i,
            None => return None,
        };
        proof {
            lemma_slots_map(self.file.personas@);
        }
        let ghost fv = old(self)@[persona_id@].facts;
        let j0 = find_id_index(&self.file.personas[i].memory.facts, fact_id);
        proof {
            lemma_id_index(fv, fact_id@);
        }
        if j0 >= self.file.personas[i].memory.facts.len() {
            return None;
        }
        let pm = self.swap_memory(i, PersonaMemory::new());
        let PersonaMemory { facts, events, last_seen_at, last_greeting_at, last_trigger } = pm;
        let mut facts = facts;
        let j = j0;
        let previous = facts.remove(j);
        assert(previous@ == fv[j as int]);
        let clamped = if confidence > FULL_CONFIDENCE {
            FULL_CONFIDENCE
        } else {
            confidence
        };
        let f = Fact {
            id: previous.id,
            key: owned(key),
            value: owned(value),
            confidence: clamped,
            created_at: previous.created_at,
            updated_at: now,
            source: previous.source,
        };
        let result = f.clone();
        facts.insert(j, f);
        assert(fact_views(facts@) =~= fv.update(j as int, result@));
        let sorted = sort_facts_desc(facts);
        let updated = PersonaMemory { facts: sorted, events, last_seen_at, last_greeting_at, last_trigger };
        self.swap_memory(i, updated);
        proof {
            let pm = persona_or_empty(old(self)@, persona_id@);
            assert(final(self)@ =~= old(self)@.insert(
                persona_id@,
                with_facts(pm, sort_desc(pm.facts.update(j as int, result@))),
            ));
        }
        Some(result)
    }

    /// Edit a fact in place now.
    pub fn update_fact(
        &mut self,
        persona_id: &str,
        fact_id: &str,
        key: &str,
        value: &str,
        confidence: u32,
    ) -> (r: Option<Fact>)
        requires
            old(self).wf(),
        ensures
            final(self).wf(),
            final(self).path_view() == old(self).path_view(),
            ({
                let pm = persona_or_empty(old(self)@, persona_id@);
                let j = id_index(pm.facts, fact_id@);
                if !old(self)@.dom().contains(persona_id@) || j >= pm.facts.len() {
                    r is None && final(self)@ == old(self)@
                } else {
                    exists|now: i64| updated_at_time(old(self)@, final(self)@, persona_id@, fact_id@, key@, value@, confidence, now, r)
                }
            }),
    {
        let now = now_ms();
        let r = self.update_fact_at(persona_id, fact_id, key, value, confidence, now);
        proof {
            let pm = persona_or_empty(old(self)@, persona_id@);
            let j = id_index(pm.facts, fact_id@);
            if old(self)@.dom().contains(persona_id@) && j < pm.facts.len() {
                assert(updated_at_time(old(self)@, final(self)@, persona_id@, fact_id@, key@, value@, confidence, now, r));
            }
        }
        r
    }

    /// Drop the events older than the retention window at a given time.
    /// Returns how many were removed; `days == 0` keeps everything.
    pub fn prune_events_at(&mut self, persona_id: &str, days: u32, now: i64) -> (removed: usize)
        requires
            old(self).wf(),
        ensures
            final(self).wf(),
            final(self).path_view() == old(self).path_view(),
            days == 0 || !old(self)@.dom().contains(persona_id@) ==> final(self)@ == old(self)@
                && removed == 0,
            days != 0 && old(self)@.dom().contains(persona_id@) ==> {
                let pm = old(self)@[persona_id@];
                let kept = unexpired(pm.events, now, days);
                &&& final(self)@ == old(self)@.insert(persona_id@, with_events(pm, kept))
                &&& removed == pm.events.len() - kept.len()
            },
    {
        if days == 0 {
            return 0;
        }
        let i = match self.slot_index(persona_id) {
            Some(i) => i,
            None => return 0,
        };
        proof {
            lemma_slots_map(self.file.personas@);
        }
        let pm = self.swap_memory(i, PersonaMemory::new());
        let PersonaMemory { facts, events, last_seen_at, last_greeting_at, last_trigger } = pm;
        let before = events.len();
        let kept = keep_unexpired(&events, now, days);
        proof {
            lemma_unexpired_len(event_views(events@), now, days);
        }
        let removed = before - kept.len();
        let updated = PersonaMemory { facts, events: kept, last_seen_at, last_greeting_at, last_trigger };
        self.swap_memory(i, updated);
        proof {
            let pm = old(self)@[persona_id@];
            assert(final(self)@ =~= old(self)@.insert(
                persona_id@,
                with_events(pm, unexpired(pm.events, now, days)),
            ));
        }
        removed
    }

    /// Drop expired events now.
    pub fn prune_events(&mut self, persona_id: &str, days: u32) -> (removed: usize)
        requires
            old(self).wf(),
        ensures
            final(self).wf(),
            final(self).path_view() == old(self).path_view(),
            days == 0 || !old(self)@.dom().contains(persona_id@) ==> final(self)@ == old(self)@
                && removed == 0,
            days != 0 && old(self)@.dom().contains(persona_id@) ==> exists|now: i64|
                {
                    &&& final(self)@ == old(self)@.insert(
                        persona_id@,
                        with_events(
                            old(self)@[persona_id@],
                            #[trigger] unexpired(old(self)@[persona_id@].events, now, days),
                        ),
                    )
                    &&& removed == old(self)@[persona_id@].events.len() - unexpired(
                        old(self)@[persona_id@].events,
                        now,
                        days,
                    ).len()
                },
    {
        let now = now_ms();
        self.prune_events_at(persona_id, days, now)
    }

    /// Remove every fact of a persona but keep its events. Returns how many
    /// facts were dropped.
    pub fn clear_facts(&mut self, persona_id: &str) -> (removed: usize)
        requires
            old(self).wf(),
        ensures
            final(self).wf(),
            final(self).path_view() == old(self).path_view(),
            !old(self)@.dom().contains(persona_id@) ==> final(self)@ == old(self)@ && removed == 0,
            old(self)@.dom().contains(persona_id@) ==> final(self)@ == old(self)@.insert(
                persona_id@,
                with_facts(old(self)@[persona_id@], Seq::empty()),
            ) && removed == old(self)@[persona_id@].facts.len(),
    {
        let i = match self.slot_index(persona_id) {
            Some(i) => i,
            None => return 0,
        };
        proof {
            lemma_slots_map(self.file.personas@);
        }
        let pm = self.swap_memory(i, PersonaMemory::new());
        let PersonaMemory { facts, events, last_seen_at, last_greeting_at, last_trigger } = pm;
        let removed = facts.len();
        let updated = PersonaMemory { facts: Vec::new(), events, last_seen_at, last_greeting_at, last_trigger };
        assert(fact_views(updated.facts@) =~= Seq::empty());
        self.swap_memory(i, updated);
        proof {
            assert(final(self)@ =~= old(self)@.insert(
                persona_id@,
                with_facts(old(self)@[persona_id@], Seq::empty()),
            ));
        }
        removed
    }

    /// Remove every event of a persona but keep its facts. Returns how many
    /// events were dropped.
    pub fn clear_events(&mut self, persona_id: &str) -> (removed: usize)
        requires
            old(self).wf(),
        ensures
            final(self).wf(),
            final(self).path_view() == old(self).path_view(),
            !old(self)@.dom().contains(persona_id@) ==> final(self)@ == old(self)@ && removed == 0,
            old(self)@.dom().contains(persona_id@) ==> final(self)@ == old(self)@.insert(
                persona_id@,
                with_events(old(self)@[persona_id@], Seq::empty()),
            ) && removed == old(self)@[persona_id@].events.len(),
    {
        let i = match self.slot_index(persona_id) {
            Some(i) => i,
            None => return 0,
        };
        proof {
            lemma_slots_map(self.file.personas@);
        }
        let pm = self.swap_memory(i, PersonaMemory::new());
        let PersonaMemory { facts, events, last_seen_at, last_greeting_at, last_trigger } = pm;
        let removed = events.len();
        let updated = PersonaMemory { facts, events: Vec::new(), last_seen_at, last_greeting_at, last_trigger };
        assert(event_views(updated.events@) =~= Seq::empty());
        self.swap_memory(i, updated);
        proof {
            assert(final(self)@ =~= old(self)@.insert(
                persona_id@,
                with_events(old(self)@[persona_id@], Seq::empty()),
            ));
        }
        removed
    }

    /// Forget everything about a persona.
    pub fn clear_persona(&mut self, persona_id: &str)
        requires
            old(self).wf(),
        ensures
            final(self).wf(),
            final(self).path_view() == old(self).path_view(),
            final(self)@ == old(self)@.remove(persona_id@),
    {
        match self.slot_index(persona_id) {
            Some(i) => {
                proof {
                    lemma_slots_remove(self.file.personas@, i as int);
                }
                let _ = self.file.personas.remove(i);
            },
            None => {
                assert(old(self)@.remove(persona_id@) =~= old(self)@);
            },
        }
    }

    /// A copy of a persona's facts (none for an unknown persona).
    pub fn list_facts(&self, persona_id: &str) -> (r: Vec<Fact>)
        requires
            self.wf(),
        ensures
            fact_views(r@) == persona_or_empty(self@, persona_id@).facts,
    {
        proof {
            lemma_slots_map(self.file.personas@);
        }
        match self.slot_index(persona_id) {
            Some(i) => clone_facts(&self.file.personas[i].memory.facts),
            None => {
                let r: Vec<Fact> = Vec::new();
                assert(fact_views(r@) =~= Seq::empty());
                r
            },
        }
    }

    /// A copy of a persona's whole memory (empty for an unknown persona).
    pub fn persona_snapshot(&self, persona_id: &str) -> (r: PersonaMemory)
        requires
            self.wf(),
        ensures
            r@ == persona_or_empty(self@, persona_id@),
    {
        proof {
            lemma_slots_map(self.file.personas@);
        }
        match self.slot_index(persona_id) {
            Some(i) => self.file.personas[i].memory.clone(),
            None => PersonaMemory::new(),
        }
    }

    /// The `limit` newest events of a persona, oldest first.
    pub fn recent_events(&self, persona_id: &str, limit: usize) -> (r: Vec<MemoryEvent>)
        requires
            self.wf(),
        ensures
            event_views(r@) == last_n(persona_or_empty(self@, persona_id@).events, limit as int),
    {
        proof {
            lemma_slots_map(self.file.personas@);
        }
        match self.slot_index(persona_id) {
            Some(i) => last_events(&self.file.personas[i].memory.events, limit),
            None => {
                let r: Vec<MemoryEvent> = Vec::new();
                assert(event_views(r@) =~= last_n(Seq::<EventView>::empty(), limit as int));
                r
            },
        }
    }

    /// Mark a persona as seen at a given time.
    pub fn mark_seen_at(&mut self, persona_id: &str, now: i64)
        requires
            old(self).wf(),
        ensures
            final(self).wf(),
            final(self).path_view() == old(self).path_view(),
            final(self)@ == old(self)@.insert(
                persona_id@,
                seen_spec(persona_or_empty(old(self)@, persona_id@), now),
            ),
    {
        let pm = self.take(persona_id);
        let PersonaMemory { facts, events, last_seen_at: _, last_greeting_at, last_trigger } = pm;
        let updated = PersonaMemory { facts, events, last_seen_at: Some(now), last_greeting_at, last_trigger };
        self.put(persona_id, updated);
    }

    /// Mark a persona as seen now.
    pub fn mark_seen(&mut self, persona_id: &str)
        requires
            old(self).wf(),
        ensures
            final(self).wf(),
            final(self).path_view() == old(self).path_view(),
            exists|now: i64|
                final(self)@ == old(self)@.insert(
                    persona_id@,
                    #[trigger] seen_spec(persona_or_empty(old(self)@, persona_id@), now),
                ),
    {
        let now = now_ms();
        self.mark_seen_at(persona_id, now);
        assert(final(self)@ == old(self)@.insert(
            persona_id@,
            seen_spec(persona_or_empty(old(self)@, persona_id@), now),
        ));
    }

    /// Record a greeting shown at a given time: it becomes the newest event
    /// (of kind `PetGreeting`), and the greeting time and trigger are kept.
    pub fn mark_greeted_at(&mut self, persona_id: &str, trigger: &str, text: &str, id: String, now: i64)
        requires
            old(self).wf(),
        ensures
            final(self).wf(),
            final(self).path_view() == old(self).path_view(),
            final(self)@ == old(self)@.insert(
                persona_id@,
                greeted_spec(
                    persona_or_empty(old(self)@, persona_id@),
                    trigger@,
                    event_value(id@, EventKind::PetGreeting, Some(text@), now),
                ),
            ),
    {
        let event = MemoryEvent { id, kind: EventKind::PetGreeting, text: Some(owned(text)), created_at: now };
        let ghost evv = event@;
        let pm = self.take(persona_id);
        let PersonaMemory { facts, events, last_seen_at, last_greeting_at: _, last_trigger: _ } = pm;
        let mut events = events;
        let ghost ev = event_views(events@);
        events.push(event);
        assert(event_views(events@) =~= ev.push(evv));
        let events = trim_events(events);
        let updated = PersonaMemory {
            facts,
            events,
            last_seen_at,
            last_greeting_at: Some(now),
            last_trigger: Some(owned(trigger)),
        };
        self.put(persona_id, updated);
        proof {
            assert(final(self)@ =~= old(self)@.insert(
                persona_id@,
                greeted_spec(persona_or_empty(old(self)@, persona_id@), trigger@, evv),
            ));
        }
    }

    /// Record a greeting shown now.
    pub fn mark_greeted(&mut self, persona_id: &str, trigger: &str, text: &str)
        requires
            old(self).wf(),
        ensures
            final(self).wf(),
            final(self).path_view() == old(self).path_view(),
            exists|id: Seq<char>, now: i64|
                final(self)@ == old(self)@.insert(
                    persona_id@,
                    greeted_spec(
                        persona_or_empty(old(self)@, persona_id@),
                        trigger@,
                        #[trigger] event_value(id, EventKind::PetGreeting, Some(text@), now),
                    ),
                ),
    {
        let id = new_id();
        let ghost idv = id@;
        let now = now_ms();
        self.mark_greeted_at(persona_id, trigger, text, id, now);
        assert(final(self)@ == old(self)@.insert(
            persona_id@,
            greeted_spec(
                persona_or_empty(old(self)@, persona_id@),
                trigger@,
                event_value(idv, EventKind::PetGreeting, Some(text@), now),
            ),
        ));
    }
}

/// Memory of a persona marked as seen at `now`.
pub open spec fn seen_spec(pm: PersonaMemoryView, now: i64) -> PersonaMemoryView {
    PersonaMemoryView {
        facts: pm.facts,
        events: pm.events,
        last_seen_at: Some(now),
        last_greeting_at: pm.last_greeting_at,
        last_trigger: pm.last_trigger,
    }
}

/// `after` is `before` with fact `fact_id` of `persona_id` edited at `now`, and
/// `r` holds the edited fact.
pub open spec fn updated_at_time(
    before: Map<Seq<char>, PersonaMemoryView>,
    after: Map<Seq<char>, PersonaMemoryView>,
    persona_id: Seq<char>,
    fact_id: Seq<char>,
    key: Seq<char>,
    value: Seq<char>,
    confidence: u32,
    now: i64,
    r: Option<Fact>,
) -> bool {
    let pm = persona_or_empty(before, persona_id);
    let j = id_index(pm.facts, fact_id);
    let f = updated_fact(pm.facts[j], key, value, confidence, now);
    &&& r matches Some(u) && u@ == f
    &&& after == before.insert(persona_id, with_facts(pm, sort_desc(pm.facts.update(j, f))))
}

/// A fact after a manual edit.
pub open spec fn updated_fact(f: FactView, key: Seq<char>, value: Seq<char>, confidence: u32, now: i64) -> FactView {
    FactView {
        id: f.id,
        key,
        value,
        confidence: clamp_confidence(confidence),
        created_at: f.created_at,
        updated_at: now,
        source: f.source,
    }
}

pub proof fn lemma_unexpired_len(s: Seq<EventView>, now: i64, days: u32)
    ensures
        unexpired(s, now, days).len() <= s.len(),
    decreases s.len(),
{
    if s.len() > 0 {
        lemma_unexpired_len(s.drop_last(), now, days);
    }
}

/// Kind tag of a memory export file.
pub const MEMORY_EXPORT_KIND: &'static str = "petsona.memory.persona";

/// File format of one persona's exported memory.
#[derive(Debug)]
pub struct MemoryExport {
    pub kind: String,
    pub version: u32,
    pub persona_id: String,
    pub facts: Vec<Fact>,
    pub events: Vec<MemoryEvent>,
}

/// Why a memory operation was refused.
#[derive(Debug, Clone, Copy, PartialEq, Eq, Structural)]
pub enum MemoryError {
    /// The file is not a memory export (its `kind` does not match).
    NotAnExport,
}

impl MemoryError {
    /// Message shown to the user.
    pub fn message(&self) -> (r: &'static str)
        ensures
            r@ == "记忆导出文件的 kind 字段不匹配"@,
    {
        "记忆导出文件的 kind 字段不匹配"
    }
}

/// A persona's memory after importing facts and events.
pub open spec fn imported_spec(pm: PersonaMemoryView, facts: Seq<FactView>, events: Seq<EventView>) -> PersonaMemoryView {
    PersonaMemoryView {
        facts: take_n(sort_desc(facts), MAX_FACTS as int),
        events: trim_events_spec(events),
        last_seen_at: pm.last_seen_at,
        last_greeting_at: pm.last_greeting_at,
        last_trigger: pm.last_trigger,
    }
}

/// What the model is told about the user when it writes a greeting.
#[derive(Debug)]
pub struct GreetingContext {
    pub facts: Vec<Fact>,
    pub recent_events: Vec<MemoryEvent>,
    pub last_seen_at: Option<i64>,
    pub last_greeting_at: Option<i64>,
}

pub struct GreetingContextView {
    pub facts: Seq<FactView>,
    pub recent_events: Seq<EventView>,
    pub last_seen_at: Option<i64>,
    pub last_greeting_at: Option<i64>,
}

impl View for GreetingContext {
    type V = GreetingContextView;

    open spec fn view(&self) -> GreetingContextView {
        GreetingContextView {
            facts: fact_views(self.facts@),
            recent_events: event_views(self.recent_events@),
            last_seen_at: self.last_seen_at,
            last_greeting_at: self.last_greeting_at,
        }
    }
}

pub open spec fn empty_context() -> GreetingContextView {
    GreetingContextView {
        facts: Seq::empty(),
        recent_events: Seq::empty(),
        last_seen_at: None,
        last_greeting_at: None,
    }
}

pub open spec fn context_spec(pm: PersonaMemoryView, recent_events: int, fact_limit: int) -> GreetingContextView {
    GreetingContextView {
        facts: take_n(sort_desc(pm.facts), fact_limit),
        recent_events: last_n(pm.events, recent_events),
        last_seen_at: pm.last_seen_at,
        last_greeting_at: pm.last_greeting_at,
    }
}

// ------------------------------------------------------------------------------------------
// Rendering the greeting context for the model
// ------------------------------------------------------------------------------------------
/// `now - then` fits in an `i64`.
pub open spec fn ago_defined(now: i64, then: i64) -> bool {
    i64::MIN <= now - then <= i64::MAX
}

/// Whole seconds from `then` to `now`, never negative.
pub open spec fn ago_seconds(now: i64, then: i64) -> int {
    let d = now - then;
    (if d > 0 {
        d
    } else {
        0
    }) / 1000
}

/// Coarse Chinese description of how long ago `then` was.
pub open spec fn humanize_spec(now: i64, then: i64) -> Seq<char> {
    let s = ago_seconds(now, then);
    if s < 60 {
        "刚刚"@
    } else if s < 3600 {
        decimal((s / 60) as nat) + " 分钟前"@
    } else if s < 86_400 {
        decimal((s / 3600) as nat) + " 小时前"@
    } else {
        decimal((s / 86_400) as nat) + " 天前"@
    }
}

/// The age label counts whole units of the elapsed time: under a minute it
/// is 刚刚; then `n` 分钟前 for `n` whole minutes (under an hour), `n` 小时前 for
/// `n` whole hours (under a day), and `n` 天前 for `n` whole days.
pub proof fn lemma_humanize_counts_whole_units(now: i64, then: i64, n: nat)
    ensures
        now - then < 60_000 ==> humanize_spec(now, then) == "刚刚"@,
        1 <= n < 60 && n * 60_000 <= now - then < (n + 1) * 60_000 ==> humanize_spec(now, then)
            == decimal(n) + " 分钟前"@,
        1 <= n < 24 && n * 3_600_000 <= now - then < (n + 1) * 3_600_000 ==> humanize_spec(
            now,
            then,
        ) == decimal(n) + " 小时前"@,
        1 <= n && n * 86_400_000 <= now - then < (n + 1) * 86_400_000 ==> humanize_spec(now, then)
            == decimal(n) + " 天前"@,
{
    let ms: int = now - then;
    let s = ago_seconds(now, then);
    if ms < 60_000 {
        assert(s < 60);
    }
    if 1 <= n < 60 && n * 60_000 <= ms < (n + 1) * 60_000 {
        assert(s == ms / 1000);
        assert(n * 60 <= s < (n + 1) * 60) by (nonlinear_arith)
            requires
                s == ms / 1000,
                n * 60_000 <= ms < (n + 1) * 60_000,
        ;
        assert(s / 60 == n) by (nonlinear_arith)
            requires
                n * 60 <= s < (n + 1) * 60,
        ;
        assert(s < 3600) by (nonlinear_arith)
            requires
                s < (n + 1) * 60,
                n < 60,
        ;
    }
    if 1 <= n < 24 && n * 3_600_000 <= ms < (n + 1) * 3_600_000 {
        assert(s == ms / 1000);
        assert(n * 3600 <= s < (n + 1) * 3600) by (nonlinear_arith)
            requires
                s == ms / 1000,
                n * 3_600_000 <= ms < (n + 1) * 3_600_000,
        ;
        assert(s / 3600 == n) by (nonlinear_arith)
            requires
                n * 3600 <= s < (n + 1) * 3600,
        ;
        assert(3600 <= s < 86_400) by (nonlinear_arith)
            requires
                n * 3600 <= s < (n + 1) * 3600,
                1 <= n < 24,
        ;
    }
    if 1 <= n && n * 86_400_000 <= ms < (n + 1) * 86_400_000 {
        assert(s == ms / 1000);
        assert(n * 86_400 <= s < (n + 1) * 86_400) by (nonlinear_arith)
            requires
                s == ms / 1000,
                n * 86_400_000 <= ms < (n + 1) * 86_400_000,
        ;
        assert(s / 86_400 == n) by (nonlinear_arith)
            requires
                n * 86_400 <= s < (n + 1) * 86_400,
        ;
        assert(86_400 <= s) by (nonlinear_arith)
            requires
                n * 86_400 <= s,
                1 <= n,
        ;
    }
}

fn humanize_chars(now: i64, then: i64) -> (r: Vec<char>)
    requires
        ago_defined(now, then),
    ensures
        r@ == humanize_spec(now, then),
{
    let d: i64 = now - then;
    let d: i64 = if d > 0 {
        d
    } else {
        0
    };
    let seconds: u64 = (d / 1000) as u64;
    if seconds < 60 {
        chars_of("刚刚")
    } else if seconds < 3600 {
        let mut r = decimal_chars(seconds / 60);
        append_str(&mut r, " 分钟前");
        r
    } else if seconds < 86_400 {
        let mut r = decimal_chars(seconds / 3600);
        append_str(&mut r, " 小时前");
        r
    } else {
        let mut r = decimal_chars(seconds / 86_400);
        append_str(&mut r, " 天前");
        r
    }
}

/// How long ago `then` was, seen from `now` (both in milliseconds):
/// 刚刚, N 分钟前, N 小时前 or N 天前.
pub fn humanize_ago(now: i64, then: i64) -> (r: String)
    requires
        ago_defined(now, then),
    ensures
        r@ == humanize_spec(now, then),
{
    let v = humanize_chars(now, then);
    string_from_chars(&v)
}

/// `- key：value`.
pub open spec fn fact_line(f: FactView) -> Seq<char> {
    "- "@ + f.key + PROFILE_KEY_SEPARATOR@ + f.value
}

/// The event's own text, or the label of its kind.
pub open spec fn event_text(e: EventView) -> Seq<char> {
    match e.text {
        Some(t) => t,
        None => event_label(e.kind),
    }
}

/// `- text（when）`.
pub open spec fn event_line(e: EventView, now: i64) -> Seq<char> {
    "- "@ + event_text(e) + "（"@ + humanize_spec(now, e.created_at) + "）"@
}

pub open spec fn fact_lines(s: Seq<FactView>) -> Seq<Seq<char>> {
    s.map_values(|f: FactView| fact_line(f))
}

pub open spec fn event_lines(s: Seq<EventView>, now: i64) -> Seq<Seq<char>> {
    s.map_values(|e: EventView| event_line(e, now))
}

/// The sections of a rendered context, in order; empty parts are left out.
pub open spec fn render_sections(c: GreetingContextView, now: i64) -> Seq<Seq<char>> {
    let facts = if c.facts.len() > 0 {
        seq!["【你记得关于用户的事情】\n"@ + join_spec(fact_lines(c.facts), "\n"@)]
    } else {
        Seq::empty()
    };
    let events = if c.recent_events.len() > 0 {
        seq!["【最近互动】\n"@ + join_spec(event_lines(c.recent_events, now), "\n"@)]
    } else {
        Seq::empty()
    };
    let seen = match c.last_seen_at {
        Some(t) => seq!["【上次见面】"@ + humanize_spec(now, t)],
        None => Seq::empty(),
    };
    let greeted = match c.last_greeting_at {
        Some(t) => seq!["【上次主动问候】"@ + humanize_spec(now, t)],
        None => Seq::empty(),
    };
    facts + events + seen + greeted
}

/// Every time in the context is within `i64` reach of `now`.
pub open spec fn context_times_defined(c: GreetingContextView, now: i64) -> bool {
    &&& forall|i: int| 0 <= i < c.recent_events.len() ==> ago_defined(now, #[trigger] c.recent_events[i].created_at)
    &&& c.last_seen_at matches Some(t) ==> ago_defined(now, t)
    &&& c.last_greeting_at matches Some(t) ==> ago_defined(now, t)
}

impl GreetingContext {
    /// The context as the text block handed to the model: sections for the
    /// remembered facts, the recent interactions, the last visit and the last
    /// greeting, separated by blank lines.
    pub fn render(&self, now: i64) -> (r: String)
        requires
            context_times_defined(self@, now),
        ensures
            r@ == join_spec(render_sections(self@, now), "\n\n"@),
    {
        let ghost cv = self@;
        let mut sections: Vec<Vec<char>> = Vec::new();
        let ghost mut expected: Seq<Seq<char>> = Seq::empty();
        if self.facts.len() > 0 {
            let mut lines: Vec<Vec<char>> = Vec::new();
            let mut i: usize = 0;
            while i < self.facts.len()
                invariant
                    i <= self.facts.len(),
                    char_vec_views(lines@) == fact_lines(fact_views(self.facts@)).subrange(0, i as int),
                decreases self.facts.len() - i,
            {
                let mut line = chars_of("- ");
                append_str(&mut line, self.facts[i].key.as_str());
                append_str(&mut line, PROFILE_KEY_SEPARATOR);
                append_str(&mut line, self.facts[i].value.as_str());
                let ghost lv = line@;
                assert(lv == fact_line(self.facts@[i as int]@));
                assert(fact_lines(fact_views(self.facts@))[i as int] == fact_line(self.facts@[i as int]@));
                let ghost before = lines@;
                lines.push(line);
                assert(char_vec_views(lines@) =~= char_vec_views(before).push(lv));
                assert(fact_lines(fact_views(self.facts@)).subrange(0, i + 1) =~= fact_lines(
                    fact_views(self.facts@),
                ).subrange(0, i as int).push(lv));
                i = i + 1;
            }
            assert(fact_lines(fact_views(self.facts@)).subrange(0, self.facts.len() as int) =~= fact_lines(
                fact_views(self.facts@),
            ));
            let joined = join_chars(&lines, "\n");
            let mut section = chars_of("【你记得关于用户的事情】\n");
            append_chars(&mut section, &joined);
            sections.push(section);
        }
        proof {
            expected = if cv.facts.len() > 0 {
                seq!["【你记得关于用户的事情】\n"@ + join_spec(fact_lines(cv.facts), "\n"@)]
            } else {
                Seq::empty()
            };
            assert(char_vec_views(sections@) =~= expected);
        }
        if self.recent_events.len() > 0 {
            let mut lines: Vec<Vec<char>> = Vec::new();
            let mut i: usize = 0;
            while i < self.recent_events.len()
                invariant
                    i <= self.recent_events.len(),
                    context_times_defined(self@, now),
                    char_vec_views(lines@) == event_lines(event_views(self.recent_events@), now).subrange(
                        0,
                        i as int,
                    ),
                decreases self.recent_events.len() - i,
            {
                let event = &self.recent_events[i];
                assert(event@ == self@.recent_events[i as int]);
                assert(ago_defined(now, self@.recent_events[i as int].created_at));
                let mut line = chars_of("- ");
                match &event.text {
                    Some(text) => append_str(&mut line, text.as_str()),
                    None => append_str(&mut line, event.kind.label()),
                }
                append_str(&mut line, "（");
                let ago = humanize_chars(now, event.created_at);
                append_chars(&mut line, &ago);
                append_str(&mut line, "）");
                assert(line@ == event_line(event@, now));
                assert(event_lines(event_views(self.recent_events@), now)[i as int] == event_line(event@, now));
                let ghost before = lines@;
                let ghost lv = line@;
                lines.push(line);
                assert(char_vec_views(lines@) =~= char_vec_views(before).push(lv));
                assert(event_lines(event_views(self.recent_events@), now).subrange(0, i + 1) =~= event_lines(
                    event_views(self.recent_events@),
                    now,
                ).subrange(0, i as int).push(lv));
                i = i + 1;
            }
            assert(event_lines(event_views(self.recent_events@), now).subrange(
                0,
                self.recent_events.len() as int,
            ) =~= event_lines(event_views(self.recent_events@), now));
            let joined = join_chars(&lines, "\n");
            let mut section = chars_of("【最近互动】\n");
            append_chars(&mut section, &joined);
            sections.push(section);
        }
        proof {
            expected = expected + if cv.recent_events.len() > 0 {
                seq!["【最近互动】\n"@ + join_spec(event_lines(cv.recent_events, now), "\n"@)]
            } else {
                Seq::empty()
            };
            assert(char_vec_views(sections@) =~= expected);
        }
        if let Some(last_seen) = self.last_seen_at {
            let mut section = chars_of("【上次见面】");
            let ago = humanize_chars(now, last_seen);
            append_chars(&mut section, &ago);
            sections.push(section);
        }
        proof {
            expected = expected + match cv.last_seen_at {
                Some(t) => seq!["【上次见面】"@ + humanize_spec(now, t)],
                None => Seq::empty(),
            };
            assert(char_vec_views(sections@) =~= expected);
        }
        if let Some(last_greeting) = self.last_greeting_at {
            let mut section = chars_of("【上次主动问候】");
            let ago = humanize_chars(now, last_greeting);
            append_chars(&mut section, &ago);
            sections.push(section);
        }
        proof {
            expected = expected + match cv.last_greeting_at {
                Some(t) => seq!["【上次主动问候】"@ + humanize_spec(now, t)],
                None => Seq::empty(),
            };
            assert(char_vec_views(sections@) =~= expected);
            assert(expected =~= render_sections(cv, now));
        }
        let joined = join_chars(&sections, "\n\n");
        string_from_chars(&joined)
    }
}


/// Does `now - then` fit in an `i64`?
pub fn ago_in_range(now: i64, then: i64) -> (r: bool)
    ensures
        r == ago_defined(now, then),
{
    now.checked_sub(then).is_some()
}

impl GreetingContext {
    /// Can the context be rendered at `now`: is every time in it within
    /// `i64` reach of `now`?
    pub fn renders_at(&self, now: i64) -> (r: bool)
        ensures
            r == context_times_defined(self@, now),
    {
        let mut i: usize = 0;
        while i < self.recent_events.len()
            invariant
                i <= self.recent_events.len(),
                forall|j: int| 0 <= j < i ==> ago_defined(now, #[trigger] self@.recent_events[j].created_at),
            decreases self.recent_events.len() - i,
        {
            if !ago_in_range(now, self.recent_events[i].created_at) {
                assert(!ago_defined(now, self@.recent_events[i as int].created_at));
                return false;
            }
            i = i + 1;
        }
        let seen_ok = match self.last_seen_at {
            Some(t) => ago_in_range(now, t),
            None => true,
        };
        let greeted_ok = match self.last_greeting_at {
            Some(t) => ago_in_range(now, t),
            None => true,
        };
        seen_ok && greeted_ok
    }
}

} // verus!
