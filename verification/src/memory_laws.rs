//! Laws of the pet memory: what every operation keeps, and what one call
//! undoes or leaves alone. Each law is stated over the same spec functions
//! that the store's own contracts use.
use vstd::prelude::*;

use crate::memory::{
    clamp_confidence, compress_spec, context_spec, empty_persona_view, greeted_spec, imported_spec, insert_pos,
    is_profile, persona_or_empty, updated_fact,
    key_index, lemma_insert_pos, lemma_key_index, lemma_profile_index, lemma_sort_desc, lemma_sort_desc_sorted,
    lemma_unexpired_len, max_nat, record_spec, sort_desc, sorted_desc, take_n, trim_events_spec,
    unexpired, upsert_facts, upserted_fact, with_events, with_facts, without_id,
    without_profiles, folded_profile, EventView, FactView, PersonaMemoryView, MAX_EVENTS,
    MAX_FACTS,
};
use crate::text::eq_ignore_ascii_case_spec;

verus! {

/// The shape in which the store keeps a persona's memory: facts newest
/// first and at most `MAX_FACTS` of them, at most `MAX_EVENTS` events.
pub open spec fn normal_memory(pm: PersonaMemoryView) -> bool {
    &&& sorted_desc(pm.facts)
    &&& pm.facts.len() <= MAX_FACTS
    &&& pm.events.len() <= MAX_EVENTS
}

/// No two facts have keys that are equal ignoring ASCII case.
pub open spec fn distinct_keys(s: Seq<FactView>) -> bool {
    forall|i: int, j: int|
        #![trigger s[i], s[j]]
        0 <= i < s.len() && 0 <= j < s.len() && i != j ==> !eq_ignore_ascii_case_spec(
            s[i].key,
            s[j].key,
        )
}

// ------------------------------------------------------------------------------------------
// Helpers on sorted lists
// ------------------------------------------------------------------------------------------
proof fn lemma_take_sorted(s: Seq<FactView>, n: int)
    requires
        sorted_desc(s),
        0 <= n,
    ensures
        sorted_desc(take_n(s, n)),
        take_n(s, n).len() <= n,
        take_n(s, n).len() <= s.len(),
{
}

proof fn lemma_sort_elements(s: Seq<FactView>, x: FactView)
    ensures
        sort_desc(s).contains(x) <==> s.contains(x),
{
    broadcast use vstd::seq_lib::group_to_multiset_ensures;

    lemma_sort_desc(s);
    assert(sort_desc(s).to_multiset().count(x) == s.to_multiset().count(x));
}

proof fn lemma_without_id_sub(s: Seq<FactView>, id: Seq<char>)
    ensures
        without_id(s, id).len() <= s.len(),
        forall|x: FactView| without_id(s, id).contains(x) ==> s.contains(x),
        sorted_desc(s) ==> sorted_desc(without_id(s, id)),
    decreases s.len(),
{
    if s.len() > 0 {
        let t = s.drop_last();
        lemma_without_id_sub(t, id);
        let rest = without_id(t, id);
        assert forall|x: FactView| without_id(s, id).contains(x) implies s.contains(x) by {
            if rest.contains(x) {
                assert(t.contains(x));
                let k = choose|k: int| 0 <= k < t.len() && t[k] == x;
                assert(s[k] == x);
            } else {
                let w = rest.push(s.last());
                assert(s.last().id != id);
                assert(without_id(s, id) == w);
                let k = choose|k: int| 0 <= k < w.len() && w[k] == x;
                if k < rest.len() {
                    assert(rest[k] == x);
                    assert(false);
                }
                assert(s[s.len() - 1] == x);
            }
        }
        if sorted_desc(s) && s.last().id != id {
            let r = rest.push(s.last());
            assert(sorted_desc(t));
            assert forall|i: int, j: int| 0 <= i < j < r.len() implies r[j].updated_at
                <= r[i].updated_at by {
                if j == r.len() - 1 {
                    assert(r[i] == rest[i]);
                    assert(rest.contains(r[i]));
                    assert(t.contains(r[i]));
                    let k = choose|k: int| 0 <= k < t.len() && t[k] == r[i];
                    assert(s[k] == r[i]);
                    assert(s[s.len() - 1] == r[j]);
                } else {
                    assert(r[i] == rest[i] && r[j] == rest[j]);
                }
            }
        }
    }
}

proof fn lemma_without_profiles_len(s: Seq<FactView>)
    ensures
        without_profiles(s).len() <= s.len(),
    decreases s.len(),
{
    if s.len() > 0 {
        lemma_without_profiles_len(s.drop_last());
    }
}

// ------------------------------------------------------------------------------------------
// Every operation keeps a persona's memory in normal form
// ------------------------------------------------------------------------------------------
/// A persona that was never seen is in normal form.
pub proof fn lemma_empty_memory_normal()
    ensures
        normal_memory(empty_persona_view()),
{
}

/// Recording an event keeps the memory in normal form: at most
/// `MAX_EVENTS` events stay, the newest last.
pub proof fn lemma_record_keeps_normal(pm: PersonaMemoryView, event: EventView)
    requires
        normal_memory(pm),
    ensures
        normal_memory(record_spec(pm, event)),
        record_spec(pm, event).events.last() == event,
{
}

/// Marking a greeting keeps the memory in normal form.
pub proof fn lemma_greeting_keeps_normal(pm: PersonaMemoryView, trigger: Seq<char>, event: EventView)
    requires
        normal_memory(pm),
    ensures
        normal_memory(greeted_spec(pm, trigger, event)),
{
}

/// An upsert leaves the facts newest first and at most `MAX_FACTS` of them,
/// whatever the facts were before.
pub proof fn lemma_upsert_keeps_normal(
    pm: PersonaMemoryView,
    key: Seq<char>,
    value: Seq<char>,
    confidence: u32,
    source: Seq<char>,
    id: Seq<char>,
    now: i64,
)
    requires
        normal_memory(pm),
    ensures
        normal_memory(
            with_facts(pm, upsert_facts(pm.facts, key, value, confidence, source, id, now)),
        ),
{
    let j = key_index(pm.facts, key);
    let f = upserted_fact(pm.facts, key, value, confidence, source, id, now);
    let changed = if j < pm.facts.len() {
        pm.facts.update(j, f)
    } else {
        pm.facts.push(f)
    };
    lemma_sort_desc(changed);
    lemma_take_sorted(sort_desc(changed), MAX_FACTS as int);
}

/// Forgetting a fact keeps the memory in normal form.
pub proof fn lemma_forget_keeps_normal(pm: PersonaMemoryView, fact_id: Seq<char>)
    requires
        normal_memory(pm),
    ensures
        normal_memory(with_facts(pm, without_id(pm.facts, fact_id))),
{
    lemma_without_id_sub(pm.facts, fact_id);
}

/// Editing a fact in place keeps the memory in normal form.
pub proof fn lemma_edit_keeps_normal(pm: PersonaMemoryView, j: int, f: FactView)
    requires
        normal_memory(pm),
        0 <= j < pm.facts.len(),
    ensures
        normal_memory(with_facts(pm, sort_desc(pm.facts.update(j, f)))),
{
    lemma_sort_desc(pm.facts.update(j, f));
}

/// Folding old facts into the profile keeps the memory in normal form and
/// never makes the fact list longer.
pub proof fn lemma_compress_keeps_normal(pm: PersonaMemoryView, keep: int, id: Seq<char>, now: i64)
    requires
        normal_memory(pm),
    ensures
        normal_memory(with_facts(pm, compress_spec(pm.facts, keep, id, now))),
        compress_spec(pm.facts, keep, id, now).len() <= pm.facts.len(),
{
    let facts = pm.facts;
    let k = max_nat(keep, 1);
    if facts.len() > k {
        let sorted = sort_desc(facts);
        lemma_sort_desc(facts);
        let recent = sorted.take(k);
        let old = sorted.skip(k);
        lemma_without_profiles_len(recent);
        let folded = without_profiles(recent).push(folded_profile(facts, old, id, now));
        lemma_sort_desc(folded);
    }
}

/// Dropping expired events keeps the memory in normal form.
pub proof fn lemma_prune_keeps_normal(pm: PersonaMemoryView, now: i64, days: u32)
    requires
        normal_memory(pm),
    ensures
        normal_memory(with_events(pm, unexpired(pm.events, now, days))),
{
    lemma_unexpired_len(pm.events, now, days);
}

/// Whatever an import bundle holds, the imported memory is in normal form.
pub proof fn lemma_import_normal(pm: PersonaMemoryView, facts: Seq<FactView>, events: Seq<EventView>)
    ensures
        normal_memory(imported_spec(pm, facts, events)),
{
    lemma_sort_desc(facts);
    lemma_take_sorted(sort_desc(facts), MAX_FACTS as int);
}

// ------------------------------------------------------------------------------------------
// Round trips and framing
// ------------------------------------------------------------------------------------------
/// Exporting a persona's memory and importing the bundle into a persona gives
/// back exactly the exported facts and events (the target's greeting
/// bookkeeping stays its own).
pub proof fn lemma_export_import_round_trip(exported: PersonaMemoryView, target: PersonaMemoryView)
    requires
        normal_memory(exported),
    ensures
        imported_spec(target, exported.facts, exported.events).facts == exported.facts,
        imported_spec(target, exported.facts, exported.events).events == exported.events,
        imported_spec(target, exported.facts, exported.events).last_seen_at == target.last_seen_at,
        imported_spec(target, exported.facts, exported.events).last_greeting_at
            == target.last_greeting_at,
{
    lemma_sort_desc_sorted(exported.facts);
}

/// Clearing facts keeps the events, and clearing events keeps the facts.
pub proof fn lemma_scoped_clears_keep_the_other_half(pm: PersonaMemoryView)
    ensures
        with_facts(pm, Seq::empty()).events == pm.events,
        with_facts(pm, Seq::empty()).facts.len() == 0,
        with_events(pm, Seq::empty()).facts == pm.facts,
        with_events(pm, Seq::empty()).events.len() == 0,
{
}

// ------------------------------------------------------------------------------------------
// Keys stay unique
// ------------------------------------------------------------------------------------------
proof fn lemma_sort_keeps_keys_distinct(s: Seq<FactView>)
    requires
        distinct_keys(s),
    ensures
        distinct_keys(sort_desc(s)),
    decreases s.len(),
{
    if s.len() > 0 {
        let t = s.drop_last();
        assert(distinct_keys(t)) by {
            assert forall|i: int, j: int|
                #![trigger t[i], t[j]]
                0 <= i < t.len() && 0 <= j < t.len() && i != j implies !eq_ignore_ascii_case_spec(
                t[i].key,
                t[j].key,
            ) by {
                assert(t[i] == s[i] && t[j] == s[j]);
            }
        }
        lemma_sort_keeps_keys_distinct(t);
        let st = sort_desc(t);
        let f = s.last();
        lemma_sort_desc(t);
        assert forall|i: int| 0 <= i < st.len() implies !eq_ignore_ascii_case_spec(
            #[trigger] st[i].key,
            f.key,
        ) by {
            lemma_sort_elements(t, st[i]);
            assert(st.contains(st[i]));
            let k = choose|k: int| 0 <= k < t.len() && t[k] == st[i];
            assert(s[k] == st[i]);
            assert(s[s.len() - 1] == f);
        }
        let p = insert_pos(st, f.updated_at);
        lemma_insert_pos(st, f.updated_at);
        let r = st.insert(p, f);
        assert(sort_desc(s) == r);
        assert forall|i: int, j: int|
            #![trigger r[i], r[j]]
            0 <= i < r.len() && 0 <= j < r.len() && i != j implies !eq_ignore_ascii_case_spec(
            r[i].key,
            r[j].key,
        ) by {
            if i == p {
                let jj = if j < p { j } else { j - 1 };
                assert(r[j] == st[jj]);
            } else if j == p {
                let ii = if i < p { i } else { i - 1 };
                assert(r[i] == st[ii]);
            } else {
                let ii = if i < p { i } else { i - 1 };
                let jj = if j < p { j } else { j - 1 };
                assert(r[i] == st[ii] && r[j] == st[jj]);
            }
        }
    }
}

/// Remembering a fact never creates a second fact with the same key: when
/// no two facts share a key (ignoring ASCII case) before an upsert, none do
/// after it. Upserting a key that is already there keeps the number of facts.
pub proof fn lemma_upsert_keeps_keys_unique(
    facts: Seq<FactView>,
    key: Seq<char>,
    value: Seq<char>,
    confidence: u32,
    source: Seq<char>,
    id: Seq<char>,
    now: i64,
)
    requires
        distinct_keys(facts),
        facts.len() <= MAX_FACTS,
    ensures
        distinct_keys(upsert_facts(facts, key, value, confidence, source, id, now)),
        key_index(facts, key) < facts.len() ==> upsert_facts(
            facts,
            key,
            value,
            confidence,
            source,
            id,
            now,
        ).len() == facts.len(),
{
    let j = key_index(facts, key);
    lemma_key_index(facts, key);
    let f = upserted_fact(facts, key, value, confidence, source, id, now);
    let changed = if j < facts.len() {
        facts.update(j, f)
    } else {
        facts.push(f)
    };
    assert(distinct_keys(changed)) by {
        assert forall|a: int, b: int|
            #![trigger changed[a], changed[b]]
            0 <= a < changed.len() && 0 <= b < changed.len() && a != b implies !eq_ignore_ascii_case_spec(
            changed[a].key,
            changed[b].key,
        ) by {
            if j < facts.len() {
                assert(changed[a].key == facts[a].key);
                assert(changed[b].key == facts[b].key);
            } else {
                if a == facts.len() {
                    assert(changed[b] == facts[b]);
                    assert(!eq_ignore_ascii_case_spec(facts[b].key, key));
                } else if b == facts.len() {
                    assert(changed[a] == facts[a]);
                    assert(!eq_ignore_ascii_case_spec(facts[a].key, key));
                } else {
                    assert(changed[a] == facts[a] && changed[b] == facts[b]);
                }
            }
        }
    }
    lemma_sort_keeps_keys_distinct(changed);
    lemma_sort_desc(changed);
    let sorted = sort_desc(changed);
    assert(distinct_keys(take_n(sorted, MAX_FACTS as int))) by {
        let t = take_n(sorted, MAX_FACTS as int);
        assert forall|a: int, b: int|
            #![trigger t[a], t[b]]
            0 <= a < t.len() && 0 <= b < t.len() && a != b implies !eq_ignore_ascii_case_spec(
            t[a].key,
            t[b].key,
        ) by {
            assert(t[a] == sorted[a] && t[b] == sorted[b]);
        }
    }
}


// ------------------------------------------------------------------------------------------
// Two calls in a row
// ------------------------------------------------------------------------------------------
/// Two facts with keys equal (ignoring ASCII case) to one key sit at the
/// same place of a list without repeated keys.
proof fn lemma_key_unique(s: Seq<FactView>, i: int, k: int, key: Seq<char>)
    requires
        distinct_keys(s),
        0 <= i < s.len(),
        0 <= k < s.len(),
        eq_ignore_ascii_case_spec(s[i].key, key),
        eq_ignore_ascii_case_spec(s[k].key, key),
    ensures
        i == k,
{
    if i != k {
        assert(eq_ignore_ascii_case_spec(s[i].key, s[k].key));
    }
}

/// An upsert that is not cut short: the written fact is in the result, its
/// key matches, no key repeats, and the count grows only for a new key.
proof fn lemma_upsert_holds(
    facts: Seq<FactView>,
    key: Seq<char>,
    value: Seq<char>,
    confidence: u32,
    source: Seq<char>,
    id: Seq<char>,
    now: i64,
)
    requires
        distinct_keys(facts),
        facts.len() <= MAX_FACTS,
        facts.len() < MAX_FACTS || key_index(facts, key) < facts.len(),
    ensures
        ({
            let u = upsert_facts(facts, key, value, confidence, source, id, now);
            let f = upserted_fact(facts, key, value, confidence, source, id, now);
            &&& u.contains(f)
            &&& distinct_keys(u)
            &&& eq_ignore_ascii_case_spec(f.key, key)
            &&& u.len() == if key_index(facts, key) < facts.len() {
                facts.len() as int
            } else {
                facts.len() + 1int
            }
        }),
{
    let j = key_index(facts, key);
    lemma_key_index(facts, key);
    let f = upserted_fact(facts, key, value, confidence, source, id, now);
    let changed = if j < facts.len() {
        facts.update(j, f)
    } else {
        facts.push(f)
    };
    if j < facts.len() {
        assert(changed[j] == f);
    } else {
        assert(changed[facts.len() as int] == f);
    }
    lemma_sort_desc(changed);
    lemma_sort_elements(changed, f);
    assert(take_n(sort_desc(changed), MAX_FACTS as int) == sort_desc(changed));
    lemma_upsert_keeps_keys_unique(facts, key, value, confidence, source, id, now);
}

/// Remembering a key twice (the second time spelled the same up to ASCII
/// case) leaves one fact for it: the one the first call wrote, with its id
/// and creation time, now holding the second value. No second fact with
/// that key appears, and the second call adds no fact. The first call must
/// have room for a new fact.
pub proof fn lemma_remember_twice_keeps_one_fact(
    facts: Seq<FactView>,
    key: Seq<char>,
    value: Seq<char>,
    confidence: u32,
    source: Seq<char>,
    id: Seq<char>,
    now: i64,
    key2: Seq<char>,
    value2: Seq<char>,
    confidence2: u32,
    source2: Seq<char>,
    id2: Seq<char>,
    now2: i64,
)
    requires
        distinct_keys(facts),
        facts.len() < MAX_FACTS,
        eq_ignore_ascii_case_spec(key2, key),
    ensures
        ({
            let once = upsert_facts(facts, key, value, confidence, source, id, now);
            let first = upserted_fact(facts, key, value, confidence, source, id, now);
            let twice = upsert_facts(once, key2, value2, confidence2, source2, id2, now2);
            let k = key_index(twice, key2);
            &&& k < twice.len()
            &&& twice[k].id == first.id
            &&& twice[k].created_at == first.created_at
            &&& twice[k].value == value2
            &&& forall|i: int| 0 <= i < twice.len() && eq_ignore_ascii_case_spec(#[trigger] twice[i].key, key2) ==> i == k
            &&& twice.len() == once.len()
        }),
{
    let once = upsert_facts(facts, key, value, confidence, source, id, now);
    let first = upserted_fact(facts, key, value, confidence, source, id, now);
    lemma_upsert_holds(facts, key, value, confidence, source, id, now);
    let m = choose|m: int| 0 <= m < once.len() && once[m] == first;
    assert(eq_ignore_ascii_case_spec(once[m].key, key2));
    let j = key_index(once, key2);
    lemma_key_index(once, key2);
    assert(j <= m) by {
        if j > m {
            assert(!eq_ignore_ascii_case_spec(once[m].key, key2));
        }
    }
    lemma_key_unique(once, j, m, key2);
    let second = upserted_fact(once, key2, value2, confidence2, source2, id2, now2);
    assert(second.id == first.id && second.created_at == first.created_at && second.value == value2);
    lemma_upsert_holds(once, key2, value2, confidence2, source2, id2, now2);
    let twice = upsert_facts(once, key2, value2, confidence2, source2, id2, now2);
    let n = choose|n: int| 0 <= n < twice.len() && twice[n] == second;
    let k = key_index(twice, key2);
    lemma_key_index(twice, key2);
    assert(k <= n) by {
        if k > n {
            assert(!eq_ignore_ascii_case_spec(twice[n].key, key2));
        }
    }
    lemma_key_unique(twice, k, n, key2);
    assert forall|i: int| 0 <= i < twice.len() && eq_ignore_ascii_case_spec(#[trigger] twice[i].key, key2) implies i == k by {
        lemma_key_unique(twice, i, k, key2);
    }
}

/// Editing a fact keeps its identity: the edited fact keeps its id and
/// creation time, takes the new key and value and the clamped confidence,
/// and is in the fact list afterwards, which keeps its length.
pub proof fn lemma_edit_keeps_identity(
    facts: Seq<FactView>,
    j: int,
    key: Seq<char>,
    value: Seq<char>,
    confidence: u32,
    now: i64,
)
    requires
        0 <= j < facts.len(),
    ensures
        ({
            let u = updated_fact(facts[j], key, value, confidence, now);
            let after = sort_desc(facts.update(j, u));
            &&& u.id == facts[j].id
            &&& u.created_at == facts[j].created_at
            &&& u.key == key && u.value == value
            &&& u.confidence == clamp_confidence(confidence)
            &&& after.contains(u)
            &&& after.len() == facts.len()
        }),
{
    let u = updated_fact(facts[j], key, value, confidence, now);
    let changed = facts.update(j, u);
    assert(changed[j] == u);
    lemma_sort_elements(changed, u);
    lemma_sort_desc(changed);
}

/// Facts without profiles hold no profile.
proof fn lemma_without_profiles_has_none(s: Seq<FactView>, x: FactView)
    requires
        without_profiles(s).contains(x),
    ensures
        !is_profile(x),
    decreases s.len(),
{
    if s.len() > 0 {
        let rest = without_profiles(s.drop_last());
        if is_profile(s.last()) {
            lemma_without_profiles_has_none(s.drop_last(), x);
        } else {
            let w = rest.push(s.last());
            let k = choose|k: int| 0 <= k < w.len() && w[k] == x;
            if k < rest.len() {
                assert(rest[k] == x);
                lemma_without_profiles_has_none(s.drop_last(), x);
            }
        }
    }
}

/// A compression that folds something leaves exactly one profile fact:
/// every profile fact in the result is the folded one, and it is there once.
/// At most `max(keep, 1) + 1` facts remain.
pub proof fn lemma_compress_leaves_one_profile(facts: Seq<FactView>, keep: int, id: Seq<char>, now: i64)
    requires
        facts.len() > max_nat(keep, 1),
    ensures
        ({
            let k = max_nat(keep, 1);
            let r = compress_spec(facts, keep, id, now);
            let p = folded_profile(facts, sort_desc(facts).skip(k), id, now);
            &&& is_profile(p)
            &&& forall|i: int| 0 <= i < r.len() && is_profile(#[trigger] r[i]) ==> r[i] == p
            &&& r.to_multiset().count(p) == 1
            &&& r.len() <= k + 1
        }),
{
    broadcast use vstd::seq_lib::group_to_multiset_ensures;

    let k = max_nat(keep, 1);
    let sorted = sort_desc(facts);
    lemma_sort_desc(facts);
    let recent = sorted.take(k);
    let old = sorted.skip(k);
    let p = folded_profile(facts, old, id, now);
    lemma_profile_index(facts);
    reveal_strlit("画像");
    reveal_strlit("compressed");
    assert(is_profile(p));
    let kept = without_profiles(recent);
    let folded = kept.push(p);
    lemma_sort_desc(folded);
    let r = sort_desc(folded);
    assert forall|i: int| 0 <= i < r.len() && is_profile(#[trigger] r[i]) implies r[i] == p by {
        assert(r.contains(r[i]));
        lemma_sort_elements(folded, r[i]);
        let m = choose|m: int| 0 <= m < folded.len() && folded[m] == r[i];
        if m < kept.len() {
            assert(kept[m] == r[i]);
            assert(kept.contains(r[i]));
            lemma_without_profiles_has_none(recent, r[i]);
        }
    }
    assert(!kept.contains(p)) by {
        if kept.contains(p) {
            lemma_without_profiles_has_none(recent, p);
        }
    }
    assert(kept.to_multiset().count(p) == 0);
    assert(folded.to_multiset() == kept.to_multiset().insert(p));
    lemma_without_profiles_len(recent);
}

/// Compressing twice with the same limit still leaves exactly one profile
/// fact, whether the second call folds anything or not.
pub proof fn lemma_compress_twice_keeps_one_profile(
    facts: Seq<FactView>,
    keep: int,
    id: Seq<char>,
    now: i64,
    id2: Seq<char>,
    now2: i64,
)
    requires
        facts.len() > max_nat(keep, 1),
    ensures
        ({
            let twice = compress_spec(compress_spec(facts, keep, id, now), keep, id2, now2);
            &&& exists|i: int| 0 <= i < twice.len() && is_profile(#[trigger] twice[i])
            &&& forall|i: int, j: int|
                0 <= i < twice.len() && 0 <= j < twice.len() && is_profile(#[trigger] twice[i])
                    && is_profile(#[trigger] twice[j]) ==> twice[i] == twice[j]
            &&& forall|x: FactView| is_profile(x) && twice.contains(x) ==> twice.to_multiset().count(x) == 1
        }),
{
    broadcast use vstd::seq_lib::group_to_multiset_ensures;

    let k = max_nat(keep, 1);
    let once = compress_spec(facts, keep, id, now);
    lemma_compress_leaves_one_profile(facts, keep, id, now);
    let p = folded_profile(facts, sort_desc(facts).skip(k), id, now);
    assert(once.to_multiset().count(p) > 0);
    assert(once.contains(p));
    if once.len() > k {
        lemma_compress_leaves_one_profile(once, keep, id2, now2);
        let twice = compress_spec(once, keep, id2, now2);
        let q = folded_profile(once, sort_desc(once).skip(k), id2, now2);
        assert(twice.to_multiset().count(q) > 0);
        assert(twice.contains(q));
        let m = choose|m: int| 0 <= m < twice.len() && twice[m] == q;
        assert(is_profile(twice[m]));
    } else {
        let m = choose|m: int| 0 <= m < once.len() && once[m] == p;
        assert(is_profile(once[m]));
    }
}

/// Exporting a persona and later importing the bundle into it gives back
/// the exported facts and events, whatever happened to that persona in
/// between (a clear, say), and leaves every other persona as it was.
pub proof fn lemma_persona_export_import_round_trip(
    before: Map<Seq<char>, PersonaMemoryView>,
    between: Map<Seq<char>, PersonaMemoryView>,
    persona: Seq<char>,
    other: Seq<char>,
)
    requires
        normal_memory(persona_or_empty(before, persona)),
        other != persona,
    ensures
        ({
            let exported = persona_or_empty(before, persona);
            let after = between.insert(
                persona,
                imported_spec(persona_or_empty(between, persona), exported.facts, exported.events),
            );
            &&& persona_or_empty(after, persona).facts == exported.facts
            &&& persona_or_empty(after, persona).events == exported.events
            &&& persona_or_empty(after, other) == persona_or_empty(between, other)
        }),
{
    let exported = persona_or_empty(before, persona);
    lemma_export_import_round_trip(exported, persona_or_empty(between, persona));
}

// ------------------------------------------------------------------------------------------
// What a model request sees
// ------------------------------------------------------------------------------------------
/// The context handed to the model holds the newest memory: its events are
/// the last `recent_events` recorded events in their order (all of them if
/// there are fewer), ending with the newest one; its facts are the first
/// `fact_limit` of the persona's facts ordered newest first.
pub proof fn lemma_context_holds_the_newest(pm: PersonaMemoryView, recent_events: int, fact_limit: int)
    requires
        0 <= recent_events,
        0 <= fact_limit,
    ensures
        ({
            let c = context_spec(pm, recent_events, fact_limit);
            let n = pm.events.len();
            let k = c.recent_events.len();
            &&& k == if n < recent_events {
                n as int
            } else {
                recent_events
            }
            &&& forall|i: int| 0 <= i < k ==> #[trigger] c.recent_events[i] == pm.events[n - k + i]
            &&& (n > 0 && recent_events >= 1) ==> c.recent_events.last() == pm.events.last()
            &&& c.facts.len() == if pm.facts.len() < fact_limit {
                pm.facts.len() as int
            } else {
                fact_limit
            }
            &&& sorted_desc(c.facts)
            &&& exists|s: Seq<FactView>|
                #![trigger s.to_multiset()]
                s.to_multiset() == pm.facts.to_multiset() && sorted_desc(s) && c.facts == s.take(
                    c.facts.len() as int,
                )
        }),
{
    let c = context_spec(pm, recent_events, fact_limit);
    lemma_sort_desc(pm.facts);
    let s = sort_desc(pm.facts);
    lemma_take_sorted(s, fact_limit);
    assert(c.facts =~= s.take(c.facts.len() as int));
    assert(s.to_multiset() == pm.facts.to_multiset() && sorted_desc(s) && c.facts == s.take(
        c.facts.len() as int,
    ));
}
} // verus!
