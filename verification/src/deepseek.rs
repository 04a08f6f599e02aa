//! The model provider: per-provider keychain slots and key resolution, the
//! prompts and request details sent to it, and the text it hands back (the
//! cleaned greeting line and the model catalog).
use vstd::prelude::*;

use crate::memory::{
    context_times_defined, now_ms, render_sections, GreetingContext, GreetingContextView,
};
use crate::persona::{effective_prompt, Persona, PersonaView};
use crate::text::{
    contains_seq, lemma_contains_middle, lemma_contains_trans, append_chars, append_str, char_vec_views, chars_eq, chars_of, copy_range, in_class, join_spec,
    lemma_newline_at, lemma_newline_index, lemma_trim_end_at, lex_le, lex_less, lex_lt,
    newline_index, owned, str_eq, string_from_chars, trim_chars, trim_class, trim_end_by, trim_set,
    trim_spec,
};

verus! {

/// The built-in provider.
pub const PROVIDER_DEEPSEEK: &'static str = "deepseek";

/// A user-configured OpenAI-compatible endpoint.
pub const PROVIDER_CUSTOM: &'static str = "custom";

/// Slot used before per-provider credentials existed.
pub const LEGACY_KEY_SLOT: &'static str = "deepseek";

/// Keychain slot of a provider. Anything but the custom provider is DeepSeek.
pub open spec fn api_key_slot_spec(provider: Seq<char>) -> Seq<char> {
    "provider/"@ + if provider == PROVIDER_CUSTOM@ {
        PROVIDER_CUSTOM@
    } else {
        PROVIDER_DEEPSEEK@
    }
}

/// Keychain slot for one provider, so switching providers never overwrites the
/// other one's credential. An unknown provider never invents a third slot.
pub fn api_key_slot(provider: &str) -> (r: String)
    ensures
        r@ == api_key_slot_spec(provider@),
{
    let name = if str_eq(provider, PROVIDER_CUSTOM) {
        PROVIDER_CUSTOM
    } else {
        PROVIDER_DEEPSEEK
    };
    let mut v = chars_of("provider/");
    append_str(&mut v, name);
    string_from_chars(&v)
}

/// Slots consulted for one provider, most specific first.
pub open spec fn key_candidates_spec(provider: Seq<char>) -> Seq<Seq<char>> {
    if provider == PROVIDER_CUSTOM@ {
        seq!["provider/custom"@]
    } else {
        seq!["provider/deepseek"@, LEGACY_KEY_SLOT@]
    }
}

/// Slots consulted for one provider, most specific first. DeepSeek keeps
/// working with a key saved before provider slots existed; clearing a key
/// must clear every one of these.
pub fn key_candidates(provider: &str) -> (r: Vec<&'static str>)
    ensures
        r@.map_values(|s: &'static str| s@) == key_candidates_spec(provider@),
{
    if str_eq(provider, PROVIDER_CUSTOM) {
        let r = vec!["provider/custom"];
        assert(r@.map_values(|s: &'static str| s@) =~= key_candidates_spec(provider@));
        r
    } else {
        let r = vec!["provider/deepseek", LEGACY_KEY_SLOT];
        assert(r@.map_values(|s: &'static str| s@) =~= key_candidates_spec(provider@));
        r
    }
}

/// The slot a non-empty key is saved to is always one the provider reads.
pub proof fn lemma_saved_slot_is_read(provider: Seq<char>)
    ensures
        key_candidates_spec(provider).contains(api_key_slot_spec(provider)),
{
    reveal_strlit("provider/");
    reveal_strlit("custom");
    reveal_strlit("deepseek");
    reveal_strlit("provider/custom");
    reveal_strlit("provider/deepseek");
    if provider == PROVIDER_CUSTOM@ {
        assert(api_key_slot_spec(provider) =~= "provider/custom"@);
        assert(key_candidates_spec(provider)[0] == "provider/custom"@);
    } else {
        assert(api_key_slot_spec(provider) =~= "provider/deepseek"@);
        assert(key_candidates_spec(provider)[0] == "provider/deepseek"@);
    }
}

/// Switching providers never touches the other provider's key: the slot
/// one provider saves to is none of the slots the other reads.
pub proof fn lemma_provider_slots_apart(p: Seq<char>, q: Seq<char>)
    requires
        (p == PROVIDER_CUSTOM@) != (q == PROVIDER_CUSTOM@),
    ensures
        !key_candidates_spec(q).contains(api_key_slot_spec(p)),
{
    reveal_strlit("provider/");
    reveal_strlit("custom");
    reveal_strlit("deepseek");
    reveal_strlit("provider/custom");
    reveal_strlit("provider/deepseek");
    if p == PROVIDER_CUSTOM@ {
        assert(api_key_slot_spec(p) =~= "provider/custom"@);
        assert(key_candidates_spec(q)[0].len() != api_key_slot_spec(p).len());
        assert(key_candidates_spec(q)[1].len() != api_key_slot_spec(p).len());
    } else {
        assert(api_key_slot_spec(p) =~= "provider/deepseek"@);
        assert(key_candidates_spec(q)[0].len() != api_key_slot_spec(p).len());
    }
}

// ------------------------------------------------------------------------------------------
// The greeting line
// ------------------------------------------------------------------------------------------
/// The first line of `s` as `str::lines` yields it: up to the first `'\n'`,
/// without a `'\r'` right before that `'\n'`.
pub open spec fn first_line(s: Seq<char>) -> Seq<char> {
    let k = newline_index(s);
    let line = s.take(k);
    if k < s.len() && line.len() > 0 && line.last() == '\r' {
        line.drop_last()
    } else {
        line
    }
}

/// What follows the first line.
pub open spec fn after_first_line(s: Seq<char>) -> Seq<char> {
    let k = newline_index(s);
    if k < s.len() {
        s.skip(k + 1)
    } else {
        Seq::empty()
    }
}

/// `s.lines().find(|line| !line.trim().is_empty())`.
pub open spec fn first_nonblank_line(s: Seq<char>) -> Option<Seq<char>>
    decreases s.len(),
{
    if s.len() == 0 {
        None
    } else if trim_spec(first_line(s)).len() > 0 {
        Some(first_line(s))
    } else {
        proof {
            lemma_newline_index(s);
        }
        first_nonblank_line(after_first_line(s))
    }
}

/// The greeting without surrounding whitespace and quotes.
pub open spec fn unquoted(text: Seq<char>) -> Seq<char> {
    trim_spec(trim_set(trim_set(trim_set(trim_spec(text), seq!['"']), seq!['“']), seq!['”']))
}

/// The cleaned greeting: unquoted, its first non-blank line, at most
/// `max_chars` characters (an ellipsis marks a cut).
pub open spec fn clean_greeting_spec(text: Seq<char>, max_chars: int) -> Seq<char> {
    let out = unquoted(text);
    let out = match first_nonblank_line(out) {
        Some(line) => trim_spec(line),
        None => out,
    };
    if out.len() > max_chars {
        out.take(max_chars).push('…')
    } else {
        out
    }
}

fn first_nonblank_line_exec(s: &Vec<char>) -> (r: Option<Vec<char>>)
    ensures
        r matches Some(line) ==> first_nonblank_line(s@) == Some(line@),
        r is None ==> first_nonblank_line(s@) is None,
{
    let mut start: usize = 0;
    assert(s@.skip(0) =~= s@);
    while start < s.len()
        invariant
            start <= s.len(),
            first_nonblank_line(s@) == first_nonblank_line(s@.skip(start as int)),
        decreases s.len() - start,
    {
        let ghost rest = s@.skip(start as int);
        let mut k = start;
        while k < s.len() && s[k] != '\n'
            invariant
                start <= k <= s.len(),
                forall|i: int| start <= i < k ==> s@[i] != '\n',
            decreases s.len() - k,
        {
            k = k + 1;
        }
        proof {
            lemma_newline_index(rest);
            lemma_newline_at(rest, k - start);
        }
        let mut end = k;
        if k < s.len() && end > start && s[end - 1] == '\r' {
            end = end - 1;
        }
        let line = copy_range(s, start, end);
        proof {
            assert(line@ =~= first_line(rest));
        }
        let trimmed = trim_chars(&line);
        if trimmed.len() > 0 {
            return Some(line);
        }
        proof {
            if k < s.len() {
                assert(after_first_line(rest) =~= s@.skip(k + 1));
            } else {
                assert(after_first_line(rest) =~= s@.skip(s.len() as int));
            }
        }
        if k < s.len() {
            start = k + 1;
        } else {
            start = s.len();
        }
    }
    proof {
        assert(s@.skip(start as int).len() == 0);
    }
    None
}


/// Clean a model reply into one greeting line: strip whitespace and quotes,
/// keep the first non-blank line, and cut it to `max_chars` characters with a
/// trailing ellipsis.
pub fn clean_greeting(text: &str, max_chars: usize) -> (r: String)
    ensures
        r@ == clean_greeting_spec(text@, max_chars as int),
{
    let v = chars_of(text);
    let t = trim_chars(&v);
    let q1 = vec!['"'];
    let q2 = vec!['“'];
    let q3 = vec!['”'];
    assert(q1@ =~= seq!['"']);
    assert(q2@ =~= seq!['“']);
    assert(q3@ =~= seq!['”']);
    let t = trim_class(&t, &q1, false);
    let t = trim_class(&t, &q2, false);
    let t = trim_class(&t, &q3, false);
    let out = trim_chars(&t);
    let out = match first_nonblank_line_exec(&out) {
        Some(line) => trim_chars(&line),
        None => out,
    };
    if out.len() > max_chars {
        let mut cut = copy_range(&out, 0, max_chars);
        cut.push('…');
        string_from_chars(&cut)
    } else {
        string_from_chars(&out)
    }
}

// ------------------------------------------------------------------------------------------
// The model catalog
// ------------------------------------------------------------------------------------------
/// Where a string goes in a lexicographically sorted list: after every
/// string that is not greater.
pub open spec fn lex_pos(s: Seq<Seq<char>>, x: Seq<char>) -> int
    decreases s.len(),
{
    if s.len() == 0 {
        0
    } else if lex_lt(x, s[0]) {
        0
    } else {
        1 + lex_pos(s.drop_first(), x)
    }
}

/// `slice::sort` on strings.
pub open spec fn sort_lex(s: Seq<Seq<char>>) -> Seq<Seq<char>>
    decreases s.len(),
{
    if s.len() == 0 {
        s
    } else {
        let t = sort_lex(s.drop_last());
        t.insert(lex_pos(t, s.last()), s.last())
    }
}

/// `Vec::dedup`: drop each string equal to the one kept before it.
pub open spec fn dedup(s: Seq<Seq<char>>) -> Seq<Seq<char>>
    decreases s.len(),
{
    if s.len() == 0 {
        s
    } else {
        let t = dedup(s.drop_last());
        if t.len() > 0 && t.last() == s.last() {
            t
        } else {
            t.push(s.last())
        }
    }
}

/// Trimmed ids, empty ones dropped.
pub open spec fn trimmed_ids(raw: Seq<Seq<char>>) -> Seq<Seq<char>>
    decreases raw.len(),
{
    if raw.len() == 0 {
        raw
    } else {
        let t = trimmed_ids(raw.drop_last());
        let id = trim_spec(raw.last());
        if id.len() > 0 {
            t.push(id)
        } else {
            t
        }
    }
}

/// The model catalog made of raw ids: trimmed, non-empty, sorted and
/// without duplicates.
pub open spec fn model_ids_spec(raw: Seq<Seq<char>>) -> Seq<Seq<char>> {
    dedup(sort_lex(trimmed_ids(raw)))
}

pub proof fn lemma_lex_pos(s: Seq<Seq<char>>, x: Seq<char>)
    ensures
        0 <= lex_pos(s, x) <= s.len(),
        forall|i: int| 0 <= i < lex_pos(s, x) ==> !lex_lt(x, #[trigger] s[i]),
        lex_pos(s, x) < s.len() ==> lex_lt(x, s[lex_pos(s, x)]),
    decreases s.len(),
{
    if s.len() > 0 && !lex_lt(x, s[0]) {
        lemma_lex_pos(s.drop_first(), x);
        assert forall|i: int| 0 <= i < lex_pos(s, x) implies !lex_lt(x, #[trigger] s[i]) by {
            if i > 0 {
                assert(s[i] == s.drop_first()[i - 1]);
            }
        }
    }
}

/// Lexicographically non-decreasing.
pub open spec fn sorted_lex(s: Seq<Seq<char>>) -> bool {
    forall|i: int, j: int| 0 <= i < j < s.len() ==> lex_le(s[i], s[j])
}

/// Strictly increasing: sorted and without duplicates.
pub open spec fn strictly_sorted_lex(s: Seq<Seq<char>>) -> bool {
    forall|i: int, j: int| 0 <= i < j < s.len() ==> lex_lt(s[i], s[j])
}

pub proof fn lemma_sort_lex_sorted(s: Seq<Seq<char>>)
    ensures
        sorted_lex(sort_lex(s)),
        sort_lex(s).len() == s.len(),
        sort_lex(s).to_multiset() == s.to_multiset(),
    decreases s.len(),
{
    broadcast use vstd::seq_lib::group_to_multiset_ensures;

    if s.len() > 0 {
        let t = sort_lex(s.drop_last());
        lemma_sort_lex_sorted(s.drop_last());
        let x = s.last();
        let p = lex_pos(t, x);
        lemma_lex_pos(t, x);
        let r = t.insert(p, x);
        assert forall|i: int, j: int| 0 <= i < j < r.len() implies lex_le(r[i], r[j]) by {
            if j < p {
                assert(r[i] == t[i] && r[j] == t[j]);
                assert(lex_le(t[i], t[j]));
            } else if j == p {
                assert(r[i] == t[i]);
                assert(!lex_lt(x, t[i]));
                crate::text::lemma_lex_total(t[i], x);
            } else if i < p {
                assert(r[i] == t[i] && r[j] == t[j - 1]);
                assert(lex_le(t[i], t[j - 1]));
            } else if i == p {
                assert(r[j] == t[j - 1]);
                assert(lex_lt(x, t[p]));
                assert(lex_le(t[p], t[j - 1]));
                if lex_lt(t[p], t[j - 1]) {
                    crate::text::lemma_lex_transitive(x, t[p], t[j - 1]);
                }
            } else {
                assert(r[i] == t[i - 1] && r[j] == t[j - 1]);
                assert(lex_le(t[i - 1], t[j - 1]));
            }
        }
        vstd::seq_lib::to_multiset_insert(t, p, x);
        assert(s =~= s.drop_last().push(x));
    }
}

pub proof fn lemma_dedup_strict(s: Seq<Seq<char>>)
    requires
        sorted_lex(s),
    ensures
        strictly_sorted_lex(dedup(s)),
        dedup(s).len() <= s.len(),
        forall|i: int| 0 <= i < dedup(s).len() ==> s.contains(#[trigger] dedup(s)[i]),
        forall|i: int| 0 <= i < s.len() ==> dedup(s).contains(#[trigger] s[i]),
        s.len() > 0 ==> dedup(s).len() > 0 && dedup(s).last() == s.last(),
    decreases s.len(),
{
    if s.len() > 0 {
        let u = s.drop_last();
        assert(sorted_lex(u)) by {
            assert forall|i: int, j: int| 0 <= i < j < u.len() implies lex_le(u[i], u[j]) by {
                assert(u[i] == s[i] && u[j] == s[j]);
            }
        }
        lemma_dedup_strict(u);
        let t = dedup(u);
        let x = s.last();
        if t.len() > 0 && t.last() == x {
        } else {
            if t.len() > 0 {
                assert(t.last() == u.last());
                assert(lex_le(u.last(), x)) by {
                    assert(u.last() == s[s.len() - 2]);
                }
                assert forall|i: int, j: int| 0 <= i < j < t.len() + 1 implies lex_lt(
                    t.push(x)[i],
                    t.push(x)[j],
                ) by {
                    if j == t.len() {
                        if i < t.len() - 1 {
                            crate::text::lemma_lex_transitive(t[i], t.last(), x);
                        }
                    }
                }
            }
        }
        assert forall|i: int| 0 <= i < dedup(s).len() implies s.contains(#[trigger] dedup(s)[i]) by {
            if i < t.len() {
                let k = choose|k: int| 0 <= k < u.len() && u[k] == t[i];
                assert(s[k] == u[k]);
            } else {
                assert(s[s.len() - 1] == x);
            }
        }
        assert forall|i: int| 0 <= i < s.len() implies dedup(s).contains(#[trigger] s[i]) by {
            if i < s.len() - 1 {
                assert(s[i] == u[i]);
                let k = choose|k: int| 0 <= k < t.len() && t[k] == u[i];
                assert(dedup(s)[k] == t[k]);
            } else {
                assert(dedup(s)[dedup(s).len() - 1] == x);
            }
        }
    }
}

/// The model catalog is strictly sorted, and holds exactly the trimmed,
/// non-empty raw ids.
pub proof fn lemma_model_ids(raw: Seq<Seq<char>>)
    ensures
        strictly_sorted_lex(model_ids_spec(raw)),
        forall|id: Seq<char>| model_ids_spec(raw).contains(id) <==> trimmed_ids(raw).contains(id),
{
    broadcast use vstd::seq_lib::group_to_multiset_ensures;

    let t = trimmed_ids(raw);
    lemma_sort_lex_sorted(t);
    lemma_dedup_strict(sort_lex(t));
    let s = sort_lex(t);
    assert forall|id: Seq<char>| model_ids_spec(raw).contains(id) <==> t.contains(id) by {
        if model_ids_spec(raw).contains(id) {
            let i = choose|i: int| 0 <= i < dedup(s).len() && dedup(s)[i] == id;
            assert(s.contains(id));
            assert(s.to_multiset().count(id) > 0);
            assert(t.to_multiset().count(id) > 0);
        }
        if t.contains(id) {
            assert(t.to_multiset().count(id) > 0);
            assert(s.to_multiset().count(id) > 0);
            assert(s.contains(id));
            let i = choose|i: int| 0 <= i < s.len() && s[i] == id;
            assert(dedup(s).contains(s[i]));
        }
    }
}

fn find_lex_pos(s: &Vec<Vec<char>>, x: &Vec<char>) -> (r: usize)
    ensures
        r == lex_pos(char_vec_views(s@), x@),
        r <= s.len(),
{
    let ghost v = char_vec_views(s@);
    proof {
        lemma_lex_pos(v, x@);
    }
    let mut i: usize = 0;
    assert(v.skip(0) =~= v);
    while i < s.len() && !lex_less(x, &s[i])
        invariant
            i <= s.len(),
            v == char_vec_views(s@),
            lex_pos(v, x@) == i + lex_pos(v.skip(i as int), x@),
        decreases s.len() - i,
    {
        assert(v.skip(i as int).drop_first() =~= v.skip(i + 1));
        assert(v.skip(i as int)[0] == s@[i as int]@);
        i = i + 1;
    }
    proof {
        if i < s.len() {
            assert(v.skip(i as int)[0] == s@[i as int]@);
        }
    }
    i
}

/// Normalise raw model ids into the catalog: trim each, drop empty ones, sort
/// and remove duplicates.
pub fn model_ids_from(raw: &Vec<String>) -> (r: Vec<String>)
    ensures
        r@.map_values(|s: String| s@) == model_ids_spec(raw@.map_values(|s: String| s@)),
{
    let ghost rv = raw@.map_values(|s: String| s@);
    // Trim and drop empty ids.
    let mut ids: Vec<Vec<char>> = Vec::new();
    let mut i: usize = 0;
    assert(char_vec_views(ids@) =~= trimmed_ids(rv.subrange(0, 0)));
    while i < raw.len()
        invariant
            i <= raw.len(),
            rv == raw@.map_values(|s: String| s@),
            char_vec_views(ids@) == trimmed_ids(rv.subrange(0, i as int)),
        decreases raw.len() - i,
    {
        let id = trim_chars(&chars_of(raw[i].as_str()));
        let ghost before = char_vec_views(ids@);
        let ghost idv = id@;
        if id.len() > 0 {
            ids.push(id);
        }
        assert(rv.subrange(0, i + 1).drop_last() =~= rv.subrange(0, i as int));
        assert(rv.subrange(0, i + 1).last() == raw@[i as int]@);
        assert(char_vec_views(ids@) =~= trimmed_ids(rv.subrange(0, i + 1)));
        i = i + 1;
    }
    assert(rv.subrange(0, raw.len() as int) =~= rv);
    // Insertion sort.
    let ghost t = char_vec_views(ids@);
    let mut sorted: Vec<Vec<char>> = Vec::new();
    let mut k: usize = 0;
    assert(char_vec_views(sorted@) =~= sort_lex(t.subrange(0, 0)));
    while k < ids.len()
        invariant
            k <= ids.len(),
            t == char_vec_views(ids@),
            char_vec_views(sorted@) == sort_lex(t.subrange(0, k as int)),
        decreases ids.len() - k,
    {
        let x = copy_range(&ids[k], 0, ids[k].len());
        assert(x@ =~= ids@[k as int]@);
        let p = find_lex_pos(&sorted, &x);
        let ghost before = char_vec_views(sorted@);
        let ghost xv = x@;
        sorted.insert(p, x);
        assert(char_vec_views(sorted@) =~= before.insert(p as int, xv));
        assert(t.subrange(0, k + 1).drop_last() =~= t.subrange(0, k as int));
        assert(t.subrange(0, k + 1).last() == xv);
        k = k + 1;
    }
    assert(t.subrange(0, ids.len() as int) =~= t);
    // Dedup and convert.
    let ghost st = char_vec_views(sorted@);
    let mut out: Vec<String> = Vec::new();
    let mut last: Option<Vec<char>> = None;
    let mut j: usize = 0;
    assert(out@.map_values(|s: String| s@) =~= dedup(st.subrange(0, 0)));
    while j < sorted.len()
        invariant
            j <= sorted.len(),
            st == char_vec_views(sorted@),
            out@.map_values(|s: String| s@) == dedup(st.subrange(0, j as int)),
            match last {
                Some(l) => dedup(st.subrange(0, j as int)).len() > 0 && l@ == dedup(
                    st.subrange(0, j as int),
                ).last(),
                None => dedup(st.subrange(0, j as int)).len() == 0,
            },
        decreases sorted.len() - j,
    {
        let cur = copy_range(&sorted[j], 0, sorted[j].len());
        assert(cur@ =~= st[j as int]);
        let same = match &last {
            Some(l) => chars_eq(l, &cur),
            None => false,
        };
        let ghost before = out@.map_values(|s: String| s@);
        assert(st.subrange(0, j + 1).drop_last() =~= st.subrange(0, j as int));
        assert(st.subrange(0, j + 1).last() == cur@);
        if !same {
            let s = string_from_chars(&cur);
            out.push(s);
            assert(out@.map_values(|s: String| s@) =~= before.push(cur@));
            last = Some(cur);
        }
        j = j + 1;
    }
    assert(st.subrange(0, sorted.len() as int) =~= st);
    out
}

/// What `serde_json` reads from the body of a `/models` answer: the parser's
/// message when the body is not JSON; else, when the payload has a `data`
/// array, the `id` string of each of its entries (`None` for an entry
/// without one), and `None` when it has no such array.
pub uninterp spec fn models_payload_ids(body: Seq<char>) -> Result<Option<Seq<Option<Seq<char>>>>, Seq<char>>;

/// The views of optional strings.
pub open spec fn opt_strings_view(v: Seq<Option<String>>) -> Seq<Option<Seq<char>>> {
    v.map_values(|o: Option<String>| opt_view_string(o))
}

/// `serde_json::from_str` on a `/models` body, then `Value::get("data")`,
/// `as_array`, and for each entry `get("id")` and `as_str`.
#[verifier::external_body]
fn models_payload_of(body: &str) -> (r: Result<Option<Vec<Option<String>>>, String>)
    ensures
        models_payload_ids(body@) == match r {
            Ok(Some(ids)) => Ok(Some(opt_strings_view(ids@))),
            Ok(None) => Ok(None),
            Err(m) => Err::<Option<Seq<Option<Seq<char>>>>, Seq<char>>(m@),
        },
{
    match serde_json::from_str::<serde_json::Value>(body) {
        Ok(value) => Ok(value.get("data").and_then(serde_json::Value::as_array).map(
            |entries| {
                entries.iter().map(
                    |entry| entry.get("id").and_then(serde_json::Value::as_str).map(str::to_string),
                ).collect()
            },
        )),
        Err(error) => Err(error.to_string()),
    }
}

/// The ids that are there, in order.
pub open spec fn present_ids(s: Seq<Option<Seq<char>>>) -> Seq<Seq<char>>
    decreases s.len(),
{
    if s.len() == 0 {
        Seq::empty()
    } else {
        let t = present_ids(s.drop_last());
        match s.last() {
            Some(id) => t.push(id),
            None => t,
        }
    }
}

/// The catalog of a payload: the present ids, normalised; nothing when the
/// payload has no `data` array.
pub open spec fn payload_catalog(payload: Option<Seq<Option<Seq<char>>>>) -> Seq<Seq<char>> {
    model_ids_spec(
        match payload {
            Some(ids) => present_ids(ids),
            None => Seq::empty(),
        },
    )
}

/// The model catalog of a read payload (the entries' ids, or `None` without
/// a `data` array): the present ids, trimmed, non-empty, sorted and unique.
pub fn payload_model_ids(payload: &Option<Vec<Option<String>>>) -> (r: Vec<String>)
    ensures
        r@.map_values(|s: String| s@) == payload_catalog(
            match payload {
                Some(ids) => Some(opt_strings_view(ids@)),
                None => None,
            },
        ),
{
    let mut raw: Vec<String> = Vec::new();
    match payload {
        Some(ids) => {
            let ghost iv = opt_strings_view(ids@);
            let mut i: usize = 0;
            assert(raw@.map_values(|s: String| s@) =~= present_ids(iv.subrange(0, 0)));
            while i < ids.len()
                invariant
                    i <= ids.len(),
                    iv == opt_strings_view(ids@),
                    raw@.map_values(|s: String| s@) == present_ids(iv.subrange(0, i as int)),
                decreases ids.len() - i,
            {
                let ghost before = raw@.map_values(|s: String| s@);
                assert(iv.subrange(0, i + 1).drop_last() =~= iv.subrange(0, i as int));
                assert(iv.subrange(0, i + 1).last() == opt_view_string(ids@[i as int]));
                match &ids[i] {
                    Some(id) => {
                        raw.push(owned(id.as_str()));
                        assert(raw@.map_values(|s: String| s@) =~= before.push(id@));
                    },
                    None => {},
                }
                i = i + 1;
            }
            assert(iv.subrange(0, ids.len() as int) =~= iv);
        },
        None => {
            assert(raw@.map_values(|s: String| s@) =~= Seq::<Seq<char>>::empty());
        },
    }
    model_ids_from(&raw)
}

/// The model catalog in the body of an OpenAI-compatible `/models` answer:
/// the `id` strings of the entries of its `data` array, trimmed, non-empty,
/// sorted and deduplicated; nothing for any other shape. A body that is not
/// JSON is an error naming the parser's message.
pub fn parse_model_ids(body: &str) -> (r: Result<Vec<String>, String>)
    ensures
        match models_payload_ids(body@) {
            Ok(payload) => r matches Ok(ids) && ids@.map_values(|s: String| s@) == payload_catalog(
                payload,
            ),
            Err(m) => r matches Err(e) && e@ == "model list was not JSON: "@ + m,
        },
{
    match models_payload_of(body) {
        Ok(payload) => Ok(payload_model_ids(&payload)),
        Err(m) => {
            let mut v = chars_of("model list was not JSON: ");
            append_str(&mut v, m.as_str());
            Err(string_from_chars(&v))
        },
    }
}

/// What `serde_json` reads from the body of a chat completion answer: the
/// parser's message when the body is not JSON; else the string at
/// `/choices/0/message/content`, or `None` when there is none.
pub uninterp spec fn completion_content(body: Seq<char>) -> Result<Option<Seq<char>>, Seq<char>>;

/// `serde_json::from_str` on a completion body, then
/// `Value::pointer("/choices/0/message/content")` and `as_str`.
#[verifier::external_body]
fn completion_content_of(body: &str) -> (r: Result<Option<String>, String>)
    ensures
        completion_content(body@) == match r {
            Ok(c) => Ok(opt_view_string(c)),
            Err(m) => Err::<Option<Seq<char>>, Seq<char>>(m@),
        },
{
    match serde_json::from_str::<serde_json::Value>(body) {
        Ok(value) => Ok(
            value.pointer("/choices/0/message/content").and_then(serde_json::Value::as_str).map(
                str::to_string,
            ),
        ),
        Err(error) => Err(error.to_string()),
    }
}

/// The reply in the body of a chat completion answer (see
/// [`completion_text`]): an error naming the parser's message when the body
/// is not JSON, an error when the content is missing or blank, else the
/// cleaned content.
pub fn completion_from_body(body: &str, max_chars: usize) -> (r: Result<String, String>)
    ensures
        match completion_content(body@) {
            Err(m) => r matches Err(e) && e@ == "DeepSeek response was not JSON: "@ + m,
            Ok(content) => {
                let c = match content {
                    Some(t) => t,
                    None => Seq::<char>::empty(),
                };
                &&& trim_spec(c).len() == 0 <==> r is Err
                &&& r matches Ok(t) ==> t@ == clean_greeting_spec(trim_spec(c), max_chars as int)
                &&& r matches Err(m) ==> m@ == EMPTY_COMPLETION@
            },
        },
{
    match completion_content_of(body) {
        Ok(Some(content)) => completion_text(Some(content.as_str()), max_chars),
        Ok(None) => completion_text(None, max_chars),
        Err(m) => {
            let mut v = chars_of("DeepSeek response was not JSON: ");
            append_str(&mut v, m.as_str());
            Err(string_from_chars(&v))
        },
    }
}

// ------------------------------------------------------------------------------------------
// Credentials
// ------------------------------------------------------------------------------------------
/// Why a credential store could not answer.
#[derive(Debug)]
pub enum SecretError {
    /// The store's own error, as text.
    Backend(String),
}

impl SecretError {
    /// Message shown to the user.
    pub fn message(&self) -> (r: String)
        ensures
            match *self {
                SecretError::Backend(m) => r@ == m@,
            },
    {
        match self {
            SecretError::Backend(m) => m.clone(),
        }
    }
}

/// Where provider credentials are kept: the OS keychain on a desktop, or a
/// map in memory. `secrets` is what the store holds, slot to secret; a store
/// that is `infallible` always answers.
pub trait SecretStore {
    spec fn secrets(&self) -> Map<Seq<char>, Seq<char>>;

    spec fn infallible(&self) -> bool;

    /// The secret in `slot`, if any.
    fn get(&self, slot: &str) -> (r: Result<Option<String>, SecretError>)
        ensures
            self.infallible() ==> r is Ok,
            r matches Ok(v) ==> (v is Some <==> self.secrets().dom().contains(slot@)),
            r matches Ok(Some(v)) ==> v@ == self.secrets()[slot@];

    /// Keep `value` in `slot`.
    fn set(&mut self, slot: &str, value: &str) -> (r: Result<(), SecretError>)
        ensures
            old(self).infallible() ==> r is Ok && final(self).infallible(),
            r is Ok ==> final(self).secrets() == old(self).secrets().insert(slot@, value@),
            r is Ok ==> final(self).infallible() == old(self).infallible();

    /// Drop whatever `slot` holds.
    fn delete(&mut self, slot: &str) -> (r: Result<(), SecretError>)
        ensures
            old(self).infallible() ==> r is Ok && final(self).infallible(),
            r is Ok ==> final(self).secrets() == old(self).secrets().remove(slot@),
            r is Ok ==> final(self).infallible() == old(self).infallible();
}

/// A credential store in memory, for tests and headless runs.
#[derive(Debug)]
pub struct MemorySecretStore {
    entries: crate::string_map::StringMap,
}

impl MemorySecretStore {
    /// An empty store.
    pub fn new() -> (r: Self)
        ensures
            r.secrets() == Map::<Seq<char>, Seq<char>>::empty(),
            r.infallible(),
    {
        MemorySecretStore { entries: crate::string_map::StringMap::new() }
    }
}

impl SecretStore for MemorySecretStore {
    closed spec fn secrets(&self) -> Map<Seq<char>, Seq<char>> {
        self.entries@
    }

    open spec fn infallible(&self) -> bool {
        true
    }

    fn get(&self, slot: &str) -> (r: Result<Option<String>, SecretError>) {
        Ok(self.entries.get(slot))
    }

    fn set(&mut self, slot: &str, value: &str) -> (r: Result<(), SecretError>) {
        self.entries.insert(slot, value);
        Ok(())
    }

    fn delete(&mut self, slot: &str) -> (r: Result<(), SecretError>) {
        self.entries.remove(slot);
        Ok(())
    }
}

/// Does `slot` hold a usable (non-blank) key?
pub open spec fn usable_in(secrets: Map<Seq<char>, Seq<char>>, slot: Seq<char>) -> bool {
    secrets.dom().contains(slot) && trim_spec(secrets[slot]).len() > 0
}

/// Does one of the provider's slots hold a usable key?
pub open spec fn stored_key_usable(secrets: Map<Seq<char>, Seq<char>>, provider: Seq<char>) -> bool {
    exists|i: int|
        0 <= i < key_candidates_spec(provider).len() && #[trigger] usable_in(
            secrets,
            key_candidates_spec(provider)[i],
        )
}

/// Is the environment's key (if the variable is set) usable?
pub open spec fn env_key_usable(env_key: Option<Seq<char>>) -> bool {
    env_key matches Some(k) && trim_spec(k).len() > 0
}

fn opt_is_usable(v: &Option<String>) -> (r: bool)
    ensures
        r == (v matches Some(k) && trim_spec(k@).len() > 0),
{
    match v {
        Some(k) => !crate::text::is_blank(k.as_str()),
        None => false,
    }
}

/// Whether a usable credential exists: a non-blank key in the provider's
/// environment variable (`env_key` is its value, when it is set), or in one
/// of the provider's slots of `store`. A slot the store cannot read counts
/// as empty. Shows 已配置 / 未配置 without handing out the secret.
pub fn api_key_present<S: SecretStore>(env_key: Option<&str>, provider: &str, store: &S) -> (r: bool)
    ensures
        env_key_usable(opt_str_view(env_key)) ==> r,
        r ==> env_key_usable(opt_str_view(env_key)) || stored_key_usable(store.secrets(), provider@),
        store.infallible() ==> (r <==> env_key_usable(opt_str_view(env_key)) || stored_key_usable(
            store.secrets(),
            provider@,
        )),
{
    match env_key {
        Some(k) => if !crate::text::is_blank(k) {
            return true;
        },
        None => {},
    }
    let slots = key_candidates(provider);
    let ghost cands = key_candidates_spec(provider@);
    let mut i: usize = 0;
    while i < slots.len()
        invariant
            i <= slots@.len(),
            slots@.map_values(|s: &'static str| s@) == cands,
            cands == key_candidates_spec(provider@),
            !env_key_usable(opt_str_view(env_key)),
            store.infallible() ==> forall|j: int| 0 <= j < i ==> !#[trigger] usable_in(store.secrets(), cands[j]),
        decreases slots.len() - i,
    {
        assert(slots@[i as int]@ == cands[i as int]);
        let answer = store.get(slots[i]);
        match answer {
            Ok(v) => {
                if opt_is_usable(&v) {
                    assert(usable_in(store.secrets(), key_candidates_spec(provider@)[i as int]));
                    assert(stored_key_usable(store.secrets(), provider@));
                    return true;
                }
            },
            Err(_) => {},
        }
        i = i + 1;
    }
    false
}

pub open spec fn opt_str_view(s: Option<&str>) -> Option<Seq<char>> {
    match s {
        Some(t) => Some(t@),
        None => None,
    }
}

/// The map without the given slots.
pub open spec fn without_slots(secrets: Map<Seq<char>, Seq<char>>, slots: Seq<Seq<char>>) -> Map<Seq<char>, Seq<char>>
    decreases slots.len(),
{
    if slots.len() == 0 {
        secrets
    } else {
        without_slots(secrets, slots.drop_last()).remove(slots.last())
    }
}

/// The store after clearing every slot a provider reads.
pub open spec fn cleared(secrets: Map<Seq<char>, Seq<char>>, provider: Seq<char>) -> Map<Seq<char>, Seq<char>> {
    without_slots(secrets, key_candidates_spec(provider))
}

/// Save (or, with a blank key, delete) the credential of one provider. A
/// non-blank key is trimmed and kept in the provider's own slot; clearing
/// drops every slot the provider reads, the old shared slot included.
pub fn save_api_key<S: SecretStore>(provider: &str, key: &str, store: &mut S) -> (r: Result<(), SecretError>)
    ensures
        old(store).infallible() ==> r is Ok,
        trim_spec(key@).len() == 0 && r is Ok ==> final(store).secrets() == cleared(
            old(store).secrets(),
            provider@,
        ),
        trim_spec(key@).len() > 0 && r is Ok ==> final(store).secrets() == old(store).secrets().insert(
            api_key_slot_spec(provider@),
            trim_spec(key@),
        ),
{
    if crate::text::is_blank(key) {
        let slots = key_candidates(provider);
        let ghost cands = key_candidates_spec(provider@);
        let mut i: usize = 0;
        assert(cands.subrange(0, 0).len() == 0);
        while i < slots.len()
            invariant
                i <= slots@.len(),
                slots@.map_values(|s: &'static str| s@) == cands,
                store.secrets() == without_slots(old(store).secrets(), cands.subrange(0, i as int)),
                old(store).infallible() ==> store.infallible(),
            decreases slots.len() - i,
        {
            assert(slots@[i as int]@ == cands[i as int]);
            let ghost before = store.secrets();
            match store.delete(slots[i]) {
                Ok(()) => {},
                Err(e) => {
                    return Err(e);
                },
            }
            assert(cands.subrange(0, i + 1).drop_last() =~= cands.subrange(0, i as int));
            i = i + 1;
        }
        assert(cands.subrange(0, slots.len() as int) =~= cands);
        return Ok(());
    }
    let slot = api_key_slot(provider);
    let trimmed = crate::text::trim(key);
    store.set(slot.as_str(), trimmed.as_str())
}

/// Why no key could be found for a provider.
#[derive(Debug)]
pub enum CredentialError {
    /// Neither the environment nor the store has a key; the text says where
    /// to put one.
    ProviderNotConfigured(String),
    /// The store could not be read.
    Store(SecretError),
}

/// The hint given when no key is configured.
pub open spec fn not_configured_hint(env_name: Seq<char>) -> Seq<char> {
    "set "@ + env_name + " or save a key in the OS keychain"@
}

/// The key to send: a non-blank environment key (`env_key`, the value of the
/// variable named `env_name` when it is set) as it is, else the first
/// non-blank key among the provider's slots. A store error is passed on.
pub fn resolve_api_key<S: SecretStore>(
    env_name: &str,
    env_key: Option<String>,
    provider: &str,
    store: &S,
) -> (r: Result<String, CredentialError>)
    ensures
        env_key_usable(opt_view_string(env_key)) ==> (r matches Ok(k) && Some(k@) == opt_view_string(env_key)),
        (r matches Ok(k) && !env_key_usable(opt_view_string(env_key))) ==> found_in_slots(store.secrets(), provider@, r->Ok_0@),
        r matches Err(CredentialError::ProviderNotConfigured(m)) ==> m@ == not_configured_hint(env_name@)
            && !env_key_usable(opt_view_string(env_key)) && (store.infallible() ==> !stored_key_usable(
            store.secrets(),
            provider@,
        )),
        store.infallible() && !env_key_usable(opt_view_string(env_key)) ==> (r is Ok <==> stored_key_usable(
            store.secrets(),
            provider@,
        )),
{
    let ghost ek = opt_view_string(env_key);
    match env_key {
        Some(k) => if !crate::text::is_blank(k.as_str()) {
            return Ok(k);
        },
        None => {},
    }
    let slots = key_candidates(provider);
    let ghost cands = key_candidates_spec(provider@);
    let mut i: usize = 0;
    while i < slots.len()
        invariant
            i <= slots@.len(),
            slots@.map_values(|s: &'static str| s@) == cands,
            cands == key_candidates_spec(provider@),
            !env_key_usable(ek),
            ek == opt_view_string(env_key),
            store.infallible() ==> forall|j: int| 0 <= j < i ==> !#[trigger] usable_in(store.secrets(), cands[j]),
        decreases slots.len() - i,
    {
        assert(slots@[i as int]@ == cands[i as int]);
        match store.get(slots[i]) {
            Ok(Some(k)) => {
                if !crate::text::is_blank(k.as_str()) {
                    assert(usable_in(store.secrets(), key_candidates_spec(provider@)[i as int]));
                    assert(found_in_slots(store.secrets(), provider@, k@));
                    return Ok(k);
                }
            },
            Ok(None) => {},
            Err(e) => {
                return Err(CredentialError::Store(e));
            },
        }
        i = i + 1;
    }
    let mut v = chars_of("set ");
    append_str(&mut v, env_name);
    append_str(&mut v, " or save a key in the OS keychain");
    Err(CredentialError::ProviderNotConfigured(string_from_chars(&v)))
}

/// `k` is the usable key of one of the provider's slots.
pub open spec fn found_in_slots(secrets: Map<Seq<char>, Seq<char>>, provider: Seq<char>, k: Seq<char>) -> bool {
    exists|i: int|
        0 <= i < key_candidates_spec(provider).len() && #[trigger] usable_in(
            secrets,
            key_candidates_spec(provider)[i],
        ) && secrets[key_candidates_spec(provider)[i]] == k
}

pub open spec fn opt_view_string(s: Option<String>) -> Option<Seq<char>> {
    match s {
        Some(t) => Some(t@),
        None => None,
    }
}

/// Clearing a provider's key leaves none of its slots with a key: after a
/// blank key is saved, no stored key is found for that provider any more.
pub proof fn lemma_cleared_key_is_gone(secrets: Map<Seq<char>, Seq<char>>, provider: Seq<char>)
    ensures
        !stored_key_usable(cleared(secrets, provider), provider),
        forall|i: int|
            0 <= i < key_candidates_spec(provider).len() ==> !#[trigger] cleared(secrets, provider).dom().contains(
                key_candidates_spec(provider)[i],
            ),
{
    lemma_without_slots_absent(secrets, key_candidates_spec(provider));
}

proof fn lemma_without_slots_absent(m: Map<Seq<char>, Seq<char>>, slots: Seq<Seq<char>>)
    ensures
        forall|i: int| 0 <= i < slots.len() ==> !#[trigger] without_slots(m, slots).dom().contains(slots[i]),
    decreases slots.len(),
{
    if slots.len() > 0 {
        let t = slots.drop_last();
        lemma_without_slots_absent(m, t);
        assert forall|i: int| 0 <= i < slots.len() implies !#[trigger] without_slots(m, slots).dom().contains(slots[i]) by {
            assert(without_slots(m, slots) == without_slots(m, t).remove(slots.last()));
            if i < slots.len() - 1 {
                assert(slots[i] == t[i]);
                assert(!without_slots(m, t).dom().contains(t[i]));
            }
        }
    }
}

/// A saved non-blank key is found again for the same provider.
pub proof fn lemma_saved_key_is_found(secrets: Map<Seq<char>, Seq<char>>, provider: Seq<char>, key: Seq<char>)
    requires
        trim_spec(key).len() > 0,
    ensures
        stored_key_usable(secrets.insert(api_key_slot_spec(provider), trim_spec(key)), provider),
{
    lemma_saved_slot_is_read(provider);
    crate::text::lemma_trim_idempotent(key, Seq::empty(), true);
    let c = key_candidates_spec(provider);
    let i = choose|i: int| 0 <= i < c.len() && c[i] == api_key_slot_spec(provider);
    assert(usable_in(secrets.insert(api_key_slot_spec(provider), trim_spec(key)), c[i]));
}


// ------------------------------------------------------------------------------------------
// Requests to the provider
// ------------------------------------------------------------------------------------------
/// Rules appended to the persona's prompt when asking for a proactive greeting.
pub const GREETING_RULES: &'static str = "\n\n你只需要生成一句自然、简短、符合人格的问候。不要输出解释、引号、Markdown 或括号中的动作描述。不要重复上一次问候，不要编造没有出现在记忆里的信息。";

/// Last line of the user message of a greeting request.
pub const GREETING_REQUEST: &'static str = "\n请生成一句中文问候，通常不超过 30 个汉字。只输出问候本身。";

/// Rules appended to the persona's prompt when answering the user.
pub const REPLY_RULES: &'static str = "\n\n你正在和用户进行桌面宠物对话。保持既定人格，直接回答用户，避免解释系统规则。如果用户表达了稳定的喜好、习惯或厌恶，可以自然地在后续对话中参考；不要声称你记住了用户没有明确表达的事情。回答使用用户的语言，通常不超过 120 个汉字。";

/// Last line of the user message of a reply request.
pub const REPLY_REQUEST: &'static str = "\n请直接回复用户，不要输出 Markdown 标题或动作描述。";

/// Error text when the provider answered with nothing usable.
pub const EMPTY_COMPLETION: &'static str = "DeepSeek returned an empty greeting";

/// Error text for a client built with a blank key.
pub const EMPTY_API_KEY: &'static str = "DeepSeek API key is empty";

/// A titled block of the user message: the title and the trimmed body with a
/// closing newline, or nothing when the body is blank.
pub open spec fn titled_block(title: Seq<char>, body: Seq<char>) -> Seq<char> {
    if trim_spec(body).len() == 0 {
        Seq::empty()
    } else {
        title + trim_spec(body) + "\n"@
    }
}

/// The rendered memory of a greeting context at `now`.
pub open spec fn rendered_memory(context: GreetingContextView, now: i64) -> Seq<char> {
    join_spec(render_sections(context, now), "\n\n"@)
}

/// System and user message of a greeting request.
pub open spec fn greeting_prompt_spec(
    persona: PersonaView,
    context: GreetingContextView,
    trigger: Seq<char>,
    now_text: Seq<char>,
    pet_name: Option<Seq<char>>,
    pet_state: Seq<char>,
    now: i64,
) -> (Seq<char>, Seq<char>) {
    (
        effective_prompt(persona, pet_name, Some(pet_state)) + GREETING_RULES@,
        "当前时间："@ + now_text + "\n触发原因："@ + trigger + "\n宠物状态："@ + pet_state + "\n"@
            + titled_block("\n记忆：\n"@, rendered_memory(context, now)) + GREETING_REQUEST@,
    )
}

/// System and user message of a reply request.
pub open spec fn reply_prompt_spec(
    persona: PersonaView,
    context: GreetingContextView,
    history: Seq<char>,
    user_message: Seq<char>,
    now_text: Seq<char>,
    pet_name: Option<Seq<char>>,
    pet_state: Seq<char>,
    now: i64,
) -> (Seq<char>, Seq<char>) {
    (
        effective_prompt(persona, pet_name, Some(pet_state)) + REPLY_RULES@,
        "当前时间："@ + now_text + "\n宠物状态："@ + pet_state + "\n用户消息："@ + user_message + "\n"@
            + titled_block("\n记忆：\n"@, rendered_memory(context, now)) + titled_block(
            "\n最近对话：\n"@,
            history,
        ) + REPLY_REQUEST@,
    )
}

/// A non-blank body's titled block holds the title followed by the trimmed
/// body.
proof fn lemma_titled_block_holds(title: Seq<char>, body: Seq<char>)
    requires
        trim_spec(body).len() > 0,
    ensures
        contains_seq(titled_block(title, body), title + trim_spec(body)),
{
    lemma_contains_middle(Seq::empty(), title + trim_spec(body), "\n"@);
    assert(Seq::<char>::empty() + (title + trim_spec(body)) + "\n"@ =~= titled_block(title, body));
}

/// Both requests carry what the pet remembers: when the context rendered at
/// `now` is not blank, the user message of the greeting request and that of
/// the reply request each hold `\n记忆：\n` followed by the trimmed rendered
/// context. The reply request also holds `\n用户消息：` followed by the
/// user's message, and the
/// trimmed recent conversation when there is one.
pub proof fn lemma_requests_carry_memory(
    persona: PersonaView,
    context: GreetingContextView,
    trigger: Seq<char>,
    history: Seq<char>,
    user_message: Seq<char>,
    now_text: Seq<char>,
    pet_name: Option<Seq<char>>,
    pet_state: Seq<char>,
    now: i64,
)
    ensures
        ({
            let memory = trim_spec(join_spec(render_sections(context, now), "\n\n"@));
            let greeting = greeting_prompt_spec(persona, context, trigger, now_text, pet_name, pet_state, now).1;
            let reply = reply_prompt_spec(
                persona,
                context,
                history,
                user_message,
                now_text,
                pet_name,
                pet_state,
                now,
            ).1;
            &&& memory.len() > 0 ==> contains_seq(greeting, "\n记忆：\n"@ + memory)
            &&& memory.len() > 0 ==> contains_seq(reply, "\n记忆：\n"@ + memory)
            &&& contains_seq(reply, "\n用户消息："@ + user_message)
            &&& trim_spec(history).len() > 0 ==> contains_seq(reply, "\n最近对话：\n"@ + trim_spec(history))
        }),
{
    let rendered = rendered_memory(context, now);
    let memory = trim_spec(rendered);
    let mem_block = titled_block("\n记忆：\n"@, rendered);
    let hist_block = titled_block("\n最近对话：\n"@, history);
    // The greeting request.
    let g_head = "当前时间："@ + now_text + "\n触发原因："@ + trigger + "\n宠物状态："@ + pet_state + "\n"@;
    let greeting = greeting_prompt_spec(persona, context, trigger, now_text, pet_name, pet_state, now).1;
    assert(greeting =~= g_head + mem_block + GREETING_REQUEST@);
    // The reply request.
    let r_head = "当前时间："@ + now_text + "\n宠物状态："@ + pet_state + "\n用户消息："@ + user_message + "\n"@;
    let reply = reply_prompt_spec(persona, context, history, user_message, now_text, pet_name, pet_state, now).1;
    assert(reply =~= r_head + mem_block + hist_block + REPLY_REQUEST@);
    if memory.len() > 0 {
        lemma_titled_block_holds("\n记忆：\n"@, rendered);
        lemma_contains_middle(g_head, mem_block, GREETING_REQUEST@);
        lemma_contains_trans(greeting, mem_block, "\n记忆：\n"@ + memory);
        lemma_contains_middle(r_head, mem_block, hist_block + REPLY_REQUEST@);
        assert(r_head + mem_block + (hist_block + REPLY_REQUEST@) =~= reply);
        lemma_contains_trans(reply, mem_block, "\n记忆：\n"@ + memory);
    }
    let before = "当前时间："@ + now_text + "\n宠物状态："@ + pet_state;
    let after = "\n"@ + mem_block + hist_block + REPLY_REQUEST@;
    lemma_contains_middle(before, "\n用户消息："@ + user_message, after);
    assert(before + ("\n用户消息："@ + user_message) + after =~= reply);
    if trim_spec(history).len() > 0 {
        lemma_titled_block_holds("\n最近对话：\n"@, history);
        lemma_contains_middle(r_head + mem_block, hist_block, REPLY_REQUEST@);
        lemma_contains_trans(reply, hist_block, "\n最近对话：\n"@ + trim_spec(history));
    }
}

/// Append a titled block (see [`titled_block`]).
fn push_titled_block(out: &mut Vec<char>, title: &str, body: &str)
    ensures
        final(out)@ == old(out)@ + titled_block(title@, body@),
{
    let t = trim_chars(&chars_of(body));
    if t.len() > 0 {
        append_str(out, title);
        append_chars(out, &t);
        append_str(out, "\n");
    } else {
        assert(old(out)@ + titled_block(title@, body@) =~= old(out)@);
    }
}

/// The two messages of a greeting request, with the memory rendered at `now`.
pub fn greeting_prompt_at(
    persona: &Persona,
    context: &GreetingContext,
    trigger: &str,
    now_text: &str,
    pet_name: Option<&str>,
    pet_state: &str,
    now: i64,
) -> (r: (String, String))
    requires
        context_times_defined(context@, now),
    ensures
        (r.0@, r.1@) == greeting_prompt_spec(
            persona@,
            context@,
            trigger@,
            now_text@,
            opt_str_view(pet_name),
            pet_state@,
            now,
        ),
{
    let prompt = persona.effective_system_prompt(pet_name, Some(pet_state));
    let mut system = chars_of(prompt.as_str());
    append_str(&mut system, GREETING_RULES);
    let memory = context.render(now);
    let mut user = chars_of("当前时间：");
    append_str(&mut user, now_text);
    append_str(&mut user, "\n触发原因：");
    append_str(&mut user, trigger);
    append_str(&mut user, "\n宠物状态：");
    append_str(&mut user, pet_state);
    append_str(&mut user, "\n");
    push_titled_block(&mut user, "\n记忆：\n", memory.as_str());
    append_str(&mut user, GREETING_REQUEST);
    (string_from_chars(&system), string_from_chars(&user))
}

/// The two messages of a greeting request, with the memory rendered at the
/// current time; `None` when a time in the context is too far from the clock
/// to be rendered.
pub fn greeting_prompt(
    persona: &Persona,
    context: &GreetingContext,
    trigger: &str,
    now_text: &str,
    pet_name: Option<&str>,
    pet_state: &str,
) -> (r: Option<(String, String)>)
    ensures
        r matches Some(p) ==> exists|now: i64| #[trigger]
            context_times_defined(context@, now) && (p.0@, p.1@) == greeting_prompt_spec(
                persona@,
                context@,
                trigger@,
                now_text@,
                opt_str_view(pet_name),
                pet_state@,
                now,
            ),
        r is None ==> exists|now: i64| !#[trigger] context_times_defined(context@, now),
{
    let now = now_ms();
    if context.renders_at(now) {
        Some(greeting_prompt_at(persona, context, trigger, now_text, pet_name, pet_state, now))
    } else {
        None
    }
}

/// The two messages of a reply request, with the memory rendered at `now`.
pub fn reply_prompt_at(
    persona: &Persona,
    context: &GreetingContext,
    history: &str,
    user_message: &str,
    now_text: &str,
    pet_name: Option<&str>,
    pet_state: &str,
    now: i64,
) -> (r: (String, String))
    requires
        context_times_defined(context@, now),
    ensures
        (r.0@, r.1@) == reply_prompt_spec(
            persona@,
            context@,
            history@,
            user_message@,
            now_text@,
            opt_str_view(pet_name),
            pet_state@,
            now,
        ),
{
    let prompt = persona.effective_system_prompt(pet_name, Some(pet_state));
    let mut system = chars_of(prompt.as_str());
    append_str(&mut system, REPLY_RULES);
    let mut user = chars_of("当前时间：");
    append_str(&mut user, now_text);
    append_str(&mut user, "\n宠物状态：");
    append_str(&mut user, pet_state);
    append_str(&mut user, "\n用户消息：");
    append_str(&mut user, user_message);
    append_str(&mut user, "\n");
    let memory = context.render(now);
    push_titled_block(&mut user, "\n记忆：\n", memory.as_str());
    push_titled_block(&mut user, "\n最近对话：\n", history);
    append_str(&mut user, REPLY_REQUEST);
    (string_from_chars(&system), string_from_chars(&user))
}

/// The two messages of a reply request, with the memory rendered at the
/// current time; `None` when a time in the context is too far from the clock
/// to be rendered.
pub fn reply_prompt(
    persona: &Persona,
    context: &GreetingContext,
    history: &str,
    user_message: &str,
    now_text: &str,
    pet_name: Option<&str>,
    pet_state: &str,
) -> (r: Option<(String, String)>)
    ensures
        r matches Some(p) ==> exists|now: i64| #[trigger]
            context_times_defined(context@, now) && (p.0@, p.1@) == reply_prompt_spec(
                persona@,
                context@,
                history@,
                user_message@,
                now_text@,
                opt_str_view(pet_name),
                pet_state@,
                now,
            ),
        r is None ==> exists|now: i64| !#[trigger] context_times_defined(context@, now),
{
    let now = now_ms();
    if context.renders_at(now) {
        Some(reply_prompt_at(persona, context, history, user_message, now_text, pet_name, pet_state, now))
    } else {
        None
    }
}

/// Whether a request carries the provider-specific `thinking` switch: only
/// when thinking is disabled and the provider is not a custom endpoint, since
/// strict OpenAI-compatible endpoints reject unknown fields.
pub fn sends_thinking(thinking_disabled: bool, provider: &str) -> (r: bool)
    ensures
        r == (thinking_disabled && provider@ != PROVIDER_CUSTOM@),
{
    thinking_disabled && !str_eq(provider, PROVIDER_CUSTOM)
}

/// The key a client sends: the trimmed key, or `ProviderNotConfigured` when
/// it is blank.
pub fn client_api_key(api_key: &str) -> (r: Result<String, CredentialError>)
    ensures
        trim_spec(api_key@).len() == 0 <==> r is Err,
        r matches Ok(k) ==> k@ == trim_spec(api_key@),
        r matches Err(e) ==> (e matches CredentialError::ProviderNotConfigured(m) && m@ == EMPTY_API_KEY@),
{
    let t = trim_chars(&chars_of(api_key));
    if t.len() == 0 {
        Err(CredentialError::ProviderNotConfigured(owned(EMPTY_API_KEY)))
    } else {
        Ok(string_from_chars(&t))
    }
}

/// The text of a completion: the message content (missing counts as empty),
/// trimmed and cleaned to one line of at most `max_chars` characters; an
/// error when it is blank.
pub fn completion_text(content: Option<&str>, max_chars: usize) -> (r: Result<String, String>)
    ensures
        ({
            let c = match content {
                Some(t) => t@,
                None => Seq::<char>::empty(),
            };
            &&& trim_spec(c).len() == 0 <==> r is Err
            &&& r matches Ok(t) ==> t@ == clean_greeting_spec(trim_spec(c), max_chars as int)
            &&& r matches Err(m) ==> m@ == EMPTY_COMPLETION@
        }),
{
    let text = match content {
        Some(t) => trim_chars(&chars_of(t)),
        None => Vec::new(),
    };
    if text.len() == 0 {
        Err(owned(EMPTY_COMPLETION))
    } else {
        let s = string_from_chars(&text);
        Ok(clean_greeting(s.as_str(), max_chars))
    }
}

/// `base` without trailing slashes, followed by `path`.
pub open spec fn endpoint_spec(base: Seq<char>, path: Seq<char>) -> Seq<char> {
    trim_end_by(base, seq!['/'], false) + path
}

/// The URL of an endpoint of an OpenAI-compatible API: the base URL without
/// its trailing slashes, followed by the path (such as `/chat/completions`
/// or `/models`).
pub fn endpoint_url(base_url: &str, path: &str) -> (r: String)
    ensures
        r@ == endpoint_spec(base_url@, path@),
{
    let s = chars_of(base_url);
    let mut end: usize = s.len();
    while end > 0 && s[end - 1] == '/'
        invariant
            end <= s.len(),
            forall|i: int| end <= i < s.len() ==> in_class(#[trigger] s@[i], seq!['/'], false),
        decreases end,
    {
        assert(in_class(s@[end - 1], seq!['/'], false)) by {
            assert(seq!['/'][0] == s@[end - 1]);
        }
        end = end - 1;
    }
    proof {
        lemma_trim_end_at(s@, seq!['/'], false, end as int);
    }
    let mut out = copy_range(&s, 0, end);
    append_str(&mut out, path);
    string_from_chars(&out)
}

} // verus!
