//! Explicit user preferences found in conversation messages.
//!
//! Only unambiguous first-person statements are accepted ("我喜欢…", "call
//! me …"). This is a local, deterministic fallback, so a provider outage can
//! never make the pet invent a long-term preference, and a question is never
//! taken for a statement about the user.
use vstd::prelude::*;

use crate::memory::EXTRACTED_CONFIDENCE;
use crate::text::{
    ascii_lower, ascii_lower_seq, chars_of, contains_char, copy_range, has_prefix, owned,
    starts_with, string_from_chars, to_ascii_lowercase, trim_chars, trim_class, trim_set, trim_spec,
};

verus! {

/// Punctuation stripped from both ends of a statement.
pub open spec fn statement_edge_chars() -> Seq<char> {
    seq!['。', '！', '，', ',', '.', '!']
}

/// Punctuation stripped from both ends of a captured value.
pub open spec fn value_edge_chars() -> Seq<char> {
    seq!['。', '！', '，', ',', '.', '!', '?', '？']
}

/// Words that only ever start a question ("我叫**什么**"). A captured value
/// that starts with one of them is a mis-parse, not a preference.
pub open spec fn interrogatives() -> Seq<&'static str> {
    seq![
        "什么",
        "啥",
        "哪",
        "谁",
        "多少",
        "几点",
        "怎么",
        "怎样",
        "如何",
        "为什么",
        "吗",
        "呢",
        "么",
        "what",
        "who",
        "which",
        "how",
        "why",
        "when",
        "where",
    ]
}

fn interrogatives_exec() -> (r: Vec<&'static str>)
    ensures
        r@ == interrogatives(),
{
    vec![
        "什么",
        "啥",
        "哪",
        "谁",
        "多少",
        "几点",
        "怎么",
        "怎样",
        "如何",
        "为什么",
        "吗",
        "呢",
        "么",
        "what",
        "who",
        "which",
        "how",
        "why",
        "when",
        "where",
    ]
}

/// Does `v` (or its ASCII lowercase form) start with a question word?
pub open spec fn starts_interrogative(v: Seq<char>) -> bool {
    exists|i: int|
        0 <= i < interrogatives().len() && (has_prefix(v, #[trigger] interrogatives()[i]@)
            || has_prefix(ascii_lower_seq(v), interrogatives()[i]@))
}

/// Does `v` end with a question particle?
pub open spec fn ends_with_particle(v: Seq<char>) -> bool {
    v.len() > 0 && (v.last() == '吗' || v.last() == '呢' || v.last() == '么')
}

/// The cleaned value of a captured preference, or `None` when it is empty,
/// longer than 120 characters, or looks like part of a question.
pub open spec fn clean_value_spec(v: Seq<char>) -> Option<Seq<char>> {
    let t = trim_spec(trim_set(trim_spec(v), value_edge_chars()));
    if t.len() == 0 || t.len() > 120 {
        None
    } else if starts_interrogative(t) {
        None
    } else if ends_with_particle(t) {
        None
    } else {
        Some(t)
    }
}

fn value_edge_exec() -> (r: Vec<char>)
    ensures
        r@ == value_edge_chars(),
{
    let r = vec!['。', '！', '，', ',', '.', '!', '?', '？'];
    assert(r@ =~= value_edge_chars());
    r
}

fn statement_edge_exec() -> (r: Vec<char>)
    ensures
        r@ == statement_edge_chars(),
{
    let r = vec!['。', '！', '，', ',', '.', '!'];
    assert(r@ =~= statement_edge_chars());
    r
}

fn clean_value_chars(value: &Vec<char>) -> (r: Option<Vec<char>>)
    ensures
        r matches Some(v) ==> clean_value_spec(value@) == Some(v@),
        r is None ==> clean_value_spec(value@) is None,
{
    let t0 = trim_chars(value);
    let edges = value_edge_exec();
    let t1 = trim_class(&t0, &edges, false);
    let t = trim_chars(&t1);
    if t.len() == 0 || t.len() > 120 {
        return None;
    }
    let lower = to_ascii_lowercase(&t);
    let words = interrogatives_exec();
    let mut i: usize = 0;
    while i < words.len()
        invariant
            i <= words.len(),
            words@ == interrogatives(),
            lower@ == ascii_lower_seq(t@),
            t@ == trim_spec(trim_set(trim_spec(value@), value_edge_chars())),
            0 < t@.len() <= 120,
            forall|j: int|
                0 <= j < i ==> !(has_prefix(t@, #[trigger] interrogatives()[j]@) || has_prefix(
                    lower@,
                    interrogatives()[j]@,
                )),
        decreases words.len() - i,
    {
        let w = chars_of(words[i]);
        if starts_with(&t, &w) || starts_with(&lower, &w) {
            assert(has_prefix(t@, interrogatives()[i as int]@) || has_prefix(
                ascii_lower_seq(t@),
                interrogatives()[i as int]@,
            ));
            return None;
        }
        i = i + 1;
    }
    let last = t[t.len() - 1];
    if last == '吗' || last == '呢' || last == '么' {
        return None;
    }
    Some(t)
}

/// The cleaned value of a captured preference, or `None` when it is empty,
/// longer than 120 characters, or looks like part of a question.
pub fn clean_preference_value(value: &str) -> (r: Option<String>)
    ensures
        r matches Some(v) ==> clean_value_spec(value@) == Some(v@),
        r is None ==> clean_value_spec(value@) is None,
{
    let v = chars_of(value);
    match clean_value_chars(&v) {
        Some(c) => Some(string_from_chars(&c)),
        None => None,
    }
}

/// Chinese statement prefixes and the preference key each one records.
pub open spec fn chinese_patterns() -> Seq<(&'static str, &'static str)> {
    seq![
        ("我不喜欢", "不喜欢"),
        ("我讨厌", "不喜欢"),
        ("我不想要", "不想要"),
        ("我喜欢", "喜欢"),
        ("我偏好", "偏好"),
        ("我爱", "喜欢"),
        ("我想要", "想要"),
        ("请叫我", "称呼"),
        ("我的名字是", "称呼"),
        ("我叫", "称呼"),
        ("我习惯", "习惯"),
    ]
}

/// English statement prefixes (matched ignoring ASCII case) and their keys.
pub open spec fn english_patterns() -> Seq<(&'static str, &'static str)> {
    seq![
        ("i don't like ", "不喜欢"),
        ("i dislike ", "不喜欢"),
        ("i hate ", "不喜欢"),
        ("i like ", "喜欢"),
        ("i prefer ", "偏好"),
        ("i love ", "喜欢"),
        ("call me ", "称呼"),
        ("my name is ", "称呼"),
    ]
}

fn chinese_patterns_exec() -> (r: Vec<(&'static str, &'static str)>)
    ensures
        r@ == chinese_patterns(),
{
    vec![
        ("我不喜欢", "不喜欢"),
        ("我讨厌", "不喜欢"),
        ("我不想要", "不想要"),
        ("我喜欢", "喜欢"),
        ("我偏好", "偏好"),
        ("我爱", "喜欢"),
        ("我想要", "想要"),
        ("请叫我", "称呼"),
        ("我的名字是", "称呼"),
        ("我叫", "称呼"),
        ("我习惯", "习惯"),
    ]
}

fn english_patterns_exec() -> (r: Vec<(&'static str, &'static str)>)
    ensures
        r@ == english_patterns(),
{
    vec![
        ("i don't like ", "不喜欢"),
        ("i dislike ", "不喜欢"),
        ("i hate ", "不喜欢"),
        ("i like ", "喜欢"),
        ("i prefer ", "偏好"),
        ("i love ", "喜欢"),
        ("call me ", "称呼"),
        ("my name is ", "称呼"),
    ]
}

/// The value a pattern captures from `t`: the rest of `t` after the prefix
/// (trimmed first for the Chinese patterns), cleaned.
pub open spec fn captured(t: Seq<char>, prefix: Seq<char>, trim_rest: bool) -> Option<Seq<char>> {
    let rest = t.skip(prefix.len() as int);
    clean_value_spec(
        if trim_rest {
            trim_spec(rest)
        } else {
            rest
        },
    )
}

/// Key and value of the first pattern (from index `i` on) whose prefix starts
/// `probe` and whose captured value is clean.
pub open spec fn first_match(
    t: Seq<char>,
    probe: Seq<char>,
    pats: Seq<(&'static str, &'static str)>,
    trim_rest: bool,
    i: int,
) -> Option<(Seq<char>, Seq<char>)>
    decreases pats.len() - i,
{
    if i >= pats.len() || i < 0 {
        None
    } else if has_prefix(probe, pats[i].0@) && captured(t, pats[i].0@, trim_rest) is Some {
        Some((pats[i].1@, captured(t, pats[i].0@, trim_rest)->0))
    } else {
        first_match(t, probe, pats, trim_rest, i + 1)
    }
}

/// The statement with surrounding whitespace and punctuation removed.
pub open spec fn statement_of(text: Seq<char>) -> Seq<char> {
    trim_set(trim_spec(text), statement_edge_chars())
}

/// Key and value of the preference stated in `text`, if any.
pub open spec fn extract_spec(text: Seq<char>) -> Option<(Seq<char>, Seq<char>)> {
    if text.contains('？') || text.contains('?') {
        None
    } else {
        let t = statement_of(text);
        match first_match(t, t, chinese_patterns(), true, 0) {
            Some(found) => Some(found),
            None => first_match(t, ascii_lower_seq(t), english_patterns(), false, 0),
        }
    }
}

fn match_patterns(t: &Vec<char>, probe: &Vec<char>, pats: &Vec<(&'static str, &'static str)>, trim_rest: bool) -> (r: Option<(String, Vec<char>)>)
    requires
        probe@.len() == t@.len(),
    ensures
        r is None <==> first_match(t@, probe@, pats@, trim_rest, 0) is None,
        r matches Some(found) ==> first_match(t@, probe@, pats@, trim_rest, 0) == Some(
            (found.0@, found.1@),
        ),
{
    let mut i: usize = 0;
    while i < pats.len()
        invariant
            i <= pats.len(),
            probe@.len() == t@.len(),
            first_match(t@, probe@, pats@, trim_rest, 0) == first_match(
                t@,
                probe@,
                pats@,
                trim_rest,
                i as int,
            ),
        decreases pats.len() - i,
    {
        let (prefix, key) = pats[i];
        let p = chars_of(prefix);
        if starts_with(probe, &p) {
            let rest = copy_range(t, p.len(), t.len());
            assert(rest@ =~= t@.skip(p@.len() as int));
            let candidate = if trim_rest {
                trim_chars(&rest)
            } else {
                rest
            };
            match clean_value_chars(&candidate) {
                Some(value) => {
                    return Some((owned(key), value));
                },
                None => {},
            }
        }
        i = i + 1;
    }
    None
}

/// Key, value and confidence of an explicit, user-authored preference in a
/// message, or `None`. Questions are never taken for statements.
pub fn extract_preference(text: &str) -> (r: Option<(String, String, u32)>)
    ensures
        r is None <==> extract_spec(text@) is None,
        r matches Some(found) ==> extract_spec(text@) == Some((found.0@, found.1@)) && found.2
            == EXTRACTED_CONFIDENCE,
{
    let chars = chars_of(text);
    if contains_char(&chars, '？') || contains_char(&chars, '?') {
        return None;
    }
    let trimmed = trim_chars(&chars);
    let edges = statement_edge_exec();
    let t = trim_class(&trimmed, &edges, false);
    let chinese = chinese_patterns_exec();
    match match_patterns(&t, &t, &chinese, true) {
        Some((key, value)) => {
            return Some((key, string_from_chars(&value), EXTRACTED_CONFIDENCE));
        },
        None => {},
    }
    let lower = to_ascii_lowercase(&t);
    let english = english_patterns_exec();
    match match_patterns(&t, &lower, &english, false) {
        Some((key, value)) => Some((key, string_from_chars(&value), EXTRACTED_CONFIDENCE)),
        None => None,
    }
}


/// A sequence that starts with `p` agrees with `p` at each of its positions.
proof fn lemma_prefix_char(t: Seq<char>, p: Seq<char>, m: int)
    requires
        has_prefix(t, p),
        0 <= m < p.len(),
    ensures
        t[m] == p[m],
{
    assert(t.subrange(0, p.len() as int)[m] == t[m]);
}

/// The search stops at pattern `k` when no pattern from `i` up to `k` starts
/// `probe` and pattern `k` starts it with a clean captured value.
proof fn lemma_first_match_from(
    t: Seq<char>,
    probe: Seq<char>,
    pats: Seq<(&'static str, &'static str)>,
    trim_rest: bool,
    i: int,
    k: int,
)
    requires
        0 <= i <= k < pats.len(),
        forall|j: int| i <= j < k ==> !has_prefix(probe, #[trigger] pats[j].0@),
        has_prefix(probe, pats[k].0@),
        captured(t, pats[k].0@, trim_rest) is Some,
    ensures
        first_match(t, probe, pats, trim_rest, i) == Some(
            (pats[k].1@, captured(t, pats[k].0@, trim_rest)->0),
        ),
    decreases k - i,
{
    if i < k {
        lemma_first_match_from(t, probe, pats, trim_rest, i + 1, k);
    }
}

/// A statement made of the `k`-th Chinese prefix and a rest whose trimmed
/// form is a clean value is recorded under that pattern's key: no earlier
/// prefix starts it.
proof fn lemma_chinese_at(t: Seq<char>, rest: Seq<char>, k: int)
    requires
        0 <= k < chinese_patterns().len(),
        t == chinese_patterns()[k].0@ + rest,
        clean_value_spec(trim_spec(rest)) is Some,
    ensures
        first_match(t, t, chinese_patterns(), true, 0) == Some(
            (chinese_patterns()[k].1@, clean_value_spec(trim_spec(rest))->0),
        ),
{
    reveal_strlit("我不喜欢");
    reveal_strlit("我讨厌");
    reveal_strlit("我不想要");
    reveal_strlit("我喜欢");
    reveal_strlit("我偏好");
    reveal_strlit("我爱");
    reveal_strlit("我想要");
    reveal_strlit("请叫我");
    reveal_strlit("我的名字是");
    reveal_strlit("我叫");
    reveal_strlit("我习惯");
    let pats = chinese_patterns();
    let p = pats[k].0@;
    assert(t.subrange(0, p.len() as int) =~= p);
    assert(t.skip(p.len() as int) =~= rest);
    assert forall|j: int| 0 <= j < k implies !has_prefix(t, #[trigger] pats[j].0@) by {
        let q = pats[j].0@;
        if has_prefix(t, q) {
            lemma_prefix_char(t, q, 0);
            lemma_prefix_char(t, q, 1);
            if q.len() > 2 && p.len() > 2 {
                lemma_prefix_char(t, q, 2);
                assert(t[2] == p[2]);
            }
            assert(t[0] == p[0]);
            assert(t[1] == p[1]);
        }
    }
    lemma_first_match_from(t, t, pats, true, 0, k);
}

/// What each Chinese statement records. A message that holds no question mark
/// and whose statement is one of the phrases below followed by `rest`, where
/// the trimmed `rest` is a clean value `v`, gives the key shown beside the
/// phrase and the value `v`: a stated dislike (我不喜欢, 我讨厌) is never
/// recorded as a like, and a stated like (我喜欢, 我爱) never as a dislike.
pub proof fn lemma_chinese_statement_keys(text: Seq<char>, rest: Seq<char>)
    requires
        !text.contains('？'),
        !text.contains('?'),
        clean_value_spec(trim_spec(rest)) is Some,
    ensures
        ({
            let t = statement_of(text);
            let v = clean_value_spec(trim_spec(rest))->0;
            &&& t == "我不喜欢"@ + rest ==> extract_spec(text) == Some(("不喜欢"@, v))
            &&& t == "我讨厌"@ + rest ==> extract_spec(text) == Some(("不喜欢"@, v))
            &&& t == "我不想要"@ + rest ==> extract_spec(text) == Some(("不想要"@, v))
            &&& t == "我喜欢"@ + rest ==> extract_spec(text) == Some(("喜欢"@, v))
            &&& t == "我偏好"@ + rest ==> extract_spec(text) == Some(("偏好"@, v))
            &&& t == "我爱"@ + rest ==> extract_spec(text) == Some(("喜欢"@, v))
            &&& t == "我想要"@ + rest ==> extract_spec(text) == Some(("想要"@, v))
            &&& t == "请叫我"@ + rest ==> extract_spec(text) == Some(("称呼"@, v))
            &&& t == "我的名字是"@ + rest ==> extract_spec(text) == Some(("称呼"@, v))
            &&& t == "我叫"@ + rest ==> extract_spec(text) == Some(("称呼"@, v))
            &&& t == "我习惯"@ + rest ==> extract_spec(text) == Some(("习惯"@, v))
        }),
{
    let t = statement_of(text);
    let pats = chinese_patterns();
    if t == pats[0].0@ + rest {
        lemma_chinese_at(t, rest, 0);
    }
    if t == pats[1].0@ + rest {
        lemma_chinese_at(t, rest, 1);
    }
    if t == pats[2].0@ + rest {
        lemma_chinese_at(t, rest, 2);
    }
    if t == pats[3].0@ + rest {
        lemma_chinese_at(t, rest, 3);
    }
    if t == pats[4].0@ + rest {
        lemma_chinese_at(t, rest, 4);
    }
    if t == pats[5].0@ + rest {
        lemma_chinese_at(t, rest, 5);
    }
    if t == pats[6].0@ + rest {
        lemma_chinese_at(t, rest, 6);
    }
    if t == pats[7].0@ + rest {
        lemma_chinese_at(t, rest, 7);
    }
    if t == pats[8].0@ + rest {
        lemma_chinese_at(t, rest, 8);
    }
    if t == pats[9].0@ + rest {
        lemma_chinese_at(t, rest, 9);
    }
    if t == pats[10].0@ + rest {
        lemma_chinese_at(t, rest, 10);
    }
    assert(pats[0].0@ == "我不喜欢"@);
    assert(pats[1].0@ == "我讨厌"@);
    assert(pats[2].0@ == "我不想要"@);
    assert(pats[3].0@ == "我喜欢"@);
    assert(pats[4].0@ == "我偏好"@);
    assert(pats[5].0@ == "我爱"@);
    assert(pats[6].0@ == "我想要"@);
    assert(pats[7].0@ == "请叫我"@);
    assert(pats[8].0@ == "我的名字是"@);
    assert(pats[9].0@ == "我叫"@);
    assert(pats[10].0@ == "我习惯"@);
}


/// The search finds nothing from `i` on when no pattern from there starts
/// `probe`.
proof fn lemma_first_match_none(
    t: Seq<char>,
    probe: Seq<char>,
    pats: Seq<(&'static str, &'static str)>,
    trim_rest: bool,
    i: int,
)
    requires
        0 <= i <= pats.len(),
        forall|j: int| i <= j < pats.len() ==> !has_prefix(probe, #[trigger] pats[j].0@),
    ensures
        first_match(t, probe, pats, trim_rest, i) is None,
    decreases pats.len() - i,
{
    if i < pats.len() {
        lemma_first_match_none(t, probe, pats, trim_rest, i + 1);
    }
}

/// A statement whose head is, ignoring ASCII case, the `k`-th English phrase
/// and whose rest is a clean value matches no Chinese prefix and is recorded
/// under that English pattern's key.
proof fn lemma_english_at(t: Seq<char>, head: Seq<char>, rest: Seq<char>, k: int)
    requires
        0 <= k < english_patterns().len(),
        t == head + rest,
        ascii_lower_seq(head) == english_patterns()[k].0@,
        clean_value_spec(rest) is Some,
    ensures
        first_match(t, t, chinese_patterns(), true, 0) is None,
        first_match(t, ascii_lower_seq(t), english_patterns(), false, 0) == Some(
            (english_patterns()[k].1@, clean_value_spec(rest)->0),
        ),
{
    reveal_strlit("i don't like ");
    reveal_strlit("i dislike ");
    reveal_strlit("i hate ");
    reveal_strlit("i like ");
    reveal_strlit("i prefer ");
    reveal_strlit("i love ");
    reveal_strlit("call me ");
    reveal_strlit("my name is ");
    reveal_strlit("我不喜欢");
    reveal_strlit("我讨厌");
    reveal_strlit("我不想要");
    reveal_strlit("我喜欢");
    reveal_strlit("我偏好");
    reveal_strlit("我爱");
    reveal_strlit("我想要");
    reveal_strlit("请叫我");
    reveal_strlit("我的名字是");
    reveal_strlit("我叫");
    reveal_strlit("我习惯");
    let pats = english_patterns();
    let chinese = chinese_patterns();
    let p = pats[k].0@;
    let probe = ascii_lower_seq(t);
    assert(probe =~= p + ascii_lower_seq(rest));
    assert(probe.subrange(0, p.len() as int) =~= p);
    assert(t.skip(p.len() as int) =~= rest);
    assert(ascii_lower(t[0]) == p[0]) by {
        assert(ascii_lower_seq(head)[0] == ascii_lower(head[0]));
    }
    assert forall|j: int| 0 <= j < chinese.len() implies !has_prefix(
        t,
        #[trigger] chinese[j].0@,
    ) by {
        if has_prefix(t, chinese[j].0@) {
            lemma_prefix_char(t, chinese[j].0@, 0);
        }
    }
    lemma_first_match_none(t, t, chinese, true, 0);
    assert forall|j: int| 0 <= j < k implies !has_prefix(probe, #[trigger] pats[j].0@) by {
        let q = pats[j].0@;
        if has_prefix(probe, q) {
            lemma_prefix_char(probe, q, 0);
            lemma_prefix_char(probe, q, 1);
            lemma_prefix_char(probe, q, 2);
            lemma_prefix_char(probe, q, 3);
            assert(probe[0] == p[0]);
            assert(probe[1] == p[1]);
            assert(probe[2] == p[2]);
            assert(probe[3] == p[3]);
        }
    }
    lemma_first_match_from(t, probe, pats, false, 0, k);
}

/// What each English statement records. A message that holds no question mark
/// and whose statement is `head` followed by `rest`, where `head` is one of the
/// phrases below in any ASCII case and `rest` is a clean value, gives the key
/// shown beside the phrase and `rest` cleaned: a stated dislike is never
/// recorded as a like.
pub proof fn lemma_english_statement_keys(text: Seq<char>, head: Seq<char>, rest: Seq<char>)
    requires
        !text.contains('？'),
        !text.contains('?'),
        clean_value_spec(rest) is Some,
    ensures
        ({
            let t = statement_of(text);
            let v = clean_value_spec(rest)->0;
            &&& t == head + rest && ascii_lower_seq(head) == "i don't like "@
                ==> extract_spec(text) == Some(("不喜欢"@, v))
            &&& t == head + rest && ascii_lower_seq(head) == "i dislike "@
                ==> extract_spec(text) == Some(("不喜欢"@, v))
            &&& t == head + rest && ascii_lower_seq(head) == "i hate "@
                ==> extract_spec(text) == Some(("不喜欢"@, v))
            &&& t == head + rest && ascii_lower_seq(head) == "i like "@
                ==> extract_spec(text) == Some(("喜欢"@, v))
            &&& t == head + rest && ascii_lower_seq(head) == "i prefer "@
                ==> extract_spec(text) == Some(("偏好"@, v))
            &&& t == head + rest && ascii_lower_seq(head) == "i love "@
                ==> extract_spec(text) == Some(("喜欢"@, v))
            &&& t == head + rest && ascii_lower_seq(head) == "call me "@
                ==> extract_spec(text) == Some(("称呼"@, v))
            &&& t == head + rest && ascii_lower_seq(head) == "my name is "@
                ==> extract_spec(text) == Some(("称呼"@, v))
        }),
{
    let t = statement_of(text);
    let pats = english_patterns();
    if t == head + rest && ascii_lower_seq(head) == pats[0].0@ {
        lemma_english_at(t, head, rest, 0);
    }
    if t == head + rest && ascii_lower_seq(head) == pats[1].0@ {
        lemma_english_at(t, head, rest, 1);
    }
    if t == head + rest && ascii_lower_seq(head) == pats[2].0@ {
        lemma_english_at(t, head, rest, 2);
    }
    if t == head + rest && ascii_lower_seq(head) == pats[3].0@ {
        lemma_english_at(t, head, rest, 3);
    }
    if t == head + rest && ascii_lower_seq(head) == pats[4].0@ {
        lemma_english_at(t, head, rest, 4);
    }
    if t == head + rest && ascii_lower_seq(head) == pats[5].0@ {
        lemma_english_at(t, head, rest, 5);
    }
    if t == head + rest && ascii_lower_seq(head) == pats[6].0@ {
        lemma_english_at(t, head, rest, 6);
    }
    if t == head + rest && ascii_lower_seq(head) == pats[7].0@ {
        lemma_english_at(t, head, rest, 7);
    }
    assert(pats[0].0@ == "i don't like "@);
    assert(pats[1].0@ == "i dislike "@);
    assert(pats[2].0@ == "i hate "@);
    assert(pats[3].0@ == "i like "@);
    assert(pats[4].0@ == "i prefer "@);
    assert(pats[5].0@ == "i love "@);
    assert(pats[6].0@ == "call me "@);
    assert(pats[7].0@ == "my name is "@);
}

} // verus!
