//! Character-level string operations with their mathematical meaning.
//!
//! Strings are handled as sequences of Unicode scalar values (`Seq<char>`),
//! which is how `str::chars` sees them. Every operation here mirrors the std
//! method of the same name on that view.
use vstd::prelude::*;

verus! {

/// The characters of `s`, in order.
pub fn chars_of(s: &str) -> (v: Vec<char>)
    ensures
        v@ == s@,
{
    broadcast use vstd::string::group_string_axioms;

    let mut v: Vec<char> = Vec::new();
    for c in it: s.chars()
        invariant
            v@ == it.seq().take(it.index() as int),
    {
        v.push(c);
    }
    assert(v@ =~= s@);
    v
}

/// `String` made of the given characters (std `FromIterator<char>`).
#[verifier::external_body]
pub(crate) fn string_from_chars(chars: &Vec<char>) -> (s: String)
    ensures
        s@ == chars@,
{
    chars.iter().collect()
}

/// An owned copy of `s`.
pub fn owned(s: &str) -> (r: String)
    ensures
        r@ == s@,
{
    let v = chars_of(s);
    string_from_chars(&v)
}

/// Unicode `White_Space`, as tested by `char::is_whitespace`.
pub open spec fn is_ws(c: char) -> bool {
    let v = c as u32;
    (9 <= v <= 13) || v == 32 || v == 0x85 || v == 0xA0 || v == 0x1680 || (0x2000 <= v <= 0x200A)
        || v == 0x2028 || v == 0x2029 || v == 0x202F || v == 0x205F || v == 0x3000
}

/// `char::is_whitespace`.
pub fn is_whitespace(c: char) -> (r: bool)
    ensures
        r == is_ws(c),
{
    let v = c as u32;
    (9 <= v && v <= 13) || v == 32 || v == 0x85 || v == 0xA0 || v == 0x1680 || (0x2000 <= v && v
        <= 0x200A) || v == 0x2028 || v == 0x2029 || v == 0x202F || v == 0x205F || v == 0x3000
}

/// Character class used by the trimming functions: Unicode whitespace, or
/// membership in a fixed set of characters.
pub open spec fn in_class(c: char, set: Seq<char>, ws: bool) -> bool {
    if ws {
        is_ws(c)
    } else {
        set.contains(c)
    }
}

/// Drop leading characters of the class (`trim_start_matches`).
pub open spec fn trim_start_by(s: Seq<char>, set: Seq<char>, ws: bool) -> Seq<char>
    decreases s.len(),
{
    if s.len() > 0 && in_class(s[0], set, ws) {
        trim_start_by(s.drop_first(), set, ws)
    } else {
        s
    }
}

/// Drop trailing characters of the class (`trim_end_matches`).
pub open spec fn trim_end_by(s: Seq<char>, set: Seq<char>, ws: bool) -> Seq<char>
    decreases s.len(),
{
    if s.len() > 0 && in_class(s.last(), set, ws) {
        trim_end_by(s.drop_last(), set, ws)
    } else {
        s
    }
}

/// Drop leading and trailing characters of the class (`trim_matches`).
pub open spec fn trim_by(s: Seq<char>, set: Seq<char>, ws: bool) -> Seq<char> {
    trim_end_by(trim_start_by(s, set, ws), set, ws)
}

/// `str::trim`.
pub open spec fn trim_spec(s: Seq<char>) -> Seq<char> {
    trim_by(s, Seq::empty(), true)
}

/// `str::trim_matches` with a set of characters.
pub open spec fn trim_set(s: Seq<char>, set: Seq<char>) -> Seq<char> {
    trim_by(s, set, false)
}

pub proof fn lemma_trim_start_at(s: Seq<char>, set: Seq<char>, ws: bool, k: int)
    requires
        0 <= k <= s.len(),
        forall|i: int| 0 <= i < k ==> in_class(#[trigger] s[i], set, ws),
        k == s.len() || !in_class(s[k], set, ws),
    ensures
        trim_start_by(s, set, ws) == s.subrange(k, s.len() as int),
    decreases k,
{
    if k == 0 {
        assert(s.subrange(0, s.len() as int) =~= s);
    } else {
        let t = s.drop_first();
        assert forall|i: int| 0 <= i < k - 1 implies in_class(#[trigger] t[i], set, ws) by {
            assert(t[i] == s[i + 1]);
        }
        lemma_trim_start_at(t, set, ws, k - 1);
        assert(t.subrange(k - 1, t.len() as int) =~= s.subrange(k, s.len() as int));
    }
}

pub proof fn lemma_trim_end_at(s: Seq<char>, set: Seq<char>, ws: bool, k: int)
    requires
        0 <= k <= s.len(),
        forall|i: int| k <= i < s.len() ==> in_class(#[trigger] s[i], set, ws),
        k == 0 || !in_class(s[k - 1], set, ws),
    ensures
        trim_end_by(s, set, ws) == s.subrange(0, k),
    decreases s.len() - k,
{
    if k == s.len() {
        assert(s.subrange(0, k) =~= s);
    } else {
        let t = s.drop_last();
        assert forall|i: int| k <= i < t.len() implies in_class(#[trigger] t[i], set, ws) by {
            assert(t[i] == s[i]);
        }
        assert(in_class(s[s.len() - 1], set, ws));
        lemma_trim_end_at(t, set, ws, k);
        assert(t.subrange(0, k) =~= s.subrange(0, k));
    }
}

proof fn lemma_trim_start_shape(s: Seq<char>, set: Seq<char>, ws: bool)
    ensures
        trim_start_by(s, set, ws).len() == 0 || !in_class(trim_start_by(s, set, ws)[0], set, ws),
    decreases s.len(),
{
    if s.len() > 0 && in_class(s[0], set, ws) {
        lemma_trim_start_shape(s.drop_first(), set, ws);
    }
}

proof fn lemma_trim_end_shape(s: Seq<char>, set: Seq<char>, ws: bool)
    ensures
        trim_end_by(s, set, ws).len() <= s.len(),
        forall|i: int| 0 <= i < trim_end_by(s, set, ws).len() ==> #[trigger] trim_end_by(s, set, ws)[i] == s[i],
        trim_end_by(s, set, ws).len() == 0 || !in_class(trim_end_by(s, set, ws).last(), set, ws),
    decreases s.len(),
{
    if s.len() > 0 && in_class(s.last(), set, ws) {
        let t = s.drop_last();
        lemma_trim_end_shape(t, set, ws);
        assert forall|i: int| 0 <= i < trim_end_by(s, set, ws).len() implies #[trigger] trim_end_by(s, set, ws)[i] == s[i] by {
            assert(trim_end_by(t, set, ws)[i] == t[i]);
        }
    }
}

/// Trimming twice is trimming once.
pub proof fn lemma_trim_idempotent(s: Seq<char>, set: Seq<char>, ws: bool)
    ensures
        trim_by(trim_by(s, set, ws), set, ws) == trim_by(s, set, ws),
{
    let a = trim_start_by(s, set, ws);
    lemma_trim_start_shape(s, set, ws);
    let r = trim_end_by(a, set, ws);
    lemma_trim_end_shape(a, set, ws);
    if r.len() > 0 {
        assert(r[0] == a[0]);
    }
    assert(trim_start_by(r, set, ws) == r);
    assert(trim_end_by(r, set, ws) == r);
}

fn char_in_class(c: char, set: &Vec<char>, ws: bool) -> (r: bool)
    ensures
        r == in_class(c, set@, ws),
{
    if ws {
        is_whitespace(c)
    } else {
        let mut i: usize = 0;
        while i < set.len()
            invariant
                !ws,
                i <= set.len(),
                forall|j: int| 0 <= j < i ==> set@[j] != c,
            decreases set.len() - i,
        {
            if set[i] == c {
                assert(0 <= i < set@.len());
                assert(set@[i as int] == c);
                assert(set@.contains(c));
                return true;
            }
            i = i + 1;
        }
        false
    }
}

/// Copy of `s[from..to]`.
pub fn copy_range(s: &Vec<char>, from: usize, to: usize) -> (r: Vec<char>)
    requires
        from <= to <= s.len(),
    ensures
        r@ == s@.subrange(from as int, to as int),
{
    let mut r: Vec<char> = Vec::new();
    let mut i = from;
    while i < to
        invariant
            from <= i <= to <= s.len(),
            r@ == s@.subrange(from as int, i as int),
        decreases to - i,
    {
        r.push(s[i]);
        assert(r@ =~= s@.subrange(from as int, i + 1));
        i = i + 1;
    }
    r
}

/// Trim characters of a class from both ends.
pub fn trim_class(s: &Vec<char>, set: &Vec<char>, ws: bool) -> (r: Vec<char>)
    ensures
        r@ == trim_by(s@, set@, ws),
{
    let mut a: usize = 0;
    while a < s.len() && char_in_class(s[a], set, ws)
        invariant
            a <= s.len(),
            forall|i: int| 0 <= i < a ==> in_class(#[trigger] s@[i], set@, ws),
        decreases s.len() - a,
    {
        a = a + 1;
    }
    proof {
        lemma_trim_start_at(s@, set@, ws, a as int);
    }
    let mut b: usize = s.len();
    while b > a && char_in_class(s[b - 1], set, ws)
        invariant
            a <= b <= s.len(),
            forall|i: int| b <= i < s.len() ==> in_class(#[trigger] s@[i], set@, ws),
        decreases b - a,
    {
        b = b - 1;
    }
    proof {
        let t = s@.subrange(a as int, s.len() as int);
        assert forall|i: int| b - a <= i < t.len() implies in_class(#[trigger] t[i], set@, ws) by {
            assert(t[i] == s@[i + a]);
        }
        if b > a {
            assert(t[b - a - 1] == s@[b - 1]);
        }
        lemma_trim_end_at(t, set@, ws, b - a);
        assert(t.subrange(0, b - a) =~= s@.subrange(a as int, b as int));
    }
    copy_range(s, a, b)
}

/// `str::trim` on characters.
pub fn trim_chars(s: &Vec<char>) -> (r: Vec<char>)
    ensures
        r@ == trim_spec(s@),
{
    let empty: Vec<char> = Vec::new();
    assert(empty@ =~= Seq::<char>::empty());
    trim_class(s, &empty, true)
}

/// `str::trim`, producing an owned string.
pub fn trim(s: &str) -> (r: String)
    ensures
        r@ == trim_spec(s@),
{
    let v = chars_of(s);
    let t = trim_chars(&v);
    string_from_chars(&t)
}

/// Is `s` blank, i.e. empty after `trim`?
pub fn is_blank(s: &str) -> (r: bool)
    ensures
        r == (trim_spec(s@).len() == 0),
{
    let v = chars_of(s);
    let t = trim_chars(&v);
    t.len() == 0
}

/// Does `s` contain character `c`?
pub fn contains_char(s: &Vec<char>, c: char) -> (r: bool)
    ensures
        r == s@.contains(c),
{
    let mut i: usize = 0;
    while i < s.len()
        invariant
            i <= s.len(),
            forall|j: int| 0 <= j < i ==> s@[j] != c,
        decreases s.len() - i,
    {
        if s[i] == c {
            assert(s@[i as int] == c);
            return true;
        }
        i = i + 1;
    }
    false
}

/// Does `s` start with `prefix`?
pub open spec fn has_prefix(s: Seq<char>, prefix: Seq<char>) -> bool {
    prefix.len() <= s.len() && s.subrange(0, prefix.len() as int) == prefix
}

/// `str::starts_with`.
pub fn starts_with(s: &Vec<char>, prefix: &Vec<char>) -> (r: bool)
    ensures
        r == has_prefix(s@, prefix@),
{
    if prefix.len() > s.len() {
        return false;
    }
    let mut i: usize = 0;
    while i < prefix.len()
        invariant
            i <= prefix.len() <= s.len(),
            forall|j: int| 0 <= j < i ==> s@[j] == prefix@[j],
        decreases prefix.len() - i,
    {
        if s[i] != prefix[i] {
            assert(s@.subrange(0, prefix.len() as int)[i as int] != prefix@[i as int]);
            return false;
        }
        i = i + 1;
    }
    assert(s@.subrange(0, prefix.len() as int) =~= prefix@);
    true
}

/// `char::to_ascii_lowercase`.
pub open spec fn ascii_lower(c: char) -> char {
    if 'A' <= c <= 'Z' {
        ((c as u32) + 32) as char
    } else {
        c
    }
}

/// `str::to_ascii_lowercase`.
pub open spec fn ascii_lower_seq(s: Seq<char>) -> Seq<char> {
    s.map_values(|c: char| ascii_lower(c))
}

/// `char::to_ascii_lowercase`.
pub fn to_ascii_lower(c: char) -> (r: char)
    ensures
        r == ascii_lower(c),
{
    if 'A' <= c && c <= 'Z' {
        let v: u32 = c as u32 + 32;
        assert(v < 0xD800);
        char_from_ascii_code(v)
    } else {
        c
    }
}

/// The ASCII character with code `v`.
fn char_from_ascii_code(v: u32) -> (r: char)
    requires
        v < 128,
    ensures
        r == v as char,
{
    let b: u8 = v as u8;
    b as char
}

/// `str::to_ascii_lowercase` on characters.
pub fn to_ascii_lowercase(s: &Vec<char>) -> (r: Vec<char>)
    ensures
        r@ == ascii_lower_seq(s@),
{
    let mut r: Vec<char> = Vec::new();
    let mut i: usize = 0;
    while i < s.len()
        invariant
            i <= s.len(),
            r@ == ascii_lower_seq(s@.subrange(0, i as int)),
        decreases s.len() - i,
    {
        r.push(to_ascii_lower(s[i]));
        assert(ascii_lower_seq(s@.subrange(0, i + 1)) =~= ascii_lower_seq(s@.subrange(0, i as int)).push(
            ascii_lower(s@[i as int]),
        ));
        i = i + 1;
    }
    assert(s@.subrange(0, s.len() as int) =~= s@);
    r
}

/// `str::eq_ignore_ascii_case`.
pub open spec fn eq_ignore_ascii_case_spec(a: Seq<char>, b: Seq<char>) -> bool {
    ascii_lower_seq(a) == ascii_lower_seq(b)
}

/// `str::eq_ignore_ascii_case`.
pub fn eq_ignore_ascii_case(a: &str, b: &str) -> (r: bool)
    ensures
        r == eq_ignore_ascii_case_spec(a@, b@),
{
    let va = chars_of(a);
    let vb = chars_of(b);
    if va.len() != vb.len() {
        assert(ascii_lower_seq(a@).len() != ascii_lower_seq(b@).len());
        return false;
    }
    let mut i: usize = 0;
    while i < va.len()
        invariant
            i <= va.len() == vb.len(),
            va@ == a@,
            vb@ == b@,
            forall|j: int| 0 <= j < i ==> ascii_lower(va@[j]) == ascii_lower(vb@[j]),
        decreases va.len() - i,
    {
        if to_ascii_lower(va[i]) != to_ascii_lower(vb[i]) {
            assert(ascii_lower_seq(a@)[i as int] != ascii_lower_seq(b@)[i as int]);
            return false;
        }
        i = i + 1;
    }
    assert(ascii_lower_seq(a@) =~= ascii_lower_seq(b@));
    true
}

/// Byte-wise (equivalently, code-point-wise) lexicographic order of `str`.
pub open spec fn lex_lt(a: Seq<char>, b: Seq<char>) -> bool
    decreases a.len(),
{
    if a.len() == 0 {
        b.len() > 0
    } else if b.len() == 0 {
        false
    } else if a[0] != b[0] {
        a[0] < b[0]
    } else {
        lex_lt(a.drop_first(), b.drop_first())
    }
}

pub open spec fn lex_le(a: Seq<char>, b: Seq<char>) -> bool {
    lex_lt(a, b) || a == b
}

pub proof fn lemma_lex_irreflexive(a: Seq<char>)
    ensures
        !lex_lt(a, a),
    decreases a.len(),
{
    if a.len() > 0 {
        lemma_lex_irreflexive(a.drop_first());
    }
}

pub proof fn lemma_lex_total(a: Seq<char>, b: Seq<char>)
    ensures
        lex_lt(a, b) || lex_lt(b, a) || a == b,
    decreases a.len(),
{
    if a.len() > 0 && b.len() > 0 {
        if a[0] == b[0] {
            lemma_lex_total(a.drop_first(), b.drop_first());
            if a.drop_first() == b.drop_first() {
                assert(a =~= seq![a[0]] + a.drop_first());
                assert(b =~= seq![b[0]] + b.drop_first());
            }
        }
    } else if a.len() == 0 && b.len() == 0 {
        assert(a =~= b);
    }
}

pub proof fn lemma_lex_asymmetric(a: Seq<char>, b: Seq<char>)
    ensures
        !(lex_lt(a, b) && lex_lt(b, a)),
    decreases a.len(),
{
    if a.len() > 0 && b.len() > 0 && a[0] == b[0] {
        lemma_lex_asymmetric(a.drop_first(), b.drop_first());
    }
}

pub proof fn lemma_lex_transitive(a: Seq<char>, b: Seq<char>, c: Seq<char>)
    requires
        lex_lt(a, b),
        lex_lt(b, c),
    ensures
        lex_lt(a, c),
    decreases a.len(),
{
    if a.len() > 0 && b.len() > 0 && c.len() > 0 {
        if a[0] == b[0] && b[0] == c[0] {
            lemma_lex_transitive(a.drop_first(), b.drop_first(), c.drop_first());
        }
    }
}

/// Strict lexicographic comparison of two strings.
pub fn lex_less(a: &Vec<char>, b: &Vec<char>) -> (r: bool)
    ensures
        r == lex_lt(a@, b@),
{
    let mut i: usize = 0;
    assert(a@.skip(0) =~= a@);
    assert(b@.skip(0) =~= b@);
    while i < a.len() && i < b.len()
        invariant
            i <= a.len(),
            i <= b.len(),
            forall|j: int| 0 <= j < i ==> a@[j] == b@[j],
            lex_lt(a@, b@) == lex_lt(a@.skip(i as int), b@.skip(i as int)),
        decreases a.len() - i,
    {
        if a[i] != b[i] {
            return a[i] < b[i];
        }
        assert(a@.skip(i as int).drop_first() =~= a@.skip(i + 1));
        assert(b@.skip(i as int).drop_first() =~= b@.skip(i + 1));
        i = i + 1;
    }
    i == a.len() && i < b.len()
}

/// Decimal digits.
pub open spec fn digit_char(d: int) -> char {
    seq!['0', '1', '2', '3', '4', '5', '6', '7', '8', '9'][d]
}

/// Decimal representation of a natural number, as `u64::to_string` writes it.
pub open spec fn decimal(n: nat) -> Seq<char>
    decreases n,
{
    if n < 10 {
        seq![digit_char(n as int)]
    } else {
        decimal(n / 10).push(digit_char((n % 10) as int))
    }
}

const DIGITS: [char; 10] = ['0', '1', '2', '3', '4', '5', '6', '7', '8', '9'];

/// Decimal representation of `n` as characters.
pub fn decimal_chars(n: u64) -> (r: Vec<char>)
    ensures
        r@ == decimal(n as nat),
    decreases n,
{
    assert(DIGITS@ =~= seq!['0', '1', '2', '3', '4', '5', '6', '7', '8', '9']);
    if n < 10 {
        let mut r: Vec<char> = Vec::new();
        r.push(DIGITS[n as usize]);
        assert(r@ =~= seq![digit_char(n as int)]);
        r
    } else {
        let mut r = decimal_chars(n / 10);
        r.push(DIGITS[(n % 10) as usize]);
        r
    }
}

/// Append the characters of `b` to `a`.
pub fn append_chars(a: &mut Vec<char>, b: &Vec<char>)
    ensures
        final(a)@ == old(a)@ + b@,
{
    let mut i: usize = 0;
    let ghost start = a@;
    while i < b.len()
        invariant
            i <= b.len(),
            a@ == start + b@.subrange(0, i as int),
        decreases b.len() - i,
    {
        a.push(b[i]);
        assert(a@ =~= start + b@.subrange(0, i + 1));
        i = i + 1;
    }
    assert(b@.subrange(0, b.len() as int) =~= b@);
}

/// Append the characters of `b` to `a`.
pub fn append_str(a: &mut Vec<char>, b: &str)
    ensures
        final(a)@ == old(a)@ + b@,
{
    let v = chars_of(b);
    append_chars(a, &v);
}

/// `str::replace(pattern, to)`: non-overlapping occurrences, left to right.
pub open spec fn replace_spec(s: Seq<char>, pattern: Seq<char>, to: Seq<char>) -> Seq<char>
    decreases s.len(),
{
    if s.len() == 0 || pattern.len() == 0 {
        s
    } else if has_prefix(s, pattern) {
        to + replace_spec(s.skip(pattern.len() as int), pattern, to)
    } else {
        seq![s[0]] + replace_spec(s.drop_first(), pattern, to)
    }
}

pub proof fn lemma_replace_step(s: Seq<char>, pattern: Seq<char>, to: Seq<char>, i: int)
    requires
        pattern.len() > 0,
        0 <= i < s.len(),
    ensures
        has_prefix(s.skip(i), pattern) ==> replace_spec(s.skip(i), pattern, to) == to
            + replace_spec(s.skip(i + pattern.len()), pattern, to),
        !has_prefix(s.skip(i), pattern) ==> replace_spec(s.skip(i), pattern, to) == seq![s[i]]
            + replace_spec(s.skip(i + 1), pattern, to),
{
    let t = s.skip(i);
    if has_prefix(t, pattern) {
        assert(t.skip(pattern.len() as int) =~= s.skip(i + pattern.len()));
    } else {
        assert(t.drop_first() =~= s.skip(i + 1));
    }
}

/// `str::replace`.
pub fn replace(s: &Vec<char>, pattern: &Vec<char>, to: &Vec<char>) -> (r: Vec<char>)
    ensures
        r@ == replace_spec(s@, pattern@, to@),
{
    if pattern.len() == 0 {
        return copy_range(s, 0, s.len());
    }
    let mut out: Vec<char> = Vec::new();
    let mut i: usize = 0;
    assert(s@.skip(0) =~= s@);
    assert(out@ + replace_spec(s@, pattern@, to@) =~= replace_spec(s@, pattern@, to@));
    while i < s.len()
        invariant
            pattern.len() > 0,
            i <= s.len(),
            out@ + replace_spec(s@.skip(i as int), pattern@, to@) == replace_spec(
                s@,
                pattern@,
                to@,
            ),
        decreases s.len() - i,
    {
        let ghost before = out@;
        proof {
            lemma_replace_step(s@, pattern@, to@, i as int);
        }
        let rest_matches = if pattern.len() <= s.len() - i {
            matches_at(s, pattern, i)
        } else {
            false
        };
        proof {
            if pattern.len() > s.len() - i {
                assert(!has_prefix(s@.skip(i as int), pattern@));
            }
        }
        if rest_matches {
            append_chars(&mut out, to);
            assert(out@ + replace_spec(s@.skip(i + pattern.len()), pattern@, to@) =~= before + (
            to@ + replace_spec(s@.skip(i + pattern.len()), pattern@, to@)));
            i = i + pattern.len();
        } else {
            out.push(s[i]);
            assert(out@ + replace_spec(s@.skip(i + 1), pattern@, to@) =~= before + (seq![s@[i as int]]
                + replace_spec(s@.skip(i + 1), pattern@, to@)));
            i = i + 1;
        }
    }
    assert(out@ + replace_spec(s@.skip(i as int), pattern@, to@) =~= out@);
    out
}

/// Does `pattern` occur in `s` at position `i`?
fn matches_at(s: &Vec<char>, pattern: &Vec<char>, i: usize) -> (r: bool)
    requires
        i + pattern.len() <= s.len(),
    ensures
        r == has_prefix(s@.skip(i as int), pattern@),
{
    let mut k: usize = 0;
    while k < pattern.len()
        invariant
            k <= pattern.len(),
            i + pattern.len() <= s.len(),
            forall|j: int| 0 <= j < k ==> s@[i + j] == pattern@[j],
        decreases pattern.len() - k,
    {
        if s[i + k] != pattern[k] {
            assert(s@.skip(i as int).subrange(0, pattern.len() as int)[k as int] != pattern@[k as int]);
            return false;
        }
        k = k + 1;
    }
    assert(s@.skip(i as int).subrange(0, pattern.len() as int) =~= pattern@);
    true
}


/// Equality of two string slices.
pub fn str_eq(a: &str, b: &str) -> (r: bool)
    ensures
        r == (a@ == b@),
{
    let va = chars_of(a);
    let vb = chars_of(b);
    chars_eq(&va, &vb)
}

/// Equality of two character vectors.
pub fn chars_eq(a: &Vec<char>, b: &Vec<char>) -> (r: bool)
    ensures
        r == (a@ == b@),
{
    if a.len() != b.len() {
        return false;
    }
    let mut i: usize = 0;
    while i < a.len()
        invariant
            i <= a.len() == b.len(),
            forall|j: int| 0 <= j < i ==> a@[j] == b@[j],
        decreases a.len() - i,
    {
        if a[i] != b[i] {
            return false;
        }
        i = i + 1;
    }
    assert(a@ =~= b@);
    true
}

/// `parts.join(sep)`.
pub open spec fn join_spec(parts: Seq<Seq<char>>, sep: Seq<char>) -> Seq<char>
    decreases parts.len(),
{
    if parts.len() == 0 {
        Seq::empty()
    } else if parts.len() == 1 {
        parts[0]
    } else {
        join_spec(parts.drop_last(), sep) + sep + parts.last()
    }
}

pub open spec fn char_vec_views(v: Seq<Vec<char>>) -> Seq<Seq<char>> {
    v.map_values(|c: Vec<char>| c@)
}

/// `parts.join(sep)` on character vectors.
pub fn join_chars(parts: &Vec<Vec<char>>, sep: &str) -> (r: Vec<char>)
    ensures
        r@ == join_spec(char_vec_views(parts@), sep@),
{
    let ghost v = char_vec_views(parts@);
    let mut out: Vec<char> = Vec::new();
    let mut i: usize = 0;
    assert(v.subrange(0, 0) =~= Seq::<Seq<char>>::empty());
    while i < parts.len()
        invariant
            i <= parts.len(),
            v == char_vec_views(parts@),
            out@ == join_spec(v.subrange(0, i as int), sep@),
        decreases parts.len() - i,
    {
        let ghost sub = v.subrange(0, i + 1);
        assert(sub.drop_last() =~= v.subrange(0, i as int));
        assert(sub.last() == parts@[i as int]@);
        if i > 0 {
            append_str(&mut out, sep);
        } else {
            assert(sub =~= seq![sub[0]]);
        }
        append_chars(&mut out, &parts[i]);
        assert(out@ =~= join_spec(sub, sep@));
        i = i + 1;
    }
    assert(v.subrange(0, parts.len() as int) =~= v);
    out
}

/// Index of the first `c` in `s`, or the length of `s` when there is none.
pub open spec fn index_of_char(s: Seq<char>, c: char) -> int
    decreases s.len(),
{
    if s.len() == 0 {
        0
    } else if s[0] == c {
        0
    } else {
        1 + index_of_char(s.drop_first(), c)
    }
}

/// The first index at which every earlier character differs from `c` and
/// `c` stands (or the end) is `index_of_char`.
pub proof fn lemma_index_of_char(s: Seq<char>, c: char, k: int)
    requires
        0 <= k <= s.len(),
        forall|i: int| 0 <= i < k ==> s[i] != c,
        k == s.len() || s[k] == c,
    ensures
        index_of_char(s, c) == k,
    decreases k,
{
    if k > 0 {
        let t = s.drop_first();
        assert forall|i: int| 0 <= i < k - 1 implies t[i] != c by {
            assert(t[i] == s[i + 1]);
        }
        assert(s[0] != c);
        lemma_index_of_char(t, c, k - 1);
    }
}

/// `str::split_once` with a one-character separator: the text before the
/// first separator and the text after it.
pub open spec fn split_once_spec(s: Seq<char>, c: char) -> Option<(Seq<char>, Seq<char>)> {
    let k = index_of_char(s, c);
    if k < s.len() {
        Some((s.take(k), s.skip(k + 1)))
    } else {
        None
    }
}

/// `str::split_once(sep)` producing owned halves.
pub fn split_once(s: &str, sep: char) -> (r: Option<(String, String)>)
    ensures
        match r {
            Some((a, b)) => split_once_spec(s@, sep) == Some((a@, b@)),
            None => split_once_spec(s@, sep) is None,
        },
{
    let v = chars_of(s);
    let mut k: usize = 0;
    while k < v.len() && v[k] != sep
        invariant
            k <= v.len(),
            forall|i: int| 0 <= i < k ==> v@[i] != sep,
        decreases v.len() - k,
    {
        k = k + 1;
    }
    proof {
        lemma_index_of_char(v@, sep, k as int);
    }
    if k < v.len() {
        let a = copy_range(&v, 0, k);
        let b = copy_range(&v, k + 1, v.len());
        assert(a@ =~= s@.take(k as int));
        assert(b@ =~= s@.skip(k + 1));
        Some((string_from_chars(&a), string_from_chars(&b)))
    } else {
        None
    }
}

/// Index of the first `'\n'` in `s`, or its length.
pub open spec fn newline_index(s: Seq<char>) -> int
    decreases s.len(),
{
    if s.len() == 0 {
        0
    } else if s[0] == '\n' {
        0
    } else {
        1 + newline_index(s.drop_first())
    }
}

pub proof fn lemma_newline_index(s: Seq<char>)
    ensures
        0 <= newline_index(s) <= s.len(),
        forall|i: int| 0 <= i < newline_index(s) ==> #[trigger] s[i] != '\n',
        newline_index(s) < s.len() ==> s[newline_index(s)] == '\n',
    decreases s.len(),
{
    if s.len() > 0 && s[0] != '\n' {
        lemma_newline_index(s.drop_first());
        assert forall|i: int| 0 <= i < newline_index(s) implies #[trigger] s[i] != '\n' by {
            if i > 0 {
                assert(s[i] == s.drop_first()[i - 1]);
            }
        }
    }
}

/// `k` is where the first `'\n'` of `s` stands (or its length).
pub proof fn lemma_newline_at(s: Seq<char>, k: int)
    requires
        0 <= k <= s.len(),
        forall|i: int| 0 <= i < k ==> s[i] != '\n',
        k == s.len() || s[k] == '\n',
    ensures
        newline_index(s) == k,
    decreases k,
{
    if k > 0 {
        let t = s.drop_first();
        assert forall|i: int| 0 <= i < k - 1 implies t[i] != '\n' by {
            assert(t[i] == s[i + 1]);
        }
        assert(s[0] != '\n');
        lemma_newline_at(t, k - 1);
    }
}


// ------------------------------------------------------------------------------------------
// Contiguous parts
// ------------------------------------------------------------------------------------------
/// Does `s` contain `p` as a contiguous part?
pub open spec fn contains_seq(s: Seq<char>, p: Seq<char>) -> bool {
    exists|i: int| 0 <= i && i + p.len() <= s.len() && #[trigger] s.subrange(i, i + p.len()) == p
}

/// `a + p + b` contains `p`.
pub proof fn lemma_contains_middle(a: Seq<char>, p: Seq<char>, b: Seq<char>)
    ensures
        contains_seq(a + p + b, p),
{
    let s = a + p + b;
    assert(s.subrange(a.len() as int, (a.len() + p.len()) as int) =~= p);
}

/// A part of a part is a part.
pub proof fn lemma_contains_trans(s: Seq<char>, t: Seq<char>, p: Seq<char>)
    requires
        contains_seq(s, t),
        contains_seq(t, p),
    ensures
        contains_seq(s, p),
{
    let i = choose|i: int| 0 <= i && i + t.len() <= s.len() && #[trigger] s.subrange(i, i + t.len()) == t;
    let j = choose|j: int| 0 <= j && j + p.len() <= t.len() && #[trigger] t.subrange(j, j + p.len()) == p;
    assert(s.subrange(i + j, i + j + p.len()) =~= t.subrange(j, j + p.len()));
}

/// Joining parts keeps each of them whole.
pub proof fn lemma_join_contains_part(parts: Seq<Seq<char>>, sep: Seq<char>, k: int)
    requires
        0 <= k < parts.len(),
    ensures
        contains_seq(join_spec(parts, sep), parts[k]),
    decreases parts.len(),
{
    if parts.len() == 1 {
        lemma_contains_middle(Seq::empty(), parts[0], Seq::empty());
        assert(Seq::<char>::empty() + parts[0] + Seq::<char>::empty() =~= parts[0]);
    } else if k == parts.len() - 1 {
        lemma_contains_middle(join_spec(parts.drop_last(), sep) + sep, parts.last(), Seq::empty());
        assert(join_spec(parts.drop_last(), sep) + sep + parts.last() + Seq::<char>::empty()
            =~= join_spec(parts, sep));
    } else {
        lemma_join_contains_part(parts.drop_last(), sep, k);
        assert(parts.drop_last()[k] == parts[k]);
        let front = join_spec(parts.drop_last(), sep);
        lemma_contains_middle(Seq::empty(), front, sep + parts.last());
        assert(Seq::<char>::empty() + front + (sep + parts.last()) =~= join_spec(parts, sep));
        lemma_contains_trans(join_spec(parts, sep), front, parts[k]);
    }
}
} // verus!
