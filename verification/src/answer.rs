//! Checking a typed answer against the definitions of a word: both sides
//! are normalised, and the answer counts as right when either contains the
//! other.

use vstd::prelude::*;
use crate::domain::Definition;
use crate::filters::{lemma_filter_all, lemma_filter_take_step};
use crate::text::{
    char_is_alphanumeric, char_is_whitespace, chars_of, is_alphanumeric, is_white_space,
    string_from_chars, to_lowercase, unicode_lowercase,
};

verus! {

/// `s` without its leading white space.
pub open spec fn strip_start(s: Seq<char>) -> Seq<char>
    decreases s.len(),
{
    if s.len() > 0 && is_white_space(s[0]) {
        strip_start(s.drop_first())
    } else {
        s
    }
}

/// `s` without its trailing white space.
pub open spec fn strip_end(s: Seq<char>) -> Seq<char>
    decreases s.len(),
{
    if s.len() > 0 && is_white_space(s.last()) {
        strip_end(s.drop_last())
    } else {
        s
    }
}

/// `s` without leading and trailing white space, as `str::trim` gives it.
pub open spec fn trimmed(s: Seq<char>) -> Seq<char> {
    strip_end(strip_start(s))
}

/// The characters that an answer keeps: letters, digits and white space.
pub open spec fn answer_char() -> spec_fn(char) -> bool {
    |c: char| is_alphanumeric(c) || is_white_space(c)
}

/// The normal form of a text: trimmed, lower-cased, stripped of everything
/// but letters, digits and white space, and trimmed again.
pub open spec fn normalized(text: Seq<char>) -> Seq<char> {
    trimmed(unicode_lowercase(trimmed(text)).filter(answer_char()))
}

/// `needle` occurs in `hay` as a contiguous run.
pub open spec fn occurs_in(needle: Seq<char>, hay: Seq<char>) -> bool {
    exists|i: int| 0 <= i && i + needle.len() <= hay.len() && #[trigger] hay.subrange(i, i + needle.len()) == needle
}

/// The answer (in normal form) matches a definition: the normal form of
/// the definition equals it, contains it, or is contained in it.
pub open spec fn answer_matches(answer: Seq<char>, d: Definition) -> bool {
    let dn = normalized(d.definition@);
    dn == answer || occurs_in(answer, dn) || occurs_in(dn, answer)
}

/// The characters `v[from..to]`.
fn copy_range(v: &Vec<char>, from: usize, to: usize) -> (r: Vec<char>)
    requires
        from <= to <= v@.len(),
    ensures
        r@ == v@.subrange(from as int, to as int),
{
    let mut r: Vec<char> = Vec::new();
    let mut i: usize = from;
    while i < to
        invariant
            from <= i <= to,
            to <= v@.len(),
            r@ == v@.subrange(from as int, i as int),
        decreases to - i,
    {
        r.push(v[i]);
        i = i + 1;
        assert(r@ =~= v@.subrange(from as int, i as int));
    }
    r
}

/// The characters without leading and trailing white space.
pub fn trim_chars(v: &Vec<char>) -> (r: Vec<char>)
    ensures
        r@ == trimmed(v@),
{
    let n = v.len();
    let mut a: usize = 0;
    assert(v@.subrange(0, n as int) =~= v@);
    while a < n && char_is_whitespace(v[a])
        invariant
            n == v@.len(),
            a <= n,
            strip_start(v@) == strip_start(v@.subrange(a as int, n as int)),
        decreases n - a,
    {
        assert(v@.subrange(a as int, n as int).drop_first() =~= v@.subrange(a + 1, n as int));
        a = a + 1;
    }
    let ghost front = v@.subrange(a as int, n as int);
    assert(strip_start(v@) == front);
    let mut b: usize = n;
    while b > a && char_is_whitespace(v[b - 1])
        invariant
            n == v@.len(),
            a <= b <= n,
            front == v@.subrange(a as int, n as int),
            strip_end(front) == strip_end(v@.subrange(a as int, b as int)),
        decreases b - a,
    {
        assert(v@.subrange(a as int, b as int).drop_last() =~= v@.subrange(a as int, b - 1));
        b = b - 1;
    }
    copy_range(v, a, b)
}

/// The normal form of a text: trimmed, lower-cased, stripped of everything
/// but letters, digits and white space, and trimmed again.
pub fn normalize(text: &str) -> (r: String)
    ensures
        r@ == normalized(text@),
{
    let v = normalize_chars(text);
    string_from_chars(&v)
}

/// The characters of the normal form of a text.
fn normalize_chars(text: &str) -> (r: Vec<char>)
    ensures
        r@ == normalized(text@),
{
    let outer = trim_chars(&chars_of(text));
    let lower = to_lowercase(string_from_chars(&outer).as_str());
    let chars = chars_of(lower.as_str());
    let mut kept: Vec<char> = Vec::new();
    let mut i: usize = 0;
    while i < chars.len()
        invariant
            i <= chars@.len(),
            kept@ == chars@.take(i as int).filter(answer_char()),
        decreases chars@.len() - i,
    {
        proof {
            lemma_filter_take_step(chars@, answer_char(), i as int);
        }
        let c = chars[i];
        if char_is_alphanumeric(c) || char_is_whitespace(c) {
            kept.push(c);
        }
        i = i + 1;
    }
    assert(chars@.take(chars@.len() as int) =~= chars@);
    trim_chars(&kept)
}

/// Whether `needle` occurs in `hay` as a contiguous run.
pub fn occurs(needle: &Vec<char>, hay: &Vec<char>) -> (r: bool)
    ensures
        r == occurs_in(needle@, hay@),
{
    let n = needle.len();
    let h = hay.len();
    if n > h {
        assert(!occurs_in(needle@, hay@));
        return false;
    }
    let mut i: usize = 0;
    while i <= h - n
        invariant
            n == needle@.len(),
            h == hay@.len(),
            n <= h,
            i <= h - n + 1,
            forall|k: int| 0 <= k < i ==> #[trigger] hay@.subrange(k, k + n) != needle@,
        decreases h - n + 1 - i,
    {
        let mut j: usize = 0;
        let mut same = true;
        while j < n
            invariant
                n == needle@.len(),
                h == hay@.len(),
                i + n <= h,
                j <= n,
                same == forall|m: int| 0 <= m < j ==> hay@[i + m] == needle@[m],
            decreases n - j,
        {
            if hay[i + j] != needle[j] {
                same = false;
            }
            j = j + 1;
        }
        if same {
            assert(hay@.subrange(i as int, i + n) =~= needle@);
            return true;
        }
        assert(hay@.subrange(i as int, i + n) != needle@) by {
            let m = choose|m: int| 0 <= m < n && hay@[i + m] != needle@[m];
            assert(hay@.subrange(i as int, i + n)[m] == hay@[i + m]);
        }
        i = i + 1;
    }
    assert(!occurs_in(needle@, hay@)) by {
        if occurs_in(needle@, hay@) {
            let k = choose|k: int| 0 <= k && k + needle@.len() <= hay@.len() && #[trigger] hay@.subrange(k, k + needle@.len()) == needle@;
            assert(hay@.subrange(k, k + n) != needle@);
        }
    }
    false
}

/// Whether two character sequences are equal.
fn same_chars(a: &Vec<char>, b: &Vec<char>) -> (r: bool)
    ensures
        r == (a@ == b@),
{
    if a.len() != b.len() {
        return false;
    }
    let mut i: usize = 0;
    while i < a.len()
        invariant
            a@.len() == b@.len(),
            i <= a@.len(),
            forall|k: int| 0 <= k < i ==> a@[k] == b@[k],
        decreases a@.len() - i,
    {
        if a[i] != b[i] {
            return false;
        }
        i = i + 1;
    }
    assert(a@ =~= b@);
    true
}

/// Checks an answer against the definitions of a word. The answer is
/// right when its normal form equals, contains or is contained in the
/// normal form of some definition; the first such definition is returned
/// with the verdict.
pub fn check_answer(user_answer: &str, definitions: &[Definition]) -> (r: (bool, Option<Definition>))
    ensures
        r.0 == r.1 is Some,
        r.0 == exists|i: int| 0 <= i < definitions@.len()
            && answer_matches(normalized(user_answer@), #[trigger] definitions@[i]),
        r.1 matches Some(d) ==> exists|k: int| 0 <= k < definitions@.len()
            && d == definitions@[k]
            && answer_matches(normalized(user_answer@), definitions@[k])
            && forall|j: int| 0 <= j < k ==> !answer_matches(normalized(user_answer@), #[trigger] definitions@[j]),
{
    let answer = normalize_chars(user_answer);
    let mut i: usize = 0;
    while i < definitions.len()
        invariant
            i <= definitions@.len(),
            answer@ == normalized(user_answer@),
            forall|j: int| 0 <= j < i ==> !answer_matches(answer@, #[trigger] definitions@[j]),
        decreases definitions@.len() - i,
    {
        let d = normalize_chars(definitions[i].definition.as_str());
        if same_chars(&d, &answer) || occurs(&answer, &d) || occurs(&d, &answer) {
            assert(answer_matches(answer@, definitions@[i as int]));
            return (true, Some(definitions[i].clone()));
        }
        i = i + 1;
    }
    (false, None)
}


/// `needle` stands in `hay` from position `k` on, character by character.
pub open spec fn stands_at(needle: Seq<char>, hay: Seq<char>, k: int) -> bool {
    &&& 0 <= k
    &&& k + needle.len() <= hay.len()
    &&& forall|m: int| 0 <= m < needle.len() ==> hay[k + m] == #[trigger] needle[m]
}

/// A run of characters occurs in a text exactly when it stands there at
/// some position, wherever that is.
pub proof fn lemma_occurs_at_a_position(needle: Seq<char>, hay: Seq<char>, i: int)
    ensures
        stands_at(needle, hay, i) ==> occurs_in(needle, hay),
        occurs_in(needle, hay) ==> exists|k: int| #[trigger] stands_at(needle, hay, k),
{
    if stands_at(needle, hay, i) {
        assert(hay.subrange(i, i + needle.len()) =~= needle);
    }
    if occurs_in(needle, hay) {
        let k = choose|k: int| 0 <= k && k + needle.len() <= hay.len() && #[trigger] hay.subrange(k, k + needle.len()) == needle;
        assert forall|m: int| 0 <= m < needle.len() implies hay[k + m] == #[trigger] needle[m] by {
            assert(hay.subrange(k, k + needle.len())[m] == hay[k + m]);
        }
        assert(stands_at(needle, hay, k));
    }
}

/// An answer is right against a definition when the normal form of either
/// stands anywhere in the normal form of the other: at the start, in the
/// middle or at the end.
pub proof fn lemma_contained_answer_is_right(answer: Seq<char>, d: Definition, i: int)
    ensures
        stands_at(normalized(answer), normalized(d.definition@), i) ==> answer_matches(normalized(answer), d),
        stands_at(normalized(d.definition@), normalized(answer), i) ==> answer_matches(normalized(answer), d),
{
    lemma_occurs_at_a_position(normalized(answer), normalized(d.definition@), i);
    lemma_occurs_at_a_position(normalized(d.definition@), normalized(answer), i);
}

/// An answer matches a definition exactly when the normal form of one of
/// them stands somewhere in the normal form of the other.
pub proof fn lemma_match_is_containment(answer: Seq<char>, d: Definition)
    ensures
        answer_matches(normalized(answer), d) <==>
            (exists|k: int| #[trigger] stands_at(normalized(answer), normalized(d.definition@), k))
            || (exists|k: int| #[trigger] stands_at(normalized(d.definition@), normalized(answer), k)),
{
    let a = normalized(answer);
    let t = normalized(d.definition@);
    lemma_occurs_at_a_position(a, t, 0);
    lemma_occurs_at_a_position(t, a, 0);
    if t == a {
        assert(stands_at(a, t, 0));
    }
    if exists|k: int| #[trigger] stands_at(a, t, k) {
        let k = choose|k: int| #[trigger] stands_at(a, t, k);
        lemma_occurs_at_a_position(a, t, k);
    }
    if exists|k: int| #[trigger] stands_at(t, a, k) {
        let k = choose|k: int| #[trigger] stands_at(t, a, k);
        lemma_occurs_at_a_position(t, a, k);
    }
}

/// So `check_answer` accepts an answer whose normal form stands anywhere in
/// the normal form of one of the definitions, or the other way round.
pub proof fn lemma_contained_answer_is_accepted(answer: Seq<char>, definitions: Seq<Definition>, j: int, i: int)
    requires
        0 <= j < definitions.len(),
        stands_at(normalized(answer), normalized(definitions[j].definition@), i)
            || stands_at(normalized(definitions[j].definition@), normalized(answer), i),
    ensures
        exists|k: int| 0 <= k < definitions.len() && answer_matches(normalized(answer), #[trigger] definitions[k]),
{
    lemma_contained_answer_is_right(answer, definitions[j], i);
}

/// An answer that repeats a definition word for word is right.
pub proof fn lemma_verbatim_answer_is_right(user_answer: Seq<char>, definitions: Seq<Definition>, i: int)
    requires
        0 <= i < definitions.len(),
        definitions[i].definition@ == user_answer,
    ensures
        exists|j: int| 0 <= j < definitions.len()
            && answer_matches(normalized(user_answer), #[trigger] definitions[j]),
{
    assert(answer_matches(normalized(user_answer), definitions[i]));
}

/// Stripping leading white space keeps a suffix of the text that is empty
/// or starts with another character; the result gives where it starts.
proof fn lemma_strip_start_shape(s: Seq<char>) -> (k: int)
    ensures
        0 <= k <= s.len(),
        strip_start(s) == s.subrange(k, s.len() as int),
        strip_start(s).len() == 0 || !is_white_space(strip_start(s)[0]),
        forall|i: int| 0 <= i < k ==> is_white_space(#[trigger] s[i]),
    decreases s.len(),
{
    if s.len() > 0 && is_white_space(s[0]) {
        let k = lemma_strip_start_shape(s.drop_first());
        assert(s.drop_first().subrange(k, s.drop_first().len() as int) =~= s.subrange(k + 1, s.len() as int));
        assert forall|i: int| 0 <= i < k + 1 implies is_white_space(#[trigger] s[i]) by {
            if i > 0 {
                assert(s[i] == s.drop_first()[i - 1]);
            }
        }
        k + 1
    } else {
        assert(s.subrange(0, s.len() as int) =~= s);
        0
    }
}

/// Stripping trailing white space keeps a prefix of the text that is empty
/// or ends with another character; the result gives where it ends.
proof fn lemma_strip_end_shape(s: Seq<char>) -> (k: int)
    ensures
        0 <= k <= s.len(),
        strip_end(s) == s.subrange(0, k),
        strip_end(s).len() == 0 || !is_white_space(strip_end(s).last()),
        forall|i: int| k <= i < s.len() ==> is_white_space(#[trigger] s[i]),
    decreases s.len(),
{
    if s.len() > 0 && is_white_space(s.last()) {
        let k = lemma_strip_end_shape(s.drop_last());
        assert(s.drop_last().subrange(0, k) =~= s.subrange(0, k));
        assert forall|i: int| k <= i < s.len() implies is_white_space(#[trigger] s[i]) by {
            if i < s.len() - 1 {
                assert(s[i] == s.drop_last()[i]);
            }
        }
        k
    } else {
        assert(s.subrange(0, s.len() as int) =~= s);
        s.len() as int
    }
}

/// Trimming keeps a run of the text: everything before and after it is
/// white space, the run neither starts nor ends with white space, and
/// trimming it again changes nothing.
pub proof fn lemma_trimmed_shape(s: Seq<char>) -> (ab: (int, int))
    ensures
        0 <= ab.0 <= ab.1 <= s.len(),
        trimmed(s) == s.subrange(ab.0, ab.1),
        forall|i: int| 0 <= i < ab.0 ==> is_white_space(#[trigger] s[i]),
        forall|i: int| ab.1 <= i < s.len() ==> is_white_space(#[trigger] s[i]),
        trimmed(s).len() > 0 ==> !is_white_space(trimmed(s)[0]) && !is_white_space(trimmed(s).last()),
        trimmed(trimmed(s)) == trimmed(s),
{
    let y = strip_start(s);
    let a = lemma_strip_start_shape(s);
    let b = lemma_strip_end_shape(y);
    let z = strip_end(y);
    assert(z =~= s.subrange(a, a + b));
    if z.len() > 0 {
        assert(z[0] == y[0]);
        assert(strip_start(z) == z);
    } else {
        assert(strip_start(z) == z);
    }
    assert(strip_end(z) == z);
    assert forall|i: int| a + b <= i < s.len() implies is_white_space(#[trigger] s[i]) by {
        assert(s[i] == y[i - a]);
    }
    (a, a + b)
}

/// The normal form of a text holds only letters, digits and white space,
/// neither starts nor ends with white space, and is a run of the lower-cased
/// text with everything else left out.
pub proof fn lemma_normal_form_shape(text: Seq<char>)
    ensures
        forall|i: int| 0 <= i < normalized(text).len()
            ==> is_alphanumeric(#[trigger] normalized(text)[i]) || is_white_space(normalized(text)[i]),
        normalized(text).len() > 0 ==> !is_white_space(normalized(text)[0])
            && !is_white_space(normalized(text).last()),
        forall|c: char| #[trigger] answer_char()(c) == (is_alphanumeric(c) || is_white_space(c)),
        ({
            let f = unicode_lowercase(trimmed(text)).filter(answer_char());
            exists|a: int, b: int| 0 <= a <= b <= f.len() && normalized(text) == #[trigger] f.subrange(a, b)
                && (forall|i: int| 0 <= i < a ==> is_white_space(#[trigger] f[i]))
                && (forall|i: int| b <= i < f.len() ==> is_white_space(#[trigger] f[i]))
        }),
{
    let f = unicode_lowercase(trimmed(text)).filter(answer_char());
    let (a, b) = lemma_trimmed_shape(f);
    assert(normalized(text) == f.subrange(a, b));
    f.filter_lemma(answer_char());
    assert forall|i: int| 0 <= i < normalized(text).len()
        implies is_alphanumeric(#[trigger] normalized(text)[i]) || is_white_space(normalized(text)[i]) by {
        assert(normalized(text)[i] == f[a + i]);
        assert(answer_char()(f[a + i]));
    }
}

/// Normalising a normal form again changes nothing, as long as lower-casing
/// leaves the normal form as it is (the lower-case mapping applied to text
/// that it produced); so an answer and its normal form are checked alike.
pub proof fn lemma_normalized_is_stable(text: Seq<char>)
    requires
        unicode_lowercase(normalized(text)) == normalized(text),
    ensures
        normalized(normalized(text)) == normalized(text),
        forall|d: Definition| #[trigger] answer_matches(normalized(normalized(text)), d)
            == answer_matches(normalized(text), d),
{
    let f = unicode_lowercase(trimmed(text)).filter(answer_char());
    let n = normalized(text);
    let (a, b) = lemma_trimmed_shape(f);
    f.filter_lemma(answer_char());
    assert forall|i: int| 0 <= i < n.len() implies answer_char()(#[trigger] n[i]) by {
        assert(n[i] == f[a + i]);
    }
    lemma_filter_all(n, answer_char());
    assert(trimmed(n) == n);
}

} // verus!
