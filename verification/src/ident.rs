//! Identifier sanitization: normalizes arbitrary strings into valid
//! target-language identifiers, either `snake_case` or `CamelCase`.
//!
//! Characters outside the identifier charset and whitespace are stripped;
//! whitespace separates words.  In snake mode words are joined with `_` and
//! lower-cased; in camel mode each word is capitalized and the words are
//! concatenated.

use vstd::prelude::*;

verus! {

/// Characters accepted into generated identifiers: ASCII letters, digits and
/// underscore.
pub open spec fn is_word_char(c: char) -> bool {
    ('a' <= c && c <= 'z') || ('A' <= c && c <= 'Z') || ('0' <= c && c <= '9') || c == '_'
}

/// Whitespace that separates words during normalization.
pub open spec fn is_space_char(c: char) -> bool {
    c == ' ' || c == '\t' || c == '\n' || c == '\r'
}

/// ASCII lower-casing of a single character.
pub open spec fn lower_char(c: char) -> char {
    if 'A' <= c && c <= 'Z' {
        ((c as u32) + 32) as char
    } else {
        c
    }
}

/// ASCII upper-casing of a single character.
pub open spec fn upper_char(c: char) -> char {
    if 'a' <= c && c <= 'z' {
        ((c as u32) - 32) as char
    } else {
        c
    }
}

/// One step of snake-case normalization.  `pending` records that whitespace
/// was seen, so the next word character is preceded by `_` (unless the output
/// is still empty).
pub open spec fn snake_step(out: Seq<char>, pending: bool, c: char) -> (Seq<char>, bool) {
    if is_word_char(c) {
        if pending && out.len() > 0 {
            (out.push('_').push(lower_char(c)), false)
        } else {
            (out.push(lower_char(c)), false)
        }
    } else if is_space_char(c) {
        (out, true)
    } else {
        (out, pending)
    }
}

/// Runs snake-case normalization over `s`, left to right, from the given
/// state.
pub open spec fn snake_run(s: Seq<char>, out: Seq<char>, pending: bool) -> (Seq<char>, bool)
    decreases s.len(),
{
    if s.len() == 0 {
        (out, pending)
    } else {
        let prev = snake_run(s.drop_last(), out, pending);
        snake_step(prev.0, prev.1, s.last())
    }
}

/// Snake-case normalization of a whole string.
pub open spec fn snake_of(s: Seq<char>) -> Seq<char> {
    snake_run(s, Seq::empty(), false).0
}

/// One step of camel-case normalization.  `at_start` records that the next
/// word character starts a new word and is upper-cased.
pub open spec fn camel_step(out: Seq<char>, at_start: bool, c: char) -> (Seq<char>, bool) {
    if is_word_char(c) {
        if at_start {
            (out.push(upper_char(c)), false)
        } else {
            (out.push(c), false)
        }
    } else if is_space_char(c) {
        (out, true)
    } else {
        (out, at_start)
    }
}

/// Runs camel-case normalization over `s`, left to right, from the given
/// state.
pub open spec fn camel_run(s: Seq<char>, out: Seq<char>, at_start: bool) -> (Seq<char>, bool)
    decreases s.len(),
{
    if s.len() == 0 {
        (out, at_start)
    } else {
        let prev = camel_run(s.drop_last(), out, at_start);
        camel_step(prev.0, prev.1, s.last())
    }
}

/// Camel-case normalization of a whole string.
pub open spec fn camel_of(s: Seq<char>) -> Seq<char> {
    camel_run(s, Seq::empty(), true).0
}

/// What `validate_identifier_string` returns.
pub open spec fn spec_validate_identifier_string(s: Seq<char>, camel_case: bool) -> Seq<char> {
    if camel_case {
        camel_of(s)
    } else {
        snake_of(s)
    }
}

/// Relies on String::push: appends one character at the end of the string.
#[verifier::external_body]
pub(crate) fn push_char(s: &mut String, c: char)
    ensures
        final(s)@ == old(s)@.push(c),
{
    s.push(c);
}

pub(crate) fn is_word_char_exec(c: char) -> (b: bool)
    ensures
        b == is_word_char(c),
{
    let u = c as u32;
    (97 <= u && u <= 122) || (65 <= u && u <= 90) || (48 <= u && u <= 57) || u == 95
}

pub(crate) fn is_space_char_exec(c: char) -> (b: bool)
    ensures
        b == is_space_char(c),
{
    let u = c as u32;
    u == 32 || u == 9 || u == 10 || u == 13
}

pub(crate) fn lower_char_exec(c: char) -> (r: char)
    ensures
        r == lower_char(c),
{
    let u = c as u32;
    if 65 <= u && u <= 90 {
        ((c as u8) + 32) as char
    } else {
        c
    }
}

pub(crate) fn upper_char_exec(c: char) -> (r: char)
    ensures
        r == upper_char(c),
{
    let u = c as u32;
    if 97 <= u && u <= 122 {
        ((c as u8) - 32) as char
    } else {
        c
    }
}

fn snake_case_of(s: &str) -> (r: String)
    ensures
        r@ == snake_of(s@),
{
    let n = s.unicode_len();
    let mut out = String::new();
    let mut pending = false;
    let mut started = false;
    let mut i: usize = 0;
    while i < n
        invariant
            n == s@.len(),
            i <= n,
            (out@, pending) == snake_run(s@.take(i as int), Seq::<char>::empty(), false),
            started == (out@.len() > 0),
        decreases n - i,
    {
        let c = s.get_char(i);
        proof {
            assert(s@.take(i as int + 1).drop_last() =~= s@.take(i as int));
            assert(s@.take(i as int + 1).last() == s@[i as int]);
        }
        if is_word_char_exec(c) {
            if pending && started {
                push_char(&mut out, '_');
            }
            push_char(&mut out, lower_char_exec(c));
            pending = false;
            started = true;
        } else if is_space_char_exec(c) {
            pending = true;
        }
        i = i + 1;
    }
    proof {
        assert(s@.take(n as int) =~= s@);
    }
    out
}

fn camel_case_of(s: &str) -> (r: String)
    ensures
        r@ == camel_of(s@),
{
    let n = s.unicode_len();
    let mut out = String::new();
    let mut at_start = true;
    let mut i: usize = 0;
    while i < n
        invariant
            n == s@.len(),
            i <= n,
            (out@, at_start) == camel_run(s@.take(i as int), Seq::<char>::empty(), true),
        decreases n - i,
    {
        let c = s.get_char(i);
        proof {
            assert(s@.take(i as int + 1).drop_last() =~= s@.take(i as int));
            assert(s@.take(i as int + 1).last() == s@[i as int]);
        }
        if is_word_char_exec(c) {
            if at_start {
                push_char(&mut out, upper_char_exec(c));
            } else {
                push_char(&mut out, c);
            }
            at_start = false;
        } else if is_space_char_exec(c) {
            at_start = true;
        }
        i = i + 1;
    }
    proof {
        assert(s@.take(n as int) =~= s@);
    }
    out
}

/// Normalizes `s` into a valid identifier: strips characters outside the
/// identifier charset, then joins words with `_` lower-cased (snake mode) or
/// capitalizes and concatenates them (camel mode).
pub fn validate_identifier_string(s: &str, camel_case: bool) -> (r: String)
    ensures
        r@ == spec_validate_identifier_string(s@, camel_case),
{
    if camel_case {
        camel_case_of(s)
    } else {
        snake_case_of(s)
    }
}

/// Every character of `t` is an identifier character already in lower-fixed
/// form: lower-casing it changes nothing.
pub open spec fn all_snake_chars(t: Seq<char>) -> bool {
    forall|i: int|
        0 <= i < t.len() ==> is_word_char(#[trigger] t[i]) && lower_char(t[i]) == t[i]
}

/// Every character of `t` is an identifier character.
pub open spec fn all_word_chars(t: Seq<char>) -> bool {
    forall|i: int| 0 <= i < t.len() ==> is_word_char(#[trigger] t[i])
}

proof fn lemma_snake_run_chars(s: Seq<char>, out: Seq<char>, pending: bool)
    requires
        all_snake_chars(out),
    ensures
        all_snake_chars(snake_run(s, out, pending).0),
    decreases s.len(),
{
    if s.len() > 0 {
        lemma_snake_run_chars(s.drop_last(), out, pending);
    }
}

proof fn lemma_snake_run_fixed(t: Seq<char>, out: Seq<char>)
    requires
        all_snake_chars(t),
    ensures
        snake_run(t, out, false) == (out + t, false),
    decreases t.len(),
{
    if t.len() == 0 {
        assert(out + t =~= out);
    } else {
        assert(all_snake_chars(t.drop_last()));
        lemma_snake_run_fixed(t.drop_last(), out);
        assert((out + t.drop_last()).push(lower_char(t.last())) =~= out + t);
    }
}

proof fn lemma_camel_run_chars(s: Seq<char>, out: Seq<char>, at_start: bool)
    requires
        all_word_chars(out),
        out.len() > 0 ==> upper_char(out[0]) == out[0],
        out.len() == 0 ==> at_start,
    ensures
        ({
            let r = camel_run(s, out, at_start);
            &&& all_word_chars(r.0)
            &&& r.0.len() > 0 ==> upper_char(r.0[0]) == r.0[0]
            &&& r.0.len() == 0 ==> r.1
        }),
    decreases s.len(),
{
    if s.len() > 0 {
        lemma_camel_run_chars(s.drop_last(), out, at_start);
    }
}

proof fn lemma_camel_run_fixed(t: Seq<char>, out: Seq<char>, at_start: bool)
    requires
        all_word_chars(t),
        at_start && t.len() > 0 ==> upper_char(t[0]) == t[0],
    ensures
        t.len() == 0 ==> camel_run(t, out, at_start) == (out, at_start),
        t.len() > 0 ==> camel_run(t, out, at_start) == (out + t, false),
    decreases t.len(),
{
    if t.len() == 0 {
    } else if t.len() == 1 {
        assert(is_word_char(t[0]));
        assert(t.last() == t[0]);
        assert(camel_run(t.drop_last(), out, at_start) == (out, at_start));
        assert(out.push(t[0]) =~= out + t);
    } else {
        assert(all_word_chars(t.drop_last()));
        assert(t.drop_last()[0] == t[0]);
        lemma_camel_run_fixed(t.drop_last(), out, at_start);
        assert((out + t.drop_last()).push(t.last()) =~= out + t);
    }
}

/// Law: sanitization leaves only identifier characters — the result of
/// normalization consists of ASCII letters, digits and underscores alone.
pub proof fn lemma_sanitize_chars_valid(s: Seq<char>, camel_case: bool)
    ensures
        all_word_chars(spec_validate_identifier_string(s, camel_case)),
{
    if camel_case {
        lemma_camel_run_chars(s, Seq::empty(), true);
    } else {
        lemma_snake_run_chars(s, Seq::empty(), false);
        assert(all_word_chars(snake_of(s)));
    }
}

/// Law: sanitization is idempotent — normalizing an already-normalized string
/// yields it unchanged, in either naming convention.
pub proof fn lemma_sanitize_idempotent(s: Seq<char>, camel_case: bool)
    ensures
        spec_validate_identifier_string(
            spec_validate_identifier_string(s, camel_case),
            camel_case,
        ) == spec_validate_identifier_string(s, camel_case),
{
    if camel_case {
        let r = camel_of(s);
        lemma_camel_run_chars(s, Seq::empty(), true);
        lemma_camel_run_fixed(r, Seq::empty(), true);
        if r.len() > 0 {
            assert(Seq::<char>::empty() + r =~= r);
        } else {
            assert(camel_of(r) =~= r);
        }
    } else {
        let r = snake_of(s);
        lemma_snake_run_chars(s, Seq::empty(), false);
        lemma_snake_run_fixed(r, Seq::empty());
        assert(Seq::<char>::empty() + r =~= r);
    }
}

} // verus!
