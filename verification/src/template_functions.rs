//! Helper functions exposed to the templates: nested-key lookup over a
//! document value, camel-to-snake conversion, and lower-casing.

use vstd::prelude::*;

use crate::doc_tree::{obj_get, spec_obj_get, Doc, DocNode};
use crate::ident::{is_space_char, is_word_char, lower_char, lower_char_exec, push_char};

verus! {

/// Whether following `keys`, one object member at a time, stays inside the
/// document value.  An empty key list always succeeds.
pub open spec fn spec_key_exists(d: Doc, keys: Seq<String>) -> bool
    decreases keys.len(),
{
    if keys.len() == 0 {
        true
    } else {
        match d {
            Doc::Obj(es) => match spec_obj_get(es, keys[0]@) {
                Some(child) => spec_key_exists(child, keys.drop_first()),
                None => false,
            },
            _ => false,
        }
    }
}

/// Whether the nested path `keys` exists in `node`.
#[verifier::loop_isolation(false)]
pub fn key_exists(node: &DocNode, keys: &Vec<String>) -> (b: bool)
    ensures
        b == spec_key_exists(node@, keys@),
{
    let ghost kv = keys@;
    let mut cur: &DocNode = node;
    let n = keys.len();
    let mut i: usize = 0;
    proof {
        assert(kv.skip(0) =~= kv);
    }
    while i < n
        invariant
            i <= n,
            n == kv.len(),
            spec_key_exists(cur@, kv.skip(i as int)) == spec_key_exists(node@, kv),
        decreases n - i,
    {
        proof {
            assert(kv.skip(i as int)[0] == kv[i as int]);
            assert(kv.skip(i as int).drop_first() =~= kv.skip(i as int + 1));
        }
        match cur {
            DocNode::Obj(entries) => {
                match obj_get(entries, &keys[i]) {
                    Some(child) => {
                        cur = child;
                    },
                    None => {
                        return false;
                    },
                }
            },
            _ => {
                return false;
            },
        }
        i = i + 1;
    }
    proof {
        assert(kv.skip(n as int) =~= Seq::<String>::empty());
    }
    true
}

/// One step of camel-to-snake conversion: an upper-case letter is
/// lower-cased, preceded by `_` when the previous character was not
/// upper-case; any other character passes through.
pub open spec fn camel_snake_step(out: Seq<char>, prev_lower: bool, c: char) -> (Seq<char>, bool) {
    if 'A' <= c && c <= 'Z' {
        if prev_lower {
            (out.push('_').push(lower_char(c)), false)
        } else {
            (out.push(lower_char(c)), false)
        }
    } else {
        (out.push(c), true)
    }
}

/// Runs camel-to-snake conversion over `s`, left to right.
pub open spec fn camel_snake_run(s: Seq<char>, out: Seq<char>, prev_lower: bool) -> (Seq<char>, bool)
    decreases s.len(),
{
    if s.len() == 0 {
        (out, prev_lower)
    } else {
        let prev = camel_snake_run(s.drop_last(), out, prev_lower);
        camel_snake_step(prev.0, prev.1, s.last())
    }
}

/// Camel-to-snake conversion of a whole string.
pub open spec fn camel_snake_of(s: Seq<char>) -> Seq<char> {
    camel_snake_run(s, Seq::empty(), false).0
}

/// Converts a camel-case string to snake case: upper-case letters are
/// lower-cased and, after a non-upper-case character, preceded by `_`.
#[verifier::loop_isolation(false)]
pub fn camel_to_snake_case(input: &str) -> (r: String)
    ensures
        r@ == camel_snake_of(input@),
{
    let n = input.unicode_len();
    let mut out = String::new();
    let mut prev_lower = false;
    let mut i: usize = 0;
    while i < n
        invariant
            n == input@.len(),
            i <= n,
            (out@, prev_lower) == camel_snake_run(
                input@.take(i as int),
                Seq::<char>::empty(),
                false,
            ),
        decreases n - i,
    {
        let c = input.get_char(i);
        proof {
            assert(input@.take(i as int + 1).drop_last() =~= input@.take(i as int));
            assert(input@.take(i as int + 1).last() == input@[i as int]);
        }
        let u = c as u32;
        if 65 <= u && u <= 90 {
            if prev_lower {
                push_char(&mut out, '_');
            }
            push_char(&mut out, lower_char_exec(c));
            prev_lower = false;
        } else {
            push_char(&mut out, c);
            prev_lower = true;
        }
        i = i + 1;
    }
    proof {
        assert(input@.take(n as int) =~= input@);
    }
    out
}

/// The character-wise ASCII lower-casing of a string.
pub open spec fn ascii_lower_of(s: Seq<char>) -> Seq<char> {
    Seq::new(s.len(), |i: int| lower_char(s[i]))
}

/// Lower-cases a string, character by character.
#[verifier::loop_isolation(false)]
pub fn to_lower(input: &str) -> (r: String)
    ensures
        r@ == ascii_lower_of(input@),
{
    let n = input.unicode_len();
    let mut out = String::new();
    let mut i: usize = 0;
    while i < n
        invariant
            n == input@.len(),
            i <= n,
            out@ == ascii_lower_of(input@).take(i as int),
        decreases n - i,
    {
        let c = input.get_char(i);
        push_char(&mut out, lower_char_exec(c));
        proof {
            assert(out@ =~= ascii_lower_of(input@).take(i as int + 1));
        }
        i = i + 1;
    }
    proof {
        assert(ascii_lower_of(input@).take(n as int) =~= ascii_lower_of(input@));
    }
    out
}

} // verus!
