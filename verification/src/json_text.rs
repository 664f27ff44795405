//! Rendering a document tree back into JSON text.
//!
//! Strings are escaped the way common JSON emitters escape them: quote,
//! backslash and the named control characters get two-character escapes, any
//! other control character a `\u00..` escape.  Numbers keep the lexical form
//! they carry in the tree.

use vstd::prelude::*;

use crate::doc_tree::{lemma_view_arr, lemma_view_obj, view_arr, view_obj, Doc, DocNode};
use crate::ident::push_char;

verus! {

/// Hex digit for a value below sixteen, lower case.
pub open spec fn hex_digit(n: nat) -> char {
    if n < 10 {
        (('0' as u32) + n) as char
    } else {
        (('a' as u32) + (n - 10)) as char
    }
}

/// The escape of one string character.
pub open spec fn esc_char(c: char) -> Seq<char> {
    if c == '"' {
        seq!['\\', '"']
    } else if c == '\\' {
        seq!['\\', '\\']
    } else if c as u32 == 8 {
        seq!['\\', 'b']
    } else if c as u32 == 12 {
        seq!['\\', 'f']
    } else if c == '\n' {
        seq!['\\', 'n']
    } else if c == '\r' {
        seq!['\\', 'r']
    } else if c == '\t' {
        seq!['\\', 't']
    } else if (c as u32) < 32 {
        seq!['\\', 'u', '0', '0', hex_digit((c as u32 / 16) as nat), hex_digit((c as u32 % 16) as nat)]
    } else {
        seq![c]
    }
}

/// The escape of a whole string body.
pub open spec fn escape(s: Seq<char>) -> Seq<char>
    decreases s.len(),
{
    if s.len() == 0 {
        Seq::empty()
    } else {
        escape(s.drop_last()) + esc_char(s.last())
    }
}

/// JSON text of one document value.
pub open spec fn json_text(d: Doc) -> Seq<char>
    decreases d,
{
    match d {
        Doc::Null => "null"@,
        Doc::Bool(b) => if b {
            "true"@
        } else {
            "false"@
        },
        Doc::Num(s) => s,
        Doc::Str(s) => seq!['"'] + escape(s) + seq!['"'],
        Doc::Arr(xs) => seq!['['] + arr_text(xs) + seq![']'],
        Doc::Obj(es) => seq!['{'] + obj_text(es) + seq!['}'],
    }
}

/// JSON text of array elements, comma-separated.
pub open spec fn arr_text(s: Seq<Doc>) -> Seq<char>
    decreases s,
{
    if s.len() == 0 {
        Seq::empty()
    } else if s.len() == 1 {
        json_text(s.last())
    } else {
        arr_text(s.drop_last()) + seq![','] + json_text(s.last())
    }
}

/// JSON text of object members, comma-separated; each member is the quoted
/// escaped key, a colon, and the value's text.
pub open spec fn obj_text(s: Seq<(Seq<char>, Doc)>) -> Seq<char>
    decreases s,
{
    if s.len() == 0 {
        Seq::empty()
    } else if s.len() == 1 {
        seq!['"'] + escape(s.last().0) + seq!['"'] + seq![':'] + json_text(s.last().1)
    } else {
        obj_text(s.drop_last()) + seq![','] + seq!['"'] + escape(s.last().0) + seq!['"'] + seq![':']
            + json_text(s.last().1)
    }
}

fn hex_digit_exec(n: u32) -> (r: char)
    requires
        n < 16,
    ensures
        r == hex_digit(n as nat),
{
    if n < 10 {
        ((48 + n) as u8) as char
    } else {
        ((97 + (n - 10)) as u8) as char
    }
}

/// Appends the escaped form of `c` to `out`.
fn write_escaped_char(out: &mut String, c: char)
    ensures
        final(out)@ == old(out)@ + esc_char(c),
{
    let u = c as u32;
    if u == 34 {
        push_char(out, '\\');
        push_char(out, '"');
    } else if u == 92 {
        push_char(out, '\\');
        push_char(out, '\\');
    } else if u == 8 {
        push_char(out, '\\');
        push_char(out, 'b');
    } else if u == 12 {
        push_char(out, '\\');
        push_char(out, 'f');
    } else if u == 10 {
        push_char(out, '\\');
        push_char(out, 'n');
    } else if u == 13 {
        push_char(out, '\\');
        push_char(out, 'r');
    } else if u == 9 {
        push_char(out, '\\');
        push_char(out, 't');
    } else if u < 32 {
        push_char(out, '\\');
        push_char(out, 'u');
        push_char(out, '0');
        push_char(out, '0');
        push_char(out, hex_digit_exec(u / 16));
        push_char(out, hex_digit_exec(u % 16));
    } else {
        push_char(out, c);
    }
    proof {
        assert(final(out)@ =~= old(out)@ + esc_char(c));
    }
}

/// Appends the escaped form of `s` to `out`.
#[verifier::loop_isolation(false)]
fn write_escaped(out: &mut String, s: &str)
    ensures
        final(out)@ == old(out)@ + escape(s@),
{
    let n = s.unicode_len();
    let mut i: usize = 0;
    proof {
        assert(old(out)@ + escape(s@.take(0)) =~= old(out)@);
    }
    while i < n
        invariant
            n == s@.len(),
            i <= n,
            out@ == old(out)@ + escape(s@.take(i as int)),
        decreases n - i,
    {
        let c = s.get_char(i);
        proof {
            assert(s@.take(i as int + 1).drop_last() =~= s@.take(i as int));
            assert(s@.take(i as int + 1).last() == s@[i as int]);
        }
        write_escaped_char(out, c);
        proof {
            assert(out@ =~= old(out)@ + escape(s@.take(i as int + 1)));
        }
        i = i + 1;
    }
    proof {
        assert(s@.take(n as int) =~= s@);
    }
}

/// Appends the JSON text of `d` to `out`.
#[verifier::loop_isolation(false)]
pub fn write_json(out: &mut String, d: &DocNode)
    ensures
        final(out)@ == old(out)@ + json_text(d@),
    decreases d,
{
    match d {
        DocNode::Null => {
            out.append("null");
        },
        DocNode::Bool(b) => {
            if *b {
                out.append("true");
            } else {
                out.append("false");
            }
        },
        DocNode::Num(s) => {
            out.append(s.as_str());
        },
        DocNode::Str(s) => {
            push_char(out, '"');
            write_escaped(out, s.as_str());
            push_char(out, '"');
            proof {
                assert(out@ =~= old(out)@ + json_text(d@));
            }
        },
        DocNode::Arr(items) => {
            proof {
                lemma_view_arr(items@);
            }
            let ghost xs = view_arr(items@);
            push_char(out, '[');
            let n = items.len();
            let mut i: usize = 0;
            proof {
                assert(out@ =~= old(out)@ + seq!['['] + arr_text(xs.take(0)));
            }
            while i < n
                invariant
                    i <= n,
                    out@ == old(out)@ + seq!['['] + arr_text(xs.take(i as int)),
                decreases n - i,
            {
                proof {
                    assert(d->Arr_0 == *items);
                    assert(decreases_to!(*d => d->Arr_0));
                    assert(decreases_to!(d->Arr_0 => d->Arr_0@));
                    assert(decreases_to!(d->Arr_0@ => d->Arr_0@[i as int]));
                    assert(d->Arr_0@[i as int] == items@[i as int]);
                    assert(decreases_to!(*d => items@[i as int]));
                    assert(xs.take(i as int + 1).drop_last() =~= xs.take(i as int));
                    assert(xs.take(i as int + 1).last() == xs[i as int]);
                }
                if i > 0 {
                    push_char(out, ',');
                }
                write_json(out, &items[i]);
                proof {
                    assert(out@ =~= old(out)@ + seq!['['] + arr_text(xs.take(i as int + 1)));
                }
                i = i + 1;
            }
            push_char(out, ']');
            proof {
                assert(xs.take(n as int) =~= xs);
                assert(out@ =~= old(out)@ + json_text(d@));
            }
        },
        DocNode::Obj(entries) => {
            proof {
                lemma_view_obj(entries@);
            }
            let ghost es = view_obj(entries@);
            push_char(out, '{');
            let n = entries.len();
            let mut i: usize = 0;
            proof {
                assert(out@ =~= old(out)@ + seq!['{'] + obj_text(es.take(0)));
            }
            while i < n
                invariant
                    i <= n,
                    out@ == old(out)@ + seq!['{'] + obj_text(es.take(i as int)),
                decreases n - i,
            {
                proof {
                    assert(d->Obj_0 == *entries);
                    assert(decreases_to!(*d => d->Obj_0));
                    assert(decreases_to!(d->Obj_0 => d->Obj_0@));
                    assert(decreases_to!(d->Obj_0@ => d->Obj_0@[i as int]));
                    assert(decreases_to!(d->Obj_0@[i as int] => d->Obj_0@[i as int].1));
                    assert(d->Obj_0@[i as int].1 == entries@[i as int].1);
                    assert(decreases_to!(*d => entries@[i as int].1));
                    assert(es.take(i as int + 1).drop_last() =~= es.take(i as int));
                    assert(es.take(i as int + 1).last() == es[i as int]);
                }
                if i > 0 {
                    push_char(out, ',');
                }
                push_char(out, '"');
                write_escaped(out, entries[i].0.as_str());
                push_char(out, '"');
                push_char(out, ':');
                write_json(out, &entries[i].1);
                proof {
                    assert(out@ =~= old(out)@ + seq!['{'] + obj_text(es.take(i as int + 1)));
                }
                i = i + 1;
            }
            push_char(out, '}');
            proof {
                assert(es.take(n as int) =~= es);
                assert(out@ =~= old(out)@ + json_text(d@));
            }
        },
    }
}

/// The JSON text of `d` as a fresh string.
pub fn to_json_string(d: &DocNode) -> (r: String)
    ensures
        r@ == json_text(d@),
{
    let mut out = String::new();
    write_json(&mut out, d);
    proof {
        assert(out@ =~= json_text(d@));
    }
    out
}

} // verus!
