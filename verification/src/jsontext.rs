//! Compact textual rendering of a `JsonValue`, used as the normalizer's last
//! resort for values that carry no conventional display field.
use vstd::prelude::*;
use vstd::string::StrSliceExecFns;
use crate::json::{
    JsonValue, spec_count, spec_count_seq, spec_count_entries, lemma_count_seq_index,
    lemma_count_entries_index, lemma_count_seq_drop_last, lemma_count_entries_drop_last,
};
use crate::text::push_char;

verus! {

pub open spec fn hex_digit(n: nat) -> char {
    if n == 0 {
        '0'
    } else if n == 1 {
        '1'
    } else if n == 2 {
        '2'
    } else if n == 3 {
        '3'
    } else if n == 4 {
        '4'
    } else if n == 5 {
        '5'
    } else if n == 6 {
        '6'
    } else if n == 7 {
        '7'
    } else if n == 8 {
        '8'
    } else if n == 9 {
        '9'
    } else if n == 10 {
        'a'
    } else if n == 11 {
        'b'
    } else if n == 12 {
        'c'
    } else if n == 13 {
        'd'
    } else if n == 14 {
        'e'
    } else {
        'f'
    }
}

/// How one character appears inside a JSON string literal.
pub open spec fn esc_char(c: char) -> Seq<char> {
    if c == '"' {
        seq!['\\', '"']
    } else if c == '\\' {
        seq!['\\', '\\']
    } else if c == '\n' {
        seq!['\\', 'n']
    } else if c == '\r' {
        seq!['\\', 'r']
    } else if c == '\t' {
        seq!['\\', 't']
    } else if c == '\u{0008}' {
        seq!['\\', 'b']
    } else if c == '\u{000C}' {
        seq!['\\', 'f']
    } else if (c as u32) < 32 {
        seq!['\\', 'u', '0', '0', hex_digit(((c as u32) / 16) as nat), hex_digit(
            ((c as u32) % 16) as nat,
        )]
    } else {
        seq![c]
    }
}

pub open spec fn escape_str(s: Seq<char>) -> Seq<char>
    decreases s.len(),
{
    if s.len() == 0 {
        Seq::empty()
    } else {
        escape_str(s.drop_last()) + esc_char(s.last())
    }
}

/// A string as JSON writes it, quotes and escapes included.
pub open spec fn quoted(s: Seq<char>) -> Seq<char> {
    seq!['"'] + escape_str(s) + seq!['"']
}

pub open spec fn bool_str(b: bool) -> Seq<char> {
    if b {
        "true"@
    } else {
        "false"@
    }
}

/// The compact JSON text of a value.
pub open spec fn spec_json_text(v: JsonValue) -> Seq<char>
    decreases spec_count(v),
{
    match v {
        JsonValue::Null => "null"@,
        JsonValue::Bool(b) => bool_str(b),
        JsonValue::Number(s) => s@,
        JsonValue::Text(s) => quoted(s@),
        JsonValue::Array(items) => seq!['['] + spec_json_text_list(items@) + seq![']'],
        JsonValue::Object(entries) => seq!['{'] + spec_json_text_entries(entries@) + seq!['}'],
    }
}

pub open spec fn spec_json_text_list(s: Seq<JsonValue>) -> Seq<char>
    decreases spec_count_seq(s),
    via spec_json_text_list_dec
{
    if s.len() == 0 {
        Seq::empty()
    } else if s.len() == 1 {
        spec_json_text(s[0])
    } else {
        spec_json_text_list(s.drop_last()) + seq![','] + spec_json_text(s.last())
    }
}

#[via_fn]
proof fn spec_json_text_list_dec(s: Seq<JsonValue>) {
    if s.len() > 0 {
        lemma_count_seq_index(s, 0);
        lemma_count_seq_index(s, s.len() - 1);
        lemma_count_seq_drop_last(s);
    }
}

pub open spec fn spec_json_text_entries(s: Seq<(String, JsonValue)>) -> Seq<char>
    decreases spec_count_entries(s),
    via spec_json_text_entries_dec
{
    if s.len() == 0 {
        Seq::empty()
    } else if s.len() == 1 {
        quoted(s[0].0@) + seq![':'] + spec_json_text(s[0].1)
    } else {
        spec_json_text_entries(s.drop_last()) + seq![','] + quoted(s.last().0@) + seq![':']
            + spec_json_text(s.last().1)
    }
}

#[via_fn]
proof fn spec_json_text_entries_dec(s: Seq<(String, JsonValue)>) {
    if s.len() > 0 {
        lemma_count_entries_index(s, 0);
        lemma_count_entries_index(s, s.len() - 1);
        lemma_count_entries_drop_last(s);
    }
}

fn hex_digit_char(n: u32) -> (r: char)
    requires
        n < 16,
    ensures
        r == hex_digit(n as nat),
{
    if n == 0 {
        '0'
    } else if n == 1 {
        '1'
    } else if n == 2 {
        '2'
    } else if n == 3 {
        '3'
    } else if n == 4 {
        '4'
    } else if n == 5 {
        '5'
    } else if n == 6 {
        '6'
    } else if n == 7 {
        '7'
    } else if n == 8 {
        '8'
    } else if n == 9 {
        '9'
    } else if n == 10 {
        'a'
    } else if n == 11 {
        'b'
    } else if n == 12 {
        'c'
    } else if n == 13 {
        'd'
    } else if n == 14 {
        'e'
    } else {
        'f'
    }
}

/// Appends one character in its escaped form.
fn push_escaped(out: &mut String, c: char)
    ensures
        final(out)@ == old(out)@ + esc_char(c),
{
    if c == '"' {
        proof {
            reveal_strlit("\\\"");
        }
        out.append("\\\"");
        proof {
            assert("\\\""@ =~= seq!['\\', '"']);
        }
    } else if c == '\\' {
        proof {
            reveal_strlit("\\\\");
        }
        out.append("\\\\");
        proof {
            assert("\\\\"@ =~= seq!['\\', '\\']);
        }
    } else if c == '\n' {
        proof {
            reveal_strlit("\\n");
        }
        out.append("\\n");
        proof {
            assert("\\n"@ =~= seq!['\\', 'n']);
        }
    } else if c == '\r' {
        proof {
            reveal_strlit("\\r");
        }
        out.append("\\r");
        proof {
            assert("\\r"@ =~= seq!['\\', 'r']);
        }
    } else if c == '\t' {
        proof {
            reveal_strlit("\\t");
        }
        out.append("\\t");
        proof {
            assert("\\t"@ =~= seq!['\\', 't']);
        }
    } else if c == '\u{0008}' {
        proof {
            reveal_strlit("\\b");
        }
        out.append("\\b");
        proof {
            assert("\\b"@ =~= seq!['\\', 'b']);
        }
    } else if c == '\u{000C}' {
        proof {
            reveal_strlit("\\f");
        }
        out.append("\\f");
        proof {
            assert("\\f"@ =~= seq!['\\', 'f']);
        }
    } else if (c as u32) < 32 {
        proof {
            reveal_strlit("\\u00");
        }
        out.append("\\u00");
        let code: u32 = c as u32;
        push_char(out, hex_digit_char(code / 16));
        push_char(out, hex_digit_char(code % 16));
        proof {
            assert("\\u00"@ =~= seq!['\\', 'u', '0', '0']);
            assert(old(out)@ + "\\u00"@ + seq![hex_digit((code / 16) as nat)] + seq![
                hex_digit((code % 16) as nat),
            ] =~= old(out)@ + esc_char(c));
        }
    } else {
        push_char(out, c);
        proof {
            assert(old(out)@.push(c) =~= old(out)@ + seq![c]);
        }
    }
}

/// Appends a string in its quoted JSON form.
fn append_quoted(out: &mut String, s: &str)
    ensures
        final(out)@ == old(out)@ + quoted(s@),
{
    proof {
        reveal_strlit("\"");
    }
    out.append("\"");
    let n = s.unicode_len();
    let mut i: usize = 0;
    proof {
        assert("\""@ =~= seq!['"']);
        assert(escape_str(s@.subrange(0, 0)) =~= Seq::<char>::empty());
    }
    while i < n
        invariant
            n == s@.len(),
            i <= n,
            out@ == old(out)@ + seq!['"'] + escape_str(s@.subrange(0, i as int)),
        decreases n - i,
    {
        let c = s.get_char(i);
        push_escaped(out, c);
        proof {
            let pre = s@.subrange(0, i + 1);
            assert(pre.drop_last() =~= s@.subrange(0, i as int));
            assert(pre.last() == s@[i as int]);
        }
        i += 1;
    }
    out.append("\"");
    proof {
        assert(s@.subrange(0, n as int) =~= s@);
        assert(old(out)@ + seq!['"'] + escape_str(s@) + seq!['"'] =~= old(out)@ + quoted(s@));
    }
}

/// Renders a value as compact JSON text.
pub fn json_text(v: &JsonValue) -> (r: String)
    ensures
        r@ == spec_json_text(*v),
    decreases spec_count(*v),
{
    match v {
        JsonValue::Null => {
            let r = String::from_str("null");
            r
        },
        JsonValue::Bool(b) => {
            if *b {
                String::from_str("true")
            } else {
                String::from_str("false")
            }
        },
        JsonValue::Number(s) => s.clone(),
        JsonValue::Text(s) => {
            let mut out = String::new();
            append_quoted(&mut out, s.as_str());
            proof {
                assert(Seq::<char>::empty() + quoted(s@) =~= quoted(s@));
            }
            out
        },
        JsonValue::Array(items) => {
            proof {
                reveal_strlit("[");
                reveal_strlit("]");
                reveal_strlit(",");
            }
            let mut out = String::from_str("[");
            let n = items.len();
            let mut i: usize = 0;
            proof {
                assert("["@ =~= seq!['[']);
                assert(spec_json_text_list(items@.subrange(0, 0)) =~= Seq::<char>::empty());
                assert(out@ =~= seq!['['] + spec_json_text_list(items@.subrange(0, 0)));
            }
            while i < n
                invariant
                    *v == JsonValue::Array(*items),
                    n == items@.len(),
                    i <= n,
                    out@ == seq!['['] + spec_json_text_list(items@.subrange(0, i as int)),
                    ","@ =~= seq![','],
                decreases n - i,
            {
                if i > 0 {
                    out.append(",");
                }
                proof {
                    lemma_count_seq_index(items@, i as int);
                }
                let part = json_text(&items[i]);
                out.append(part.as_str());
                proof {
                    let pre = items@.subrange(0, i + 1);
                    assert(pre.drop_last() =~= items@.subrange(0, i as int));
                    assert(pre.last() == items@[i as int]);
                    if i == 0 {
                        assert(spec_json_text_list(pre) == spec_json_text(items@[0]));
                        assert(out@ =~= seq!['['] + spec_json_text_list(pre));
                    } else {
                        assert(spec_json_text_list(pre) == spec_json_text_list(pre.drop_last())
                            + seq![','] + spec_json_text(pre.last()));
                        assert(out@ =~= seq!['['] + spec_json_text_list(pre));
                    }
                }
                i += 1;
            }
            out.append("]");
            proof {
                assert(items@.subrange(0, n as int) =~= items@);
                assert("]"@ =~= seq![']']);
                assert(out@ =~= seq!['['] + spec_json_text_list(items@) + seq![']']);
            }
            out
        },
        JsonValue::Object(entries) => {
            proof {
                reveal_strlit("{");
                reveal_strlit("}");
                reveal_strlit(",");
                reveal_strlit(":");
            }
            let mut out = String::from_str("{");
            let n = entries.len();
            let mut i: usize = 0;
            proof {
                assert("{"@ =~= seq!['{']);
                assert(spec_json_text_entries(entries@.subrange(0, 0)) =~= Seq::<char>::empty());
                assert(out@ =~= seq!['{'] + spec_json_text_entries(entries@.subrange(0, 0)));
            }
            while i < n
                invariant
                    *v == JsonValue::Object(*entries),
                    n == entries@.len(),
                    i <= n,
                    out@ == seq!['{'] + spec_json_text_entries(entries@.subrange(0, i as int)),
                    ","@ =~= seq![','],
                    ":"@ =~= seq![':'],
                decreases n - i,
            {
                if i > 0 {
                    out.append(",");
                }
                append_quoted(&mut out, entries[i].0.as_str());
                out.append(":");
                proof {
                    lemma_count_entries_index(entries@, i as int);
                }
                let part = json_text(&entries[i].1);
                out.append(part.as_str());
                proof {
                    let pre = entries@.subrange(0, i + 1);
                    assert(pre.drop_last() =~= entries@.subrange(0, i as int));
                    assert(pre.last() == entries@[i as int]);
                    if i == 0 {
                        assert(spec_json_text_entries(pre) == quoted(entries@[0].0@) + seq![':']
                            + spec_json_text(entries@[0].1));
                        assert(out@ =~= seq!['{'] + spec_json_text_entries(pre));
                    } else {
                        assert(spec_json_text_entries(pre) == spec_json_text_entries(
                            pre.drop_last(),
                        ) + seq![','] + quoted(pre.last().0@) + seq![':'] + spec_json_text(
                            pre.last().1,
                        ));
                        assert(out@ =~= seq!['{'] + spec_json_text_entries(pre));
                    }
                }
                i += 1;
            }
            out.append("}");
            proof {
                assert(entries@.subrange(0, n as int) =~= entries@);
                assert("}"@ =~= seq!['}']);
                assert(out@ =~= seq!['{'] + spec_json_text_entries(entries@) + seq!['}']);
            }
            out
        },
    }
}

} // verus!
