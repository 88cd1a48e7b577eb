use vstd::prelude::*;
use crate::json::{Json, JsonValue};
use crate::order::{
    distinct_member_keys, keys_distinct, lemma_ascending_same_entries, lemma_sort_ascends, lemma_sort_contains, rendered_view,
    sort_by_key, sort_rendered, Rendered,
};

verus! {

/// The lowercase hexadecimal digit for `d`, below sixteen.
pub open spec fn hex_digit(d: nat) -> char {
    if d < 10 {
        (('0' as u32) + d) as char
    } else {
        (('a' as u32) + d - 10) as char
    }
}

/// How a character stands inside a JSON string: quote, backslash and control characters
/// are escaped, every other character stands for itself.
pub open spec fn escape_char(c: char) -> Seq<char> {
    if c == '"' {
        seq!['\\', '"']
    } else if c == '\\' {
        seq!['\\', '\\']
    } else if c == '\n' {
        seq!['\\', 'n']
    } else if c == '\r' {
        seq!['\\', 'r']
    } else if c == '\t' {
        seq!['\\', 't']
    } else if c == '\x08' {
        seq!['\\', 'b']
    } else if c == '\x0c' {
        seq!['\\', 'f']
    } else if (c as u32) < 0x20 {
        seq!['\\', 'u', '0', '0', hex_digit((c as u32 / 16) as nat), hex_digit((c as u32 % 16) as nat)]
    } else {
        seq![c]
    }
}

pub open spec fn escape(s: Seq<char>) -> Seq<char>
    decreases s.len(),
{
    if s.len() == 0 {
        seq![]
    } else {
        escape(s.drop_last()) + escape_char(s.last())
    }
}

/// A string written as a JSON string literal.
pub open spec fn quoted(s: Seq<char>) -> Seq<char> {
    seq!['"'] + escape(s) + seq!['"']
}

/// The compact JSON text of a value: no whitespace, and an object's members sorted by key
/// (members with equal keys keep their order).
pub open spec fn compact(v: JsonValue) -> Seq<char>
    decreases v,
{
    match v {
        JsonValue::Null => seq!['n', 'u', 'l', 'l'],
        JsonValue::Bool(b) => if b {
            seq!['t', 'r', 'u', 'e']
        } else {
            seq!['f', 'a', 'l', 's', 'e']
        },
        JsonValue::Number { text, micros } => text,
        JsonValue::Str(s) => quoted(s),
        JsonValue::Array(items) => seq!['['] + compact_items(items) + seq![']'],
        JsonValue::Object(members) => seq!['{'] + join_rendered(sort_by_key(rendered_members(members)))
            + seq!['}'],
    }
}

/// The elements of an array, comma separated.
pub open spec fn compact_items(items: Seq<JsonValue>) -> Seq<char>
    decreases items,
{
    if items.len() == 0 {
        seq![]
    } else {
        let init = items.subrange(0, items.len() - 1);
        let sep = if init.len() == 0 {
            Seq::<char>::empty()
        } else {
            seq![',']
        };
        compact_items(init) + sep + compact(items[items.len() - 1])
    }
}

/// Rendered members as `"key":value`, comma separated.
pub open spec fn join_rendered(members: Seq<Rendered>) -> Seq<char>
    decreases members.len(),
{
    if members.len() == 0 {
        seq![]
    } else {
        let init = members.drop_last();
        let sep = if init.len() == 0 {
            Seq::<char>::empty()
        } else {
            seq![',']
        };
        join_rendered(init) + sep + quoted(members.last().0) + seq![':'] + members.last().1
    }
}

/// The members of an object with their values rendered, in the order they are kept.
pub open spec fn rendered_members(members: Seq<(Seq<char>, JsonValue)>) -> Seq<Rendered>
    decreases members,
{
    Seq::new(
        members.len(),
        |i: int|
            if 0 <= i < members.len() {
                (members[i].0, compact(members[i].1))
            } else {
                (Seq::<char>::empty(), Seq::<char>::empty())
            },
    )
}

/// Two objects that hold the same members, each key once, have the same compact text,
/// whatever order their members are kept in.
pub proof fn lemma_compact_ignores_member_order(
    a: Seq<(Seq<char>, JsonValue)>,
    b: Seq<(Seq<char>, JsonValue)>,
)
    requires
        distinct_member_keys(a),
        distinct_member_keys(b),
        forall|x: (Seq<char>, JsonValue)| #[trigger] a.contains(x) <==> b.contains(x),
    ensures
        compact(JsonValue::Object(a)) == compact(JsonValue::Object(b)),
{
    let ra = rendered_members(a);
    let rb = rendered_members(b);
    assert(keys_distinct(ra)) by {
        assert forall|i: int, j: int| 0 <= i < j < ra.len() implies #[trigger] ra[i].0 != #[trigger] ra[j].0 by {
            assert(ra[i].0 == a[i].0 && ra[j].0 == a[j].0);
        }
    }
    assert(keys_distinct(rb)) by {
        assert forall|i: int, j: int| 0 <= i < j < rb.len() implies #[trigger] rb[i].0 != #[trigger] rb[j].0 by {
            assert(rb[i].0 == b[i].0 && rb[j].0 == b[j].0);
        }
    }
    assert forall|x: Rendered| #[trigger] ra.contains(x) <==> rb.contains(x) by {
        if ra.contains(x) {
            let i = choose|i: int| 0 <= i < ra.len() && ra[i] == x;
            assert(a.contains(a[i]));
            assert(b.contains(a[i]));
            let j = choose|j: int| 0 <= j < b.len() && b[j] == a[i];
            assert(rb[j] == x);
        }
        if rb.contains(x) {
            let j = choose|j: int| 0 <= j < rb.len() && rb[j] == x;
            assert(b.contains(b[j]));
            assert(a.contains(b[j]));
            let i = choose|i: int| 0 <= i < a.len() && a[i] == b[j];
            assert(ra[i] == x);
        }
    }
    lemma_sort_ascends(ra);
    lemma_sort_ascends(rb);
    lemma_sort_contains(ra);
    lemma_sort_contains(rb);
    lemma_ascending_same_entries(sort_by_key(ra), sort_by_key(rb));
}

/// Appends the escaped form of `s`.
fn write_escaped(s: &str, out: &mut String)
    ensures
        final(out)@ == old(out)@ + escape(s@),
{
    let n = s.unicode_len();
    let mut i: usize = 0;
    let digits = "0123456789abcdef";
    proof {
        reveal_strlit("0123456789abcdef");
        assert(s@.subrange(0, 0) =~= Seq::<char>::empty());
    }
    while i < n
        invariant
            n == s@.len(),
            i <= n,
            digits@ == "0123456789abcdef"@,
            digits@.len() == 16,
            forall|d: int| 0 <= d < 16 ==> #[trigger] digits@[d] == hex_digit(d as nat),
            out@ == old(out)@ + escape(s@.subrange(0, i as int)),
        decreases n - i,
    {
        let c = s.get_char(i);
        let ghost before = out@;
        if c == '"' {
            out.append("\\\"");
            proof { reveal_strlit("\\\""); }
        } else if c == '\\' {
            out.append("\\\\");
            proof { reveal_strlit("\\\\"); }
        } else if c == '\n' {
            out.append("\\n");
            proof { reveal_strlit("\\n"); }
        } else if c == '\r' {
            out.append("\\r");
            proof { reveal_strlit("\\r"); }
        } else if c == '\t' {
            out.append("\\t");
            proof { reveal_strlit("\\t"); }
        } else if c == '\x08' {
            out.append("\\b");
            proof { reveal_strlit("\\b"); }
        } else if c == '\x0c' {
            out.append("\\f");
            proof { reveal_strlit("\\f"); }
        } else if (c as u32) < 0x20 {
            out.append("\\u00");
            proof { reveal_strlit("\\u00"); }
            let hi = (c as u32 / 16) as usize;
            let lo = (c as u32 % 16) as usize;
            out.append(digits.substring_char(hi, hi + 1));
            out.append(digits.substring_char(lo, lo + 1));
        } else {
            out.append(s.substring_char(i, i + 1));
        }
        proof {
            let t = s@.subrange(0, i + 1);
            assert(t.drop_last() =~= s@.subrange(0, i as int));
            assert(t.last() == c);
            assert(out@ =~= before + escape_char(c));
        }
        i = i + 1;
    }
    proof {
        assert(s@.subrange(0, n as int) =~= s@);
    }
}

/// Appends `s` as a JSON string literal.
fn write_quoted(s: &str, out: &mut String)
    ensures
        final(out)@ == old(out)@ + quoted(s@),
{
    let ghost start = out@;
    out.append("\"");
    write_escaped(s, out);
    out.append("\"");
    proof {
        reveal_strlit("\"");
        assert(out@ =~= start + quoted(s@));
    }
}

/// Appends the compact JSON text of `j`.
pub fn write_compact(j: &Json, out: &mut String)
    ensures
        final(out)@ == old(out)@ + compact(j@),
    decreases j,
{
    let ghost start = out@;
    match j {
        Json::Null => {
            out.append("null");
            proof { reveal_strlit("null"); assert(out@ =~= start + compact(j@)); }
        },
        Json::Bool(b) => {
            if *b {
                out.append("true");
                proof { reveal_strlit("true"); assert(out@ =~= start + compact(j@)); }
            } else {
                out.append("false");
                proof { reveal_strlit("false"); assert(out@ =~= start + compact(j@)); }
            }
        },
        Json::Number(n) => {
            out.append(n.text.as_str());
        },
        Json::Str(s) => {
            write_quoted(s.as_str(), out);
        },
        Json::Array(items) => {
            let ghost all = j@->Array_0;
            out.append("[");
            proof { reveal_strlit("["); assert(all.subrange(0, 0) =~= Seq::<JsonValue>::empty()); }
            let mut i: usize = 0;
            while i < items.len()
                invariant
                    *j == Json::Array(*items),
                    all == j@->Array_0,
                    all.len() == items@.len(),
                    i <= items@.len(),
                    out@ == start + seq!['['] + compact_items(all.subrange(0, i as int)),
                decreases items.len() - i,
            {
                proof {
                    vstd::std_specs::vec::axiom_vec_index_decreases(*items, i as int);
                    assert(decreases_to!(*j => j->Array_0));
                }
                if i > 0 {
                    out.append(",");
                    proof { reveal_strlit(","); }
                }
                write_compact(&items[i], out);
                proof {
                    let t = all.subrange(0, i + 1);
                    assert(t.subrange(0, i as int) =~= all.subrange(0, i as int));
                    assert(all[i as int] == items@[i as int]@);
                    assert(out@ =~= start + seq!['['] + compact_items(t));
                }
                i = i + 1;
            }
            out.append("]");
            proof {
                reveal_strlit("]");
                assert(all.subrange(0, items@.len() as int) =~= all);
                assert(out@ =~= start + compact(j@));
            }
        },
        Json::Object(members) => {
            let ghost all = j@->Object_0;
            let mut rendered: Vec<(String, String)> = Vec::new();
            let mut i: usize = 0;
            while i < members.len()
                invariant
                    *j == Json::Object(*members),
                    all == j@->Object_0,
                    all.len() == members@.len(),
                    forall|k: int| 0 <= k < all.len() ==> #[trigger] all[k] == (members@[k].0@, members@[k].1@),
                    i <= members@.len(),
                    rendered@.len() == i,
                    forall|k: int|
                        0 <= k < i ==> #[trigger] rendered_view(rendered@)[k] == (all[k].0, compact(all[k].1)),
                decreases members.len() - i,
            {
                proof {
                    vstd::std_specs::vec::axiom_vec_index_decreases(*members, i as int);
                    assert(decreases_to!(*j => j->Object_0));
                }
                let mut text = String::new();
                write_compact(&members[i].1, &mut text);
                let ghost before = rendered@;
                rendered.push((members[i].0.clone(), text));
                proof {
                    assert(rendered@ == before.push(rendered@[i as int]));
                    assert forall|k: int| 0 <= k < i + 1 implies #[trigger] rendered_view(rendered@)[k] == (
                        all[k].0,
                        compact(all[k].1),
                    ) by {
                        if k < i {
                            assert(rendered@[k] == before[k]);
                            assert(rendered_view(before)[k] == (all[k].0, compact(all[k].1)));
                        }
                    }
                }
                i = i + 1;
            }
            assert(rendered_view(rendered@) =~= rendered_members(all));
            let sorted = sort_rendered(&rendered);
            let ghost sv = rendered_view(sorted@);
            out.append("{");
            proof { reveal_strlit("{"); assert(sv.subrange(0, 0) =~= Seq::<Rendered>::empty()); }
            let mut k: usize = 0;
            while k < sorted.len()
                invariant
                    sv == rendered_view(sorted@),
                    k <= sorted@.len(),
                    out@ == start + seq!['{'] + join_rendered(sv.subrange(0, k as int)),
                decreases sorted.len() - k,
            {
                if k > 0 {
                    out.append(",");
                    proof { reveal_strlit(","); }
                }
                write_quoted(sorted[k].0.as_str(), out);
                out.append(":");
                out.append(sorted[k].1.as_str());
                proof {
                    reveal_strlit(":");
                    let t = sv.subrange(0, k + 1);
                    assert(t.drop_last() =~= sv.subrange(0, k as int));
                    assert(t.last() == sv[k as int]);
                    assert(sv[k as int] == (sorted@[k as int].0@, sorted@[k as int].1@));
                    assert(out@ =~= start + seq!['{'] + join_rendered(t));
                }
                k = k + 1;
            }
            out.append("}");
            proof {
                reveal_strlit("}");
                assert(sv.subrange(0, sv.len() as int) =~= sv);
                assert(j@ == JsonValue::Object(all));
                assert(compact(j@) == seq!['{'] + join_rendered(sort_by_key(rendered_members(all))) + seq!['}']);
                assert(sv == sort_by_key(rendered_members(all)));
                assert(out@ =~= start + compact(j@));
            }
        },
    }
}

/// The compact JSON text of `j`.
pub fn to_compact(j: &Json) -> (r: String)
    ensures
        r@ == compact(j@),
{
    let mut out = String::new();
    write_compact(j, &mut out);
    proof {
        assert(out@ =~= compact(j@));
    }
    out
}

} // verus!
