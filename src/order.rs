use vstd::prelude::*;
use crate::json::{lookup, JsonValue};
use crate::text::chars_of;

verus! {

/// Strict order of texts by the code points of their characters, first difference first; a
/// proper prefix comes before. This is the order in which serde_json's maps keep their keys.
pub open spec fn text_less(a: Seq<char>, b: Seq<char>) -> bool
    decreases a.len(),
{
    if a.len() == 0 {
        b.len() > 0
    } else if b.len() == 0 {
        false
    } else if a[0] != b[0] {
        a[0] < b[0]
    } else {
        text_less(a.drop_first(), b.drop_first())
    }
}

/// A member whose value is already rendered: its key and the value's text.
pub type Rendered = (Seq<char>, Seq<char>);

/// `m` put into `s` before the first entry whose key is not below its own.
pub open spec fn insert_by_key(m: Rendered, s: Seq<Rendered>) -> Seq<Rendered>
    decreases s.len(),
{
    if s.len() == 0 {
        seq![m]
    } else if text_less(s[0].0, m.0) {
        seq![s[0]] + insert_by_key(m, s.drop_first())
    } else {
        seq![m] + s
    }
}

/// The entries of `s` ordered by key; entries with equal keys keep their order.
pub open spec fn sort_by_key(s: Seq<Rendered>) -> Seq<Rendered>
    decreases s.len(),
{
    if s.len() == 0 {
        s
    } else {
        insert_by_key(s[0], sort_by_key(s.drop_first()))
    }
}

pub open spec fn rendered_view(v: Seq<(String, String)>) -> Seq<Rendered> {
    Seq::new(v.len(), |i: int| (v[i].0@, v[i].1@))
}

/// `insert_by_key` puts `m` at the first place `j` whose key is not below `m`'s.
proof fn lemma_insert_at(m: Rendered, s: Seq<Rendered>, j: int)
    requires
        0 <= j <= s.len(),
        forall|k: int| 0 <= k < j ==> text_less(#[trigger] s[k].0, m.0),
        j < s.len() ==> !text_less(s[j].0, m.0),
    ensures
        insert_by_key(m, s) == s.subrange(0, j) + seq![m] + s.subrange(j, s.len() as int),
    decreases j,
{
    if j == 0 {
        if s.len() > 0 {
            assert(!text_less(s[0].0, m.0));
        }
        assert(s.subrange(0, s.len() as int) =~= s);
        assert(s.subrange(0, 0) + seq![m] + s =~= seq![m] + s);
    } else {
        let t = s.drop_first();
        assert forall|k: int| 0 <= k < j - 1 implies text_less(#[trigger] t[k].0, m.0) by {
            assert(t[k] == s[k + 1]);
        }
        if j - 1 < t.len() {
            assert(t[j - 1] == s[j]);
        }
        lemma_insert_at(m, t, j - 1);
        assert(text_less(s[0].0, m.0));
        assert(seq![s[0]] + (t.subrange(0, j - 1) + seq![m] + t.subrange(j - 1, t.len() as int))
            =~= s.subrange(0, j) + seq![m] + s.subrange(j, s.len() as int));
    }
}

/// Whether `a` comes before `b`.
pub fn text_less_exec(a: &str, b: &str) -> (r: bool)
    ensures
        r == text_less(a@, b@),
{
    let x = chars_of(a);
    let y = chars_of(b);
    let mut i: usize = 0;
    assert(a@.subrange(0, a@.len() as int) =~= a@);
    assert(b@.subrange(0, b@.len() as int) =~= b@);
    while i < x.len() && i < y.len() && x[i] == y[i]
        invariant
            x@ == a@,
            y@ == b@,
            i <= x@.len(),
            i <= y@.len(),
            text_less(a@, b@) == text_less(a@.subrange(i as int, a@.len() as int), b@.subrange(i as int, b@.len() as int)),
        decreases x.len() - i,
    {
        proof {
            let sa = a@.subrange(i as int, a@.len() as int);
            let sb = b@.subrange(i as int, b@.len() as int);
            assert(sa.drop_first() =~= a@.subrange(i + 1, a@.len() as int));
            assert(sb.drop_first() =~= b@.subrange(i + 1, b@.len() as int));
            assert(sa[0] == sb[0]);
        }
        i = i + 1;
    }
    proof {
        let sa = a@.subrange(i as int, a@.len() as int);
        let sb = b@.subrange(i as int, b@.len() as int);
        if i < x.len() && i < y.len() {
            assert(sa[0] == x@[i as int] && sb[0] == y@[i as int]);
        }
    }
    if i == x.len() {
        i < y.len()
    } else if i == y.len() {
        false
    } else {
        x[i] < y[i]
    }
}

/// `m` put into the key-ordered `v` before the first entry whose key is not below its own.
fn insert_rendered(v: Vec<(String, String)>, m: (String, String)) -> (r: Vec<(String, String)>)
    ensures
        rendered_view(r@) == insert_by_key((m.0@, m.1@), rendered_view(v@)),
{
    let ghost sv = rendered_view(v@);
    let ghost mv = (m.0@, m.1@);
    let mut j: usize = 0;
    while j < v.len() && text_less_exec(v[j].0.as_str(), m.0.as_str())
        invariant
            j <= v@.len(),
            sv == rendered_view(v@),
            mv == (m.0@, m.1@),
            forall|k: int| 0 <= k < j ==> text_less(#[trigger] sv[k].0, mv.0),
        decreases v.len() - j,
    {
        j = j + 1;
    }
    proof {
        lemma_insert_at(mv, sv, j as int);
    }
    let mut out: Vec<(String, String)> = Vec::new();
    let mut k: usize = 0;
    while k < j
        invariant
            k <= j <= v@.len(),
            out@.len() == k,
            rendered_view(out@) =~= sv.subrange(0, k as int),
            sv == rendered_view(v@),
        decreases j - k,
    {
        let ghost before = out@;
        out.push((v[k].0.clone(), v[k].1.clone()));
        assert(out@ == before.push(out@[k as int]));
        assert(rendered_view(out@) =~= rendered_view(before).push(sv[k as int]));
        k = k + 1;
    }
    out.push(m);
    let ghost head = sv.subrange(0, j as int) + seq![mv];
    assert(rendered_view(out@) =~= head);
    while k < v.len()
        invariant
            j <= k <= v@.len(),
            sv == rendered_view(v@),
            rendered_view(out@) =~= head + sv.subrange(j as int, k as int),
        decreases v.len() - k,
    {
        let ghost before = out@;
        out.push((v[k].0.clone(), v[k].1.clone()));
        assert(out@ == before.push(out@[before.len() as int]));
        assert(rendered_view(out@) =~= rendered_view(before).push(sv[k as int]));
        k = k + 1;
    }
    assert(rendered_view(out@) =~= head + sv.subrange(j as int, sv.len() as int));
    out
}

/// The entries of `v` ordered by key, entries with equal keys in their order.
pub fn sort_rendered(v: &Vec<(String, String)>) -> (r: Vec<(String, String)>)
    ensures
        rendered_view(r@) == sort_by_key(rendered_view(v@)),
{
    let ghost sv = rendered_view(v@);
    let n = v.len();
    let mut out: Vec<(String, String)> = Vec::new();
    let mut i: usize = n;
    assert(sv.subrange(n as int, n as int) =~= Seq::<Rendered>::empty());
    while i > 0
        invariant
            n == v@.len(),
            i <= n,
            sv == rendered_view(v@),
            rendered_view(out@) == sort_by_key(sv.subrange(i as int, n as int)),
        decreases i,
    {
        i = i - 1;
        proof {
            let t = sv.subrange(i as int, n as int);
            assert(t.drop_first() =~= sv.subrange(i + 1, n as int));
            assert(t[0] == sv[i as int]);
        }
        out = insert_rendered(out, (v[i].0.clone(), v[i].1.clone()));
    }
    assert(sv.subrange(0, n as int) =~= sv);
    out
}

/// Two different texts are ordered one way or the other.
pub proof fn lemma_text_less_total(a: Seq<char>, b: Seq<char>)
    requires
        a != b,
    ensures
        text_less(a, b) || text_less(b, a),
    decreases a.len(),
{
    if a.len() == 0 {
        if b.len() == 0 {
            assert(a =~= b);
        }
    } else if b.len() == 0 {
    } else if a[0] == b[0] {
        if a.drop_first() == b.drop_first() {
            assert(a =~= seq![a[0]] + a.drop_first());
            assert(b =~= seq![b[0]] + b.drop_first());
            assert(false);
        }
        lemma_text_less_total(a.drop_first(), b.drop_first());
    }
}

/// Entries whose keys ascend strictly.
pub open spec fn keys_ascend(s: Seq<Rendered>) -> bool {
    forall|i: int, j: int| 0 <= i < j < s.len() ==> text_less(#[trigger] s[i].0, #[trigger] s[j].0)
}

/// Entries whose keys differ pairwise.
pub open spec fn keys_distinct(s: Seq<Rendered>) -> bool {
    forall|i: int, j: int| 0 <= i < j < s.len() ==> #[trigger] s[i].0 != #[trigger] s[j].0
}

proof fn lemma_insert_contains(m: Rendered, s: Seq<Rendered>)
    ensures
        insert_by_key(m, s).len() == s.len() + 1,
        forall|x: Rendered| #[trigger] insert_by_key(m, s).contains(x) <==> (x == m || s.contains(x)),
    decreases s.len(),
{
    if s.len() > 0 {
        let t = s.drop_first();
        lemma_insert_contains(m, t);
        let r = insert_by_key(m, s);
        assert forall|x: Rendered| #[trigger] r.contains(x) <==> (x == m || s.contains(x)) by {
            if text_less(s[0].0, m.0) {
                let rt = insert_by_key(m, t);
                assert(r == seq![s[0]] + rt);
                if r.contains(x) {
                    let i = choose|i: int| 0 <= i < r.len() && r[i] == x;
                    if i > 0 {
                        assert(rt[i - 1] == x);
                        assert(rt.contains(x));
                        if t.contains(x) {
                            let k = choose|k: int| 0 <= k < t.len() && t[k] == x;
                            assert(s[k + 1] == x);
                        }
                    } else {
                        assert(s[0] == x);
                    }
                }
                if x == m || s.contains(x) {
                    if x == m {
                        assert(rt.contains(x));
                    } else {
                        let k = choose|k: int| 0 <= k < s.len() && s[k] == x;
                        if k > 0 {
                            assert(t[k - 1] == x);
                            assert(rt.contains(x));
                        }
                    }
                    if rt.contains(x) {
                        let k = choose|k: int| 0 <= k < rt.len() && rt[k] == x;
                        assert(r[k + 1] == x);
                    } else {
                        assert(r[0] == x);
                    }
                }
            } else {
                assert(r == seq![m] + s);
                if r.contains(x) {
                    let i = choose|i: int| 0 <= i < r.len() && r[i] == x;
                    if i > 0 {
                        assert(s[i - 1] == x);
                    }
                }
                if s.contains(x) {
                    let k = choose|k: int| 0 <= k < s.len() && s[k] == x;
                    assert(r[k + 1] == x);
                }
                if x == m {
                    assert(r[0] == x);
                }
            }
        }
    } else {
        assert forall|x: Rendered| #[trigger] insert_by_key(m, s).contains(x) <==> (x == m || s.contains(x)) by {
            if insert_by_key(m, s).contains(x) {
                let i = choose|i: int| 0 <= i < 1 && seq![m][i] == x;
            }
            if x == m {
                assert(insert_by_key(m, s)[0] == x);
            }
        }
    }
}

/// Ordering keeps exactly the entries it is given.
pub proof fn lemma_sort_contains(s: Seq<Rendered>)
    ensures
        sort_by_key(s).len() == s.len(),
        forall|x: Rendered| #[trigger] sort_by_key(s).contains(x) <==> s.contains(x),
    decreases s.len(),
{
    if s.len() > 0 {
        let t = s.drop_first();
        lemma_sort_contains(t);
        lemma_insert_contains(s[0], sort_by_key(t));
        assert forall|x: Rendered| #[trigger] sort_by_key(s).contains(x) <==> s.contains(x) by {
            if t.contains(x) {
                let k = choose|k: int| 0 <= k < t.len() && t[k] == x;
                assert(s[k + 1] == x);
            }
            if s.contains(x) {
                let k = choose|k: int| 0 <= k < s.len() && s[k] == x;
                if k > 0 {
                    assert(t[k - 1] == x);
                }
            }
        }
    }
}

proof fn lemma_insert_ascends(m: Rendered, s: Seq<Rendered>)
    requires
        keys_ascend(s),
        forall|k: int| 0 <= k < s.len() ==> #[trigger] s[k].0 != m.0,
    ensures
        keys_ascend(insert_by_key(m, s)),
    decreases s.len(),
{
    if s.len() > 0 {
        let t = s.drop_first();
        let r = insert_by_key(m, s);
        if text_less(s[0].0, m.0) {
            assert forall|a: int, b: int| 0 <= a < b < t.len() implies text_less(#[trigger] t[a].0, #[trigger] t[b].0) by {
                assert(t[a] == s[a + 1] && t[b] == s[b + 1]);
            }
            assert forall|k: int| 0 <= k < t.len() implies #[trigger] t[k].0 != m.0 by {
                assert(t[k] == s[k + 1]);
            }
            lemma_insert_ascends(m, t);
            lemma_insert_contains(m, t);
            let rt = insert_by_key(m, t);
            assert(r == seq![s[0]] + rt);
            assert forall|a: int, b: int| 0 <= a < b < r.len() implies text_less(#[trigger] r[a].0, #[trigger] r[b].0) by {
                if a == 0 {
                    assert(r[b] == rt[b - 1]);
                    assert(rt.contains(rt[b - 1]));
                    if rt[b - 1] != m {
                        let k = choose|k: int| 0 <= k < t.len() && t[k] == rt[b - 1];
                        assert(s[k + 1] == t[k]);
                        assert(text_less(s[0].0, s[k + 1].0));
                    }
                } else {
                    assert(r[a] == rt[a - 1] && r[b] == rt[b - 1]);
                }
            }
        } else {
            assert(s[0].0 != m.0);
            lemma_text_less_total(s[0].0, m.0);
            assert(r == seq![m] + s);
            assert forall|a: int, b: int| 0 <= a < b < r.len() implies text_less(#[trigger] r[a].0, #[trigger] r[b].0) by {
                if a == 0 {
                    assert(r[b] == s[b - 1]);
                    if b - 1 > 0 {
                        assert(text_less(s[0].0, s[b - 1].0));
                        lemma_text_less_transitive(m.0, s[0].0, s[b - 1].0);
                    }
                } else {
                    assert(r[a] == s[a - 1] && r[b] == s[b - 1]);
                }
            }
        }
    }
}

/// Entries with distinct keys come out of `sort_by_key` with keys ascending strictly.
pub proof fn lemma_sort_ascends(s: Seq<Rendered>)
    requires
        keys_distinct(s),
    ensures
        keys_ascend(sort_by_key(s)),
    decreases s.len(),
{
    if s.len() > 0 {
        let t = s.drop_first();
        assert forall|a: int, b: int| 0 <= a < b < t.len() implies #[trigger] t[a].0 != #[trigger] t[b].0 by {
            assert(t[a] == s[a + 1] && t[b] == s[b + 1]);
        }
        lemma_sort_ascends(t);
        lemma_sort_contains(t);
        let st = sort_by_key(t);
        assert forall|k: int| 0 <= k < st.len() implies #[trigger] st[k].0 != s[0].0 by {
            assert(st.contains(st[k]));
            let i = choose|i: int| 0 <= i < t.len() && t[i] == st[k];
            assert(s[i + 1] == t[i]);
        }
        lemma_insert_ascends(s[0], st);
    }
}

/// Two lists of entries with keys ascending strictly that hold the same entries are the same
/// list.
pub proof fn lemma_ascending_same_entries(a: Seq<Rendered>, b: Seq<Rendered>)
    requires
        keys_ascend(a),
        keys_ascend(b),
        forall|x: Rendered| #[trigger] a.contains(x) <==> b.contains(x),
    ensures
        a == b,
    decreases a.len() + b.len(),
{
    if a.len() == 0 {
        if b.len() > 0 {
            assert(b.contains(b[0]));
            assert(a.contains(b[0]));
        }
        assert(a =~= b);
    } else if b.len() == 0 {
        assert(a.contains(a[0]));
    } else {
        assert(a.contains(a[0]));
        assert(b.contains(b[0]));
        assert(a.contains(b[0]));
        let j = choose|j: int| 0 <= j < b.len() && b[j] == a[0];
        let i = choose|i: int| 0 <= i < a.len() && a[i] == b[0];
        if j > 0 {
            assert(text_less(b[0].0, b[j].0));
            if i > 0 {
                assert(text_less(a[0].0, a[i].0));
                lemma_text_less_transitive(a[0].0, b[0].0, a[0].0);
                lemma_text_less_irreflexive(a[0].0);
            } else {
                lemma_text_less_irreflexive(b[0].0);
            }
            assert(false);
        }
        assert(a[0] == b[0]);
        let ta = a.drop_first();
        let tb = b.drop_first();
        assert forall|x: int, y: int| 0 <= x < y < ta.len() implies text_less(#[trigger] ta[x].0, #[trigger] ta[y].0) by {
            assert(ta[x] == a[x + 1] && ta[y] == a[y + 1]);
        }
        assert forall|x: int, y: int| 0 <= x < y < tb.len() implies text_less(#[trigger] tb[x].0, #[trigger] tb[y].0) by {
            assert(tb[x] == b[x + 1] && tb[y] == b[y + 1]);
        }
        assert forall|x: Rendered| #[trigger] ta.contains(x) <==> tb.contains(x) by {
            if ta.contains(x) {
                let k = choose|k: int| 0 <= k < ta.len() && ta[k] == x;
                assert(a[k + 1] == x);
                assert(a.contains(x));
                let m = choose|m: int| 0 <= m < b.len() && b[m] == x;
                assert(text_less(a[0].0, a[k + 1].0));
                lemma_text_less_irreflexive(a[0].0);
                assert(m != 0);
                assert(tb[m - 1] == x);
            }
            if tb.contains(x) {
                let k = choose|k: int| 0 <= k < tb.len() && tb[k] == x;
                assert(b[k + 1] == x);
                assert(b.contains(x));
                assert(a.contains(x));
                let m = choose|m: int| 0 <= m < a.len() && a[m] == x;
                assert(text_less(b[0].0, b[k + 1].0));
                lemma_text_less_irreflexive(b[0].0);
                assert(m != 0);
                assert(ta[m - 1] == x);
            }
        }
        lemma_ascending_same_entries(ta, tb);
        assert(a.len() == b.len());
        assert forall|x: int| 0 <= x < a.len() implies a[x] == b[x] by {
            if x > 0 {
                assert(a[x] == ta[x - 1] && b[x] == tb[x - 1]);
            }
        }
        assert(a =~= b);
    }
}

pub proof fn lemma_text_less_irreflexive(a: Seq<char>)
    ensures
        !text_less(a, a),
    decreases a.len(),
{
    if a.len() > 0 {
        lemma_text_less_irreflexive(a.drop_first());
    }
}

pub proof fn lemma_text_less_transitive(a: Seq<char>, b: Seq<char>, c: Seq<char>)
    requires
        text_less(a, b),
        text_less(b, c),
    ensures
        text_less(a, c),
    decreases a.len(),
{
    if a.len() > 0 && b.len() > 0 && c.len() > 0 {
        if a[0] == b[0] && b[0] == c[0] {
            lemma_text_less_transitive(a.drop_first(), b.drop_first(), c.drop_first());
        } else if a[0] == b[0] {
            assert(a[0] != c[0]);
        } else if b[0] == c[0] {
            assert(a[0] != c[0]);
        } else {
            assert(a[0] != c[0]);
        }
    }
}

/// What `lookup` finds is a member, and it finds nothing only when no member has the key.
pub proof fn lemma_lookup_member(ms: Seq<(Seq<char>, JsonValue)>, k: Seq<char>)
    ensures
        lookup(ms, k) matches Some(v) ==> exists|i: int| 0 <= i < ms.len() && #[trigger] ms[i] == (k, v),
        lookup(ms, k) is None ==> forall|i: int| 0 <= i < ms.len() ==> #[trigger] ms[i].0 != k,
    decreases ms.len(),
{
    if ms.len() > 0 {
        lemma_lookup_member(ms.drop_first(), k);
        if ms[0].0 != k {
            if lookup(ms, k) is Some {
                let v = lookup(ms, k)->0;
                let i = choose|i: int| 0 <= i < ms.drop_first().len() && #[trigger] ms.drop_first()[i] == (k, v);
                assert(ms[i + 1] == (k, v));
            }
            if lookup(ms, k) is None {
                assert forall|i: int| 0 <= i < ms.len() implies #[trigger] ms[i].0 != k by {
                    if i > 0 {
                        assert(ms[i] == ms.drop_first()[i - 1]);
                    }
                }
            }
        } else {
            assert(ms[0] == (k, ms[0].1));
        }
    }
}

/// Members whose keys differ pairwise, as in every object read from the wire.
pub open spec fn distinct_member_keys(ms: Seq<(Seq<char>, JsonValue)>) -> bool {
    forall|i: int, j: int| 0 <= i < j < ms.len() ==> #[trigger] ms[i].0 != #[trigger] ms[j].0
}

/// With each key held once, every member is what its key looks up.
proof fn lemma_lookup_distinct(ms: Seq<(Seq<char>, JsonValue)>, i: int)
    requires
        distinct_member_keys(ms),
        0 <= i < ms.len(),
    ensures
        lookup(ms, ms[i].0) == Some(ms[i].1),
    decreases i,
{
    if i > 0 {
        assert(ms[0].0 != ms[i].0);
        let t = ms.drop_first();
        assert forall|a: int, b: int| 0 <= a < b < t.len() implies #[trigger] t[a].0 != #[trigger] t[b].0 by {
            assert(t[a] == ms[a + 1] && t[b] == ms[b + 1]);
        }
        assert(t[i - 1] == ms[i]);
        lemma_lookup_distinct(t, i - 1);
    }
}

/// Two member lists that hold the same members, each key once, look up the same value under
/// every key.
pub proof fn lemma_same_members_same_lookup(
    a: Seq<(Seq<char>, JsonValue)>,
    b: Seq<(Seq<char>, JsonValue)>,
    k: Seq<char>,
)
    requires
        distinct_member_keys(a),
        distinct_member_keys(b),
        forall|x: (Seq<char>, JsonValue)| #[trigger] a.contains(x) <==> b.contains(x),
    ensures
        lookup(a, k) == lookup(b, k),
{
    lemma_lookup_member(a, k);
    lemma_lookup_member(b, k);
    if lookup(a, k) is Some {
        let v = lookup(a, k)->0;
        let i = choose|i: int| 0 <= i < a.len() && #[trigger] a[i] == (k, v);
        assert(a.contains(a[i]));
        assert(b.contains(a[i]));
        let j = choose|j: int| 0 <= j < b.len() && b[j] == a[i];
        lemma_lookup_distinct(b, j);
    } else if lookup(b, k) is Some {
        let v = lookup(b, k)->0;
        let j = choose|j: int| 0 <= j < b.len() && #[trigger] b[j] == (k, v);
        assert(b.contains(b[j]));
        assert(a.contains(b[j]));
        let i = choose|i: int| 0 <= i < a.len() && a[i] == b[j];
        assert(a[i].0 == k);
    }
}

} // verus!
