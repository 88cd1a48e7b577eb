use vstd::prelude::*;

verus! {

/// How many bytes UTF-8 takes for `c`.
pub open spec fn char_len(c: char) -> nat {
    if (c as u32) < 0x80 {
        1
    } else if (c as u32) < 0x800 {
        2
    } else if (c as u32) < 0x10000 {
        3
    } else {
        4
    }
}

/// How many bytes UTF-8 takes for `s`.
pub open spec fn utf8_len(s: Seq<char>) -> nat
    decreases s.len(),
{
    if s.len() == 0 {
        0
    } else {
        utf8_len(s.drop_last()) + char_len(s.last())
    }
}

/// The longest run of whole leading characters of `s` that fits in `limit` bytes.
pub open spec fn fitting(s: Seq<char>, limit: nat) -> Seq<char>
    decreases s.len(),
{
    if utf8_len(s) <= limit || s.len() == 0 {
        s
    } else {
        fitting(s.drop_last(), limit)
    }
}

/// A longer prefix never takes fewer bytes.
pub proof fn lemma_utf8_len_monotone(s: Seq<char>, a: int, b: int)
    requires
        0 <= a <= b <= s.len(),
    ensures
        utf8_len(s.subrange(0, a)) <= utf8_len(s.subrange(0, b)),
    decreases b - a,
{
    if a < b {
        lemma_utf8_len_monotone(s, a, b - 1);
        assert(s.subrange(0, b).drop_last() =~= s.subrange(0, b - 1));
    }
}

/// What `fitting` keeps is a prefix of the input that fits, and it is the longest one.
pub proof fn lemma_fitting(s: Seq<char>, limit: nat)
    ensures
        fitting(s, limit).len() <= s.len(),
        fitting(s, limit) == s.subrange(0, fitting(s, limit).len() as int),
        utf8_len(fitting(s, limit)) <= limit,
        fitting(s, limit).len() < s.len() ==> utf8_len(
            s.subrange(0, fitting(s, limit).len() as int + 1),
        ) > limit,
    decreases s.len(),
{
    if utf8_len(s) <= limit || s.len() == 0 {
        assert(s.subrange(0, s.len() as int) =~= s);
    } else {
        let t = s.drop_last();
        lemma_fitting(t, limit);
        let k = fitting(t, limit).len() as int;
        assert(t.subrange(0, k) =~= s.subrange(0, k));
        if k < t.len() {
            assert(t.subrange(0, k + 1) =~= s.subrange(0, k + 1));
        } else {
            assert(s.subrange(0, k + 1) =~= s);
        }
    }
}

/// The prefix of `s` of `k` characters is what `fitting` keeps, when it fits and one more
/// character would not.
proof fn lemma_fitting_at(s: Seq<char>, limit: nat, k: int)
    requires
        0 <= k <= s.len(),
        utf8_len(s.subrange(0, k)) <= limit,
        k < s.len() ==> utf8_len(s.subrange(0, k + 1)) > limit,
    ensures
        fitting(s, limit) == s.subrange(0, k),
    decreases s.len() - k,
{
    if k == s.len() {
        assert(s.subrange(0, k) =~= s);
    } else {
        lemma_utf8_len_monotone(s, k + 1, s.len() as int);
        assert(s.subrange(0, s.len() as int) =~= s);
        let t = s.drop_last();
        assert(t.subrange(0, k) =~= s.subrange(0, k));
        if k + 1 <= t.len() {
            assert(t.subrange(0, k + 1) =~= s.subrange(0, k + 1));
        }
        lemma_fitting_at(t, limit, k);
    }
}

/// The byte length of `c` in UTF-8.
fn char_bytes(c: char) -> (r: usize)
    ensures
        r == char_len(c),
{
    if (c as u32) < 0x80 {
        1
    } else if (c as u32) < 0x800 {
        2
    } else if (c as u32) < 0x10000 {
        3
    } else {
        4
    }
}

/// The longest run of whole leading characters of `s` that takes at most `limit` bytes:
/// a cut never falls inside a character.
pub fn truncate_utf8(s: &str, limit: usize) -> (r: &str)
    ensures
        r@ == fitting(s@, limit as nat),
{
    let n = s.unicode_len();
    let mut k: usize = 0;
    let mut used: usize = 0;
    proof {
        assert(s@.subrange(0, 0) =~= Seq::<char>::empty());
    }
    while k < n
        invariant
            n == s@.len(),
            k <= n,
            used == utf8_len(s@.subrange(0, k as int)),
            used <= limit,
        decreases n - k,
    {
        let c = s.get_char(k);
        let w = char_bytes(c);
        proof {
            assert(s@.subrange(0, k + 1).drop_last() =~= s@.subrange(0, k as int));
        }
        if w > limit - used {
            proof {
                lemma_fitting_at(s@, limit as nat, k as int);
            }
            return s.substring_char(0, k);
        }
        used = used + w;
        k = k + 1;
    }
    proof {
        lemma_fitting_at(s@, limit as nat, k as int);
    }
    s.substring_char(0, k)
}

} // verus!
