//! Character-level helpers shared by the domain layer: whitespace
//! trimming and case-insensitive substring matching.

use vstd::prelude::*;

verus! {

/// Whether `c` has Unicode's White_Space property, the rule behind the
/// standard library's `char::is_whitespace`: the six ASCII whitespace
/// characters together with the fixed set of Unicode space and line
/// separators.
pub open spec fn is_space(c: char) -> bool {
    let x = c as u32;
    ||| x == 32
    ||| (9 <= x && x <= 13)
    ||| x == 0x85
    ||| x == 0xA0
    ||| x == 0x1680
    ||| (0x2000 <= x && x <= 0x200A)
    ||| x == 0x2028
    ||| x == 0x2029
    ||| x == 0x202F
    ||| x == 0x205F
    ||| x == 0x3000
}

/// Whether `c` is whitespace, by `is_space`'s rule.
pub(crate) fn is_space_char(c: char) -> (r: bool)
    ensures
        r == is_space(c),
{
    let x = c as u32;
    x == 32 || (9 <= x && x <= 13) || x == 0x85 || x == 0xA0 || x == 0x1680 || (0x2000 <= x && x
        <= 0x200A) || x == 0x2028 || x == 0x2029 || x == 0x202F || x == 0x205F || x == 0x3000
}

/// `s` with its leading whitespace removed.
pub open spec fn trim_start_spec(s: Seq<char>) -> Seq<char>
    decreases s.len(),
{
    if s.len() == 0 {
        s
    } else if is_space(s[0]) {
        trim_start_spec(s.drop_first())
    } else {
        s
    }
}

/// `s` with its trailing whitespace removed.
pub open spec fn trim_end_spec(s: Seq<char>) -> Seq<char>
    decreases s.len(),
{
    if s.len() == 0 {
        s
    } else if is_space(s.last()) {
        trim_end_spec(s.drop_last())
    } else {
        s
    }
}

/// `s` with leading and trailing whitespace removed.
pub open spec fn trim_spec(s: Seq<char>) -> Seq<char> {
    trim_end_spec(trim_start_spec(s))
}

proof fn lemma_trim_start_prefix(s: Seq<char>, i: int)
    requires
        0 <= i <= s.len(),
        forall|j: int| 0 <= j < i ==> is_space(s[j]),
        i == s.len() || !is_space(s[i]),
    ensures
        trim_start_spec(s) == s.subrange(i, s.len() as int),
    decreases i,
{
    if i == 0 {
        assert(s.subrange(0, s.len() as int) =~= s);
    } else {
        let t = s.drop_first();
        assert(forall|j: int| 0 <= j < i - 1 ==> is_space(#[trigger] t[j]));
        lemma_trim_start_prefix(t, i - 1);
        assert(t.subrange(i - 1, t.len() as int) =~= s.subrange(i, s.len() as int));
    }
}

proof fn lemma_trim_end_suffix(s: Seq<char>, i: int)
    requires
        0 <= i <= s.len(),
        forall|j: int| i <= j < s.len() ==> is_space(s[j]),
        i == 0 || !is_space(s[i - 1]),
    ensures
        trim_end_spec(s) == s.subrange(0, i),
    decreases s.len() - i,
{
    if i == s.len() {
        assert(s.subrange(0, i) =~= s);
    } else {
        let t = s.drop_last();
        assert(is_space(s.last()));
        assert(forall|j: int| i <= j < t.len() ==> is_space(#[trigger] t[j]));
        lemma_trim_end_suffix(t, i);
        assert(t.subrange(0, i) =~= s.subrange(0, i));
    }
}

proof fn lemma_trim_start_head(s: Seq<char>)
    ensures
        trim_start_spec(s).len() > 0 ==> !is_space(trim_start_spec(s)[0]),
    decreases s.len(),
{
    if s.len() > 0 && is_space(s[0]) {
        lemma_trim_start_head(s.drop_first());
    }
}

proof fn lemma_trim_end_prefix_of(s: Seq<char>)
    ensures
        trim_end_spec(s).len() <= s.len(),
        trim_end_spec(s) == s.subrange(0, trim_end_spec(s).len() as int),
        trim_end_spec(s).len() > 0 ==> !is_space(trim_end_spec(s).last()),
    decreases s.len(),
{
    if s.len() == 0 {
        assert(trim_end_spec(s) =~= s.subrange(0, 0));
    } else if is_space(s.last()) {
        let t = s.drop_last();
        lemma_trim_end_prefix_of(t);
        assert(t.subrange(0, trim_end_spec(t).len() as int) =~= s.subrange(
            0,
            trim_end_spec(t).len() as int,
        ));
    } else {
        assert(trim_end_spec(s) =~= s.subrange(0, s.len() as int));
    }
}

/// Trimming is idempotent: a trimmed string trims to itself.
pub proof fn lemma_trim_idempotent(s: Seq<char>)
    ensures
        trim_spec(trim_spec(s)) == trim_spec(s),
{
    let t = trim_start_spec(s);
    lemma_trim_start_head(s);
    let u = trim_end_spec(t);
    lemma_trim_end_prefix_of(t);
    if u.len() == 0 {
        assert(trim_start_spec(u) == u);
        assert(trim_end_spec(u) == u);
    } else {
        assert(u[0] == t[0]);
        assert(!is_space(u[0]));
        assert(trim_start_spec(u) == u);
        assert(trim_end_spec(u) == u);
    }
}

/// Copy of `s` with leading and trailing whitespace removed.
pub fn trim_str(s: &str) -> (r: String)
    ensures
        r@ == trim_spec(s@),
{
    let n = s.unicode_len();
    let mut lo: usize = 0;
    while lo < n && is_space_char(s.get_char(lo))
        invariant
            0 <= lo <= n,
            n == s@.len(),
            forall|j: int| 0 <= j < lo ==> is_space(s@[j]),
        decreases n - lo,
    {
        lo = lo + 1;
    }
    proof {
        lemma_trim_start_prefix(s@, lo as int);
    }
    if lo == n {
        let r = String::new();
        proof {
            assert(trim_start_spec(s@) =~= Seq::<char>::empty());
            assert(trim_spec(s@) =~= Seq::<char>::empty());
        }
        return r;
    }
    let mut hi: usize = n;
    while hi > lo && is_space_char(s.get_char(hi - 1))
        invariant
            lo <= hi <= n,
            n == s@.len(),
            !is_space(s@[lo as int]),
            forall|j: int| hi <= j < n ==> is_space(s@[j]),
        decreases hi,
    {
        hi = hi - 1;
    }
    // The scan cannot pass `lo`, because `s[lo]` is not whitespace.
    assert(hi > lo);
    let ghost start = trim_start_spec(s@);
    proof {
        assert(start == s@.subrange(lo as int, n as int));
        assert(forall|j: int| hi - lo <= j < start.len() ==> is_space(#[trigger] start[j]));
        assert(!is_space(start[hi - lo - 1]));
        lemma_trim_end_suffix(start, hi - lo);
        assert(start.subrange(0, hi - lo) =~= s@.subrange(lo as int, hi as int));
    }
    let piece = s.substring_char(lo, hi);
    String::from_str(piece)
}

/// The scalar value of `c`, with ASCII capital letters folded to their
/// small counterparts. This is the folding SQLite's LIKE applies, so the
/// verified search matches the production store's.
pub open spec fn fold32(c: char) -> u32 {
    if 65 <= c as u32 && c as u32 <= 90 {
        (c as u32 + 32) as u32
    } else {
        c as u32
    }
}

/// Whether `needle` occurs at position `i` of `hay`, comparing
/// characters case-insensitively.
pub open spec fn matches_at(hay: Seq<char>, needle: Seq<char>, i: int) -> bool {
    &&& 0 <= i
    &&& i + needle.len() <= hay.len()
    &&& forall|k: int| 0 <= k < needle.len() ==> fold32(hay[i + k]) == fold32(needle[k])
}

/// Whether `needle` occurs anywhere in `hay`, case-insensitively.
pub open spec fn contains_ci(hay: Seq<char>, needle: Seq<char>) -> bool {
    exists|i: int| matches_at(hay, needle, i)
}

fn fold_char(c: char) -> (r: u32)
    ensures
        r == fold32(c),
{
    let x = c as u32;
    if 65 <= x && x <= 90 {
        x + 32
    } else {
        x
    }
}

/// Whether `needle` occurs in `hay` when both are folded to lower case.
pub fn contains_ci_str(hay: &str, needle: &str) -> (r: bool)
    ensures
        r == contains_ci(hay@, needle@),
{
    let hn = hay.unicode_len();
    let nn = needle.unicode_len();
    if nn > hn {
        assert(forall|i: int| !matches_at(hay@, needle@, i));
        return false;
    }
    let mut i: usize = 0;
    while i <= hn - nn
        invariant
            0 <= i <= hn - nn + 1,
            nn <= hn,
            hn == hay@.len(),
            nn == needle@.len(),
            forall|j: int| 0 <= j < i ==> !matches_at(hay@, needle@, j),
        decreases hn - nn + 1 - i,
    {
        let mut k: usize = 0;
        let mut hit = true;
        while k < nn && hit
            invariant
                0 <= k <= nn,
                i + nn <= hn,
                hn == hay@.len(),
                nn == needle@.len(),
                hit ==> forall|m: int| 0 <= m < k ==> fold32(hay@[i + m]) == fold32(needle@[m]),
                !hit ==> !matches_at(hay@, needle@, i as int),
            decreases nn - k + (if hit { 1int } else { 0int }),
        {
            let a = fold_char(hay.get_char(i + k));
            let b = fold_char(needle.get_char(k));
            if a != b {
                proof {
                    assert(fold32(hay@[i + k]) != fold32(needle@[k as int]));
                }
                hit = false;
            } else {
                k = k + 1;
            }
        }
        if hit {
            assert(matches_at(hay@, needle@, i as int));
            return true;
        }
        i = i + 1;
    }
    proof {
        assert(forall|j: int| j > hn - nn ==> !matches_at(hay@, needle@, j));
    }
    false
}

} // verus!
