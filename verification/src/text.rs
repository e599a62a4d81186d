//! Searching and trimming byte strings.

use vstd::prelude::*;

verus! {

/// Whether `pat` stands in `s` at index `at`.
pub open spec fn matches_at(s: Seq<u8>, pat: Seq<u8>, at: int) -> bool {
    &&& 0 <= at
    &&& at + pat.len() <= s.len()
    &&& s.subrange(at, at + pat.len()) == pat
}

/// Whether `at` is the first index, not before `from`, at which `pat` stands in `s`.
pub open spec fn is_first_match(s: Seq<u8>, pat: Seq<u8>, from: int, at: int) -> bool {
    &&& from <= at
    &&& matches_at(s, pat, at)
    &&& forall|k: int| from <= k < at ==> !matches_at(s, pat, k)
}

/// The first index, not before `from`, at which `pat` stands in `s`.
pub open spec fn first_match(s: Seq<u8>, pat: Seq<u8>, from: int) -> Option<int> {
    if exists|at: int| is_first_match(s, pat, from, at) {
        Some(choose|at: int| is_first_match(s, pat, from, at))
    } else {
        None
    }
}

/// A first match is the only one.
pub proof fn lemma_first_match_unique(s: Seq<u8>, pat: Seq<u8>, from: int, at: int)
    requires
        is_first_match(s, pat, from, at),
    ensures
        first_match(s, pat, from) == Some(at),
{
    let other = choose|k: int| is_first_match(s, pat, from, k);
    assert(is_first_match(s, pat, from, other));
    if other < at {
        assert(!matches_at(s, pat, other));
    } else if at < other {
        assert(!matches_at(s, pat, at));
    }
}

/// Without any match from `from` on there is no first one.
pub proof fn lemma_first_match_none(s: Seq<u8>, pat: Seq<u8>, from: int)
    requires
        forall|k: int| from <= k ==> !matches_at(s, pat, k),
    ensures
        first_match(s, pat, from) is None,
{
    assert forall|at: int| !is_first_match(s, pat, from, at) by {
        if from <= at {
            assert(!matches_at(s, pat, at));
        }
    }
}

/// What `first_match` returns is a first match.
pub proof fn lemma_first_match_some(s: Seq<u8>, pat: Seq<u8>, from: int)
    requires
        first_match(s, pat, from) is Some,
    ensures
        is_first_match(s, pat, from, first_match(s, pat, from)->0),
{
}

/// A match that lies within `a` is a match in `a + b`, and conversely.
pub proof fn lemma_match_in_prefix(a: Seq<u8>, b: Seq<u8>, pat: Seq<u8>, at: int)
    requires
        0 <= at,
        at + pat.len() <= a.len(),
    ensures
        matches_at(a + b, pat, at) == matches_at(a, pat, at),
{
    assert((a + b).subrange(at, at + pat.len()) =~= a.subrange(at, at + pat.len()));
}

/// The first match in `a` is the first match in `a + b`.
pub proof fn lemma_first_match_extends(a: Seq<u8>, b: Seq<u8>, pat: Seq<u8>, from: int, at: int)
    requires
        0 <= from,
        first_match(a, pat, from) == Some(at),
    ensures
        first_match(a + b, pat, from) == Some(at),
{
    lemma_first_match_some(a, pat, from);
    lemma_match_in_prefix(a, b, pat, at);
    assert forall|k: int| from <= k < at implies !matches_at(a + b, pat, k) by {
        lemma_match_in_prefix(a, b, pat, k);
    }
    lemma_first_match_unique(a + b, pat, from, at);
}

/// Tells whether `pat` stands in `s` at index `at`.
pub fn occurs_at(s: &[u8], pat: &[u8], at: usize) -> (res: bool)
    ensures
        res == matches_at(s@, pat@, at as int),
{
    if pat.len() > s.len() || at > s.len() - pat.len() {
        return false;
    }
    let mut j: usize = 0;
    while j < pat.len()
        invariant
            at + pat.len() <= s.len(),
            j <= pat.len(),
            forall|k: int| 0 <= k < j ==> s@[at + k] == pat@[k],
        decreases pat.len() - j,
    {
        if s[at + j] != pat[j] {
            proof {
                let window = s@.subrange(at as int, at + pat.len());
                assert(window[j as int] == s@[at + j]);
            }
            return false;
        }
        j = j + 1;
    }
    assert(s@.subrange(at as int, at + pat.len()) =~= pat@);
    true
}

/// Finds the first index, not before `from`, at which `pat` stands in `s`.
pub fn find(s: &[u8], pat: &[u8], from: usize) -> (res: Option<usize>)
    ensures
        match res {
            Some(at) => first_match(s@, pat@, from as int) == Some(at as int),
            None => first_match(s@, pat@, from as int) is None,
        },
{
    if pat.len() > s.len() || from > s.len() - pat.len() {
        proof {
            lemma_first_match_none(s@, pat@, from as int);
        }
        return None;
    }
    let last: usize = s.len() - pat.len();
    let mut at: usize = from;
    loop
        invariant
            last == s.len() - pat.len(),
            from <= at <= last,
            forall|k: int| from <= k < at ==> !matches_at(s@, pat@, k),
        decreases last - at,
    {
        if occurs_at(s, pat, at) {
            proof {
                lemma_first_match_unique(s@, pat@, from as int, at as int);
            }
            return Some(at);
        }
        if at == last {
            proof {
                lemma_first_match_none(s@, pat@, from as int);
            }
            return None;
        }
        at = at + 1;
    }
}

/// Tells whether `pat` occurs anywhere in `s`.
pub fn contains(s: &[u8], pat: &[u8]) -> (res: bool)
    ensures
        res == exists|at: int| matches_at(s@, pat@, at),
{
    match find(s, pat, 0) {
        Some(at) => {
            proof {
                lemma_first_match_some(s@, pat@, 0);
            }
            true
        },
        None => {
            assert forall|at: int| !matches_at(s@, pat@, at) by {
                if matches_at(s@, pat@, at) {
                    lemma_some_match_has_first(s@, pat@, 0, at);
                }
            }
            false
        },
    }
}

/// Where `pat` stands somewhere from `from` on, there is a first such place.
pub proof fn lemma_some_match_has_first(s: Seq<u8>, pat: Seq<u8>, from: int, at: int)
    requires
        from <= at,
        matches_at(s, pat, at),
    ensures
        first_match(s, pat, from) is Some,
        first_match(s, pat, from)->0 <= at,
    decreases at - from,
{
    if exists|k: int| from <= k < at && matches_at(s, pat, k) {
        let k = choose|k: int| from <= k < at && matches_at(s, pat, k);
        lemma_some_match_has_first(s, pat, from, k);
    } else {
        assert(is_first_match(s, pat, from, at));
        lemma_first_match_unique(s, pat, from, at);
    }
}

/// The bytes that JSON counts as white space.
pub open spec fn is_blank(byte: u8) -> bool {
    byte == 32 || byte == 9 || byte == 10 || byte == 13
}

/// `s` without the blanks at its start.
pub open spec fn trim_start(s: Seq<u8>) -> Seq<u8>
    decreases s.len(),
{
    if s.len() > 0 && is_blank(s[0]) {
        trim_start(s.skip(1))
    } else {
        s
    }
}

/// `s` without the blanks at its end.
pub open spec fn trim_end(s: Seq<u8>) -> Seq<u8>
    decreases s.len(),
{
    if s.len() > 0 && is_blank(s[s.len() - 1]) {
        trim_end(s.take(s.len() - 1))
    } else {
        s
    }
}

/// `s` without `prefix` at its start, where it starts with it.
pub open spec fn strip_prefix(s: Seq<u8>, prefix: Seq<u8>) -> Seq<u8> {
    if matches_at(s, prefix, 0) {
        s.skip(prefix.len() as int)
    } else {
        s
    }
}

/// Tells whether a byte is one that JSON counts as white space.
pub fn blank(byte: u8) -> (res: bool)
    ensures
        res == is_blank(byte),
{
    byte == 32 || byte == 9 || byte == 10 || byte == 13
}

/// The index at which `s[lo..hi]` without the blanks at its start begins.
pub fn skip_blanks(s: &[u8], lo: usize, hi: usize) -> (at: usize)
    requires
        lo <= hi <= s.len(),
    ensures
        lo <= at <= hi,
        s@.subrange(at as int, hi as int) == trim_start(s@.subrange(lo as int, hi as int)),
{
    let mut at: usize = lo;
    while at < hi && blank(s[at])
        invariant
            lo <= at <= hi <= s.len(),
            trim_start(s@.subrange(at as int, hi as int)) == trim_start(
                s@.subrange(lo as int, hi as int),
            ),
        decreases hi - at,
    {
        proof {
            let cur = s@.subrange(at as int, hi as int);
            assert(cur[0] == s@[at as int]);
            assert(cur.skip(1) =~= s@.subrange(at + 1, hi as int));
        }
        at = at + 1;
    }
    proof {
        let cur = s@.subrange(at as int, hi as int);
        if at < hi {
            assert(cur[0] == s@[at as int]);
        }
    }
    at
}

/// The index at which `s[lo..hi]` without the blanks at its end stops.
pub fn drop_blanks(s: &[u8], lo: usize, hi: usize) -> (at: usize)
    requires
        lo <= hi <= s.len(),
    ensures
        lo <= at <= hi,
        s@.subrange(lo as int, at as int) == trim_end(s@.subrange(lo as int, hi as int)),
{
    let mut at: usize = hi;
    while at > lo && blank(s[at - 1])
        invariant
            lo <= at <= hi <= s.len(),
            trim_end(s@.subrange(lo as int, at as int)) == trim_end(
                s@.subrange(lo as int, hi as int),
            ),
        decreases at - lo,
    {
        proof {
            let cur = s@.subrange(lo as int, at as int);
            assert(cur[cur.len() - 1] == s@[at - 1]);
            assert(cur.take(cur.len() - 1) =~= s@.subrange(lo as int, at - 1));
        }
        at = at - 1;
    }
    proof {
        let cur = s@.subrange(lo as int, at as int);
        if at > lo {
            assert(cur[cur.len() - 1] == s@[at - 1]);
        }
    }
    at
}

/// Tells whether two byte strings are the same.
pub fn same_bytes(a: &[u8], b: &[u8]) -> (res: bool)
    ensures
        res == (a@ == b@),
{
    if a.len() != b.len() {
        return false;
    }
    let res = occurs_at(a, b, 0);
    proof {
        assert(a@.subrange(0, a@.len() as int) =~= a@);
    }
    res
}

/// Copies `s[lo..hi]`.
pub fn copy_range(s: &[u8], lo: usize, hi: usize) -> (out: Vec<u8>)
    requires
        lo <= hi <= s.len(),
    ensures
        out@ == s@.subrange(lo as int, hi as int),
{
    let mut out: Vec<u8> = Vec::new();
    let mut at: usize = lo;
    while at < hi
        invariant
            lo <= at <= hi <= s.len(),
            out@ == s@.subrange(lo as int, at as int),
        decreases hi - at,
    {
        out.push(s[at]);
        assert(out@ =~= s@.subrange(lo as int, at + 1));
        at = at + 1;
    }
    out
}

} // verus!
