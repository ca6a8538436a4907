use vstd::prelude::*;

verus! {

/// `p` occurs in `s` starting at index `i`.
pub open spec fn occurs_at(s: Seq<char>, p: Seq<char>, i: int) -> bool {
    0 <= i && i + p.len() <= s.len() && s.subrange(i, i + p.len()) == p
}

/// The first index `k >= i` at which `p` occurs in `s`.
pub open spec fn first_from(s: Seq<char>, p: Seq<char>, i: int) -> Option<int>
    decreases s.len() + 1 - i,
{
    if i < 0 || i + p.len() > s.len() {
        None
    } else if occurs_at(s, p, i) {
        Some(i)
    } else {
        first_from(s, p, i + 1)
    }
}

/// The last index `k <= i` at which `p` occurs in `s`.
pub open spec fn last_upto(s: Seq<char>, p: Seq<char>, i: int) -> Option<int>
    decreases i + 1,
{
    if i < 0 {
        None
    } else if occurs_at(s, p, i) {
        Some(i)
    } else {
        last_upto(s, p, i - 1)
    }
}

/// `p` occurs somewhere in `s`.
pub open spec fn contains(s: Seq<char>, p: Seq<char>) -> bool {
    first_from(s, p, 0) is Some
}

/// The attribute-style marker `m_fileName="`.
pub open spec fn attr_marker() -> Seq<char> {
    seq!['m', '_', 'f', 'i', 'l', 'e', 'N', 'a', 'm', 'e', '=', '"']
}

/// The closing quote of the attribute-style marker.
pub open spec fn attr_close() -> Seq<char> {
    seq!['"']
}

/// The escaped-field marker `\"filename\":\"`.
pub open spec fn json_marker() -> Seq<char> {
    seq!['\\', '"', 'f', 'i', 'l', 'e', 'n', 'a', 'm', 'e', '\\', '"', ':', '\\', '"']
}

/// The closing escaped quote `\"`.
pub open spec fn json_close() -> Seq<char> {
    seq!['\\', '"']
}

/// The text of `s` from `start` up to the first `close` after it.
pub open spec fn up_to(s: Seq<char>, start: int, close: Seq<char>) -> Option<Seq<char>> {
    match first_from(s, close, start) {
        Some(j) => Some(s.subrange(start, j)),
        None => None,
    }
}

/// What the attribute-style grammar extracts: the text after the first
/// `m_fileName="`, up to the next `"`.
pub open spec fn attr_name(s: Seq<char>) -> Option<Seq<char>> {
    match first_from(s, attr_marker(), 0) {
        Some(i) => up_to(s, i + attr_marker().len(), attr_close()),
        None => None,
    }
}

/// What the escaped-field grammar extracts: the text after the last
/// `\"filename\":\"`, up to the next `\"`.
pub open spec fn json_name(s: Seq<char>) -> Option<Seq<char>> {
    match last_upto(s, json_marker(), s.len() as int) {
        Some(i) => up_to(s, i + json_marker().len(), json_close()),
        None => None,
    }
}

/// The referenced item name in a piece of markup: the attribute-style grammar
/// decides whenever its marker is present, the escaped-field grammar otherwise.
pub open spec fn file_name_of(s: Seq<char>) -> Option<Seq<char>> {
    if contains(s, attr_marker()) {
        attr_name(s)
    } else {
        json_name(s)
    }
}

fn occurs_at_exec(s: &str, n: usize, p: &str, m: usize, i: usize) -> (r: bool)
    requires
        n == s@.len(),
        m == p@.len(),
    ensures
        r == occurs_at(s@, p@, i as int),
{
    if i > n || m > n - i {
        return false;
    }
    let mut k: usize = 0;
    while k < m
        invariant
            i + m <= n,
            n == s@.len(),
            m == p@.len(),
            k <= m,
            forall|t: int| 0 <= t < k ==> s@[i + t] == p@[t],
        decreases m - k,
    {
        if s.get_char(i + k) != p.get_char(k) {
            assert(s@.subrange(i as int, i + m)[k as int] != p@[k as int]);
            return false;
        }
        k = k + 1;
    }
    assert(s@.subrange(i as int, i + m) =~= p@);
    true
}

fn first_from_exec(s: &str, n: usize, p: &str, m: usize, from: usize) -> (r: Option<usize>)
    requires
        n == s@.len(),
        m == p@.len(),
    ensures
        match r {
            Some(k) => first_from(s@, p@, from as int) == Some(k as int),
            None => first_from(s@, p@, from as int) is None,
        },
{
    if from > n {
        return None;
    }
    let mut i: usize = from;
    loop
        invariant
            n == s@.len(),
            m == p@.len(),
            from <= i <= n,
            first_from(s@, p@, from as int) == first_from(s@, p@, i as int),
        decreases n - i,
    {
        if m > n - i {
            return None;
        }
        if occurs_at_exec(s, n, p, m, i) {
            return Some(i);
        }
        if i == n {
            assert(s@.subrange(i as int, i + m) =~= p@);
            return None;
        }
        i = i + 1;
    }
}

fn last_upto_exec(s: &str, n: usize, p: &str, m: usize) -> (r: Option<usize>)
    requires
        n == s@.len(),
        m == p@.len(),
    ensures
        match r {
            Some(k) => last_upto(s@, p@, n as int) == Some(k as int),
            None => last_upto(s@, p@, n as int) is None,
        },
{
    let mut i: usize = n;
    loop
        invariant
            n == s@.len(),
            m == p@.len(),
            i <= n,
            last_upto(s@, p@, n as int) == last_upto(s@, p@, i as int),
        decreases i,
    {
        if occurs_at_exec(s, n, p, m, i) {
            return Some(i);
        }
        if i == 0 {
            return None;
        }
        i = i - 1;
    }
}

/// `p` occurs in `s`.
pub fn contains_exec(s: &str, p: &str) -> (r: bool)
    ensures
        r == contains(s@, p@),
{
    let n = s.unicode_len();
    let m = p.unicode_len();
    first_from_exec(s, n, p, m, 0).is_some()
}

fn up_to_exec<'a>(s: &'a str, n: usize, start: usize, close: &str) -> (r: Option<&'a str>)
    requires
        n == s@.len(),
        start <= n,
    ensures
        match r {
            Some(x) => up_to(s@, start as int, close@) == Some(x@),
            None => up_to(s@, start as int, close@) is None,
        },
{
    let m = close.unicode_len();
    match first_from_exec(s, n, close, m, start) {
        Some(j) => {
            proof {
                lemma_first_from_bounds(s@, close@, start as int);
            }
            Some(s.substring_char(start, j))
        },
        None => None,
    }
}

/// An index that `first_from` returns is an occurrence at or after the start.
pub proof fn lemma_first_from_bounds(s: Seq<char>, p: Seq<char>, i: int)
    ensures
        first_from(s, p, i) matches Some(k) ==> i <= k && occurs_at(s, p, k),
    decreases s.len() + 1 - i,
{
    if !(i < 0 || i + p.len() > s.len()) && !occurs_at(s, p, i) {
        lemma_first_from_bounds(s, p, i + 1);
    }
}

/// An index that `last_upto` returns is an occurrence at or before the bound.
pub proof fn lemma_last_upto_bounds(s: Seq<char>, p: Seq<char>, i: int)
    ensures
        last_upto(s, p, i) matches Some(k) ==> k <= i && occurs_at(s, p, k),
    decreases i + 1,
{
    if i >= 0 && !occurs_at(s, p, i) {
        lemma_last_upto_bounds(s, p, i - 1);
    }
}

/// `first_from` returns an occurrence that no earlier one from the start precedes.
pub proof fn lemma_first_from_at(s: Seq<char>, p: Seq<char>, i: int, k: int)
    requires
        0 <= i <= k,
        occurs_at(s, p, k),
        forall|j: int| i <= j < k ==> !occurs_at(s, p, j),
    ensures
        first_from(s, p, i) == Some(k),
    decreases k - i,
{
    if i < k {
        lemma_first_from_at(s, p, i + 1, k);
    }
}

/// When `first_from` finds nothing, `p` does not occur from the start on.
pub proof fn lemma_first_from_none(s: Seq<char>, p: Seq<char>, i: int)
    requires
        0 <= i,
        first_from(s, p, i) is None,
    ensures
        forall|k: int| i <= k ==> !occurs_at(s, p, k),
    decreases s.len() + 1 - i,
{
    if i + p.len() <= s.len() {
        lemma_first_from_none(s, p, i + 1);
    }
}

/// `last_upto` returns an occurrence that no later one up to the bound follows.
pub proof fn lemma_last_upto_at(s: Seq<char>, p: Seq<char>, i: int, k: int)
    requires
        0 <= k <= i,
        occurs_at(s, p, k),
        forall|j: int| k < j <= i ==> !occurs_at(s, p, j),
    ensures
        last_upto(s, p, i) == Some(k),
    decreases i - k,
{
    if k < i {
        lemma_last_upto_at(s, p, i - 1, k);
    }
}

/// Where `p` does not occur up to the bound, `last_upto` finds nothing.
pub proof fn lemma_last_upto_none(s: Seq<char>, p: Seq<char>, i: int)
    requires
        forall|j: int| j <= i ==> !occurs_at(s, p, j),
    ensures
        last_upto(s, p, i) is None,
    decreases i + 1,
{
    if i >= 0 {
        lemma_last_upto_none(s, p, i - 1);
    }
}

/// Finds the item name that a piece of forward markup refers to, in either
/// the attribute style (`m_fileName="..."`) or the escaped-field style
/// (`\"filename\":\"...\"`).
pub fn find_file_name(source: &str) -> (r: Option<&str>)
    ensures
        match r {
            Some(x) => file_name_of(source@) == Some(x@),
            None => file_name_of(source@) is None,
        },
{
    let n = source.unicode_len();
    let attr = "m_fileName=\"";
    proof {
        reveal_strlit("m_fileName=\"");
        assert(attr@ =~= attr_marker());
    }
    let am = attr.unicode_len();
    if let Some(i) = first_from_exec(source, n, attr, am, 0) {
        proof {
            lemma_first_from_bounds(source@, attr@, 0);
        }
        let close = "\"";
        proof {
            reveal_strlit("\"");
            assert(close@ =~= attr_close());
        }
        return up_to_exec(source, n, i + am, close);
    }
    let json = "\\\"filename\\\":\\\"";
    proof {
        reveal_strlit("\\\"filename\\\":\\\"");
        assert(json@ =~= json_marker());
    }
    let jm = json.unicode_len();
    if let Some(i) = last_upto_exec(source, n, json, jm) {
        proof {
            lemma_last_upto_bounds(source@, json@, n as int);
        }
        let close = "\\\"";
        proof {
            reveal_strlit("\\\"");
            assert(close@ =~= json_close());
        }
        return up_to_exec(source, n, i + jm, close);
    }
    None
}

} // verus!
