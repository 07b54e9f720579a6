//! Text-level path handling for the supervisor.
//!
//! Two small pieces of the host's edges are pure text work and are
//! verified here: building the script path a builder name resolves to,
//! and picking the builder name out of a request path of the form
//! `/foo/bar/NAME?key=value`.

use vstd::prelude::*;

verus! {

/// The path of the script for a builder, relative to the data
/// directory: the builder's name inside the `builders` directory.
pub fn script_path(name: &String) -> (p: String)
    ensures
        p@ == "builders/"@ + name@,
{
    let mut p = String::from_str("builders/");
    p.append(name.as_str());
    p
}

/// The characters of a request path before its query part: everything
/// up to the first `?`, or the whole path if there is none.
pub open spec fn before_query(p: Seq<char>) -> Seq<char>
    decreases p.len(),
{
    if p.len() == 0 {
        p
    } else if p[0] == '?' {
        Seq::<char>::empty()
    } else {
        seq![p[0]] + before_query(p.drop_first())
    }
}

/// The final component of a path: the characters after the last `/`, or
/// the whole path if there is none.
pub open spec fn last_component(p: Seq<char>) -> Seq<char>
    decreases p.len(),
{
    if p.len() == 0 {
        p
    } else if p.last() == '/' {
        Seq::<char>::empty()
    } else {
        last_component(p.drop_last()).push(p.last())
    }
}

/// If position `q` holds the first `?` (or is the end of a `?`-free
/// path), the text before the query is the prefix of length `q`.
proof fn lemma_before_query_at(p: Seq<char>, q: int)
    requires
        0 <= q <= p.len(),
        forall|j: int| 0 <= j < q ==> p[j] != '?',
        q < p.len() ==> p[q] == '?',
    ensures
        before_query(p) == p.subrange(0, q),
    decreases p.len(),
{
    if p.len() == 0 {
        assert(p.subrange(0, 0) =~= p);
    } else if q == 0 {
        assert(p.subrange(0, 0) =~= Seq::<char>::empty());
    } else {
        lemma_before_query_at(p.drop_first(), q - 1);
        assert(seq![p[0]] + p.drop_first().subrange(0, q - 1) =~= p.subrange(0, q));
    }
}

/// If position `k` holds the last `/` (or is just before the start of a
/// `/`-free path), the final component is the suffix after `k`.
proof fn lemma_last_component_at(p: Seq<char>, k: int)
    requires
        -1 <= k < p.len(),
        forall|j: int| k < j < p.len() ==> p[j] != '/',
        k >= 0 ==> p[k] == '/',
    ensures
        last_component(p) == p.subrange(k + 1, p.len() as int),
    decreases p.len(),
{
    if p.len() == 0 {
        assert(p.subrange(0, 0) =~= p);
    } else if k == p.len() - 1 {
        assert(p.subrange(p.len() as int, p.len() as int) =~= Seq::<char>::empty());
    } else {
        lemma_last_component_at(p.drop_last(), k);
        assert(p.drop_last().subrange(k + 1, p.len() - 1).push(p.last()) =~= p.subrange(
            k + 1,
            p.len() as int,
        ));
    }
}

/// The builder name a request path addresses: the final component of
/// the path before the query, if that component is non-empty.  A path
/// naming no builder (empty, ending in `/`, or with its query right
/// after a `/`) yields `None` — the caller reports it as not found
/// rather than panicking.
pub fn builder_name_of(path: &str) -> (r: Option<String>)
    ensures
        match r {
            Some(s) => s@ == last_component(before_query(path@)) && s@.len() > 0,
            None => last_component(before_query(path@)).len() == 0,
        },
{
    let n = path.unicode_len();
    let mut q: usize = 0;
    while q < n && path.get_char(q) != '?'
        invariant
            n == path@.len(),
            q <= n,
            forall|j: int| 0 <= j < q ==> path@[j] != '?',
        decreases n - q,
    {
        q = q + 1;
    }
    proof {
        lemma_before_query_at(path@, q as int);
    }
    let mut k: usize = q;
    while k > 0 && path.get_char(k - 1) != '/'
        invariant
            n == path@.len(),
            k <= q <= n,
            forall|j: int| k <= j < q ==> path@[j] != '/',
        decreases k,
    {
        k = k - 1;
    }
    proof {
        lemma_last_component_at(path@.subrange(0, q as int), k - 1);
        assert(path@.subrange(0, q as int).subrange(k as int, q as int) =~= path@.subrange(
            k as int,
            q as int,
        ));
    }
    if k == q {
        None
    } else {
        Some(String::from_str(path.substring_char(k, q)))
    }
}

} // verus!
