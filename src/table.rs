//! Facts about session sequences with distinct endpoints, read as maps
//! from endpoint to session.
use vstd::prelude::*;
use crate::model::{Session, Endpoint, distinct_endpoints, has_endpoint, index_of, lookup};

verus! {

/// In a sequence with distinct endpoints, the session at `i` is the one
/// that its endpoint looks up.
pub proof fn lemma_lookup_at(s: Seq<Session>, i: int)
    requires
        distinct_endpoints(s),
        0 <= i < s.len(),
    ensures
        has_endpoint(s, s[i].endpoint),
        index_of(s, s[i].endpoint) == i,
        lookup(s, s[i].endpoint) == Some(s[i]),
{
    assert(has_endpoint(s, s[i].endpoint));
    let j = index_of(s, s[i].endpoint);
    assert(s[j].endpoint == s[i].endpoint);
}

/// Replacing a session by one of the same endpoint changes only that
/// endpoint's entry.
pub proof fn lemma_lookup_update(s: Seq<Session>, i: int, v: Session, e: Endpoint)
    requires
        distinct_endpoints(s),
        0 <= i < s.len(),
        v.endpoint == s[i].endpoint,
    ensures
        distinct_endpoints(s.update(i, v)),
        lookup(s.update(i, v), e) == if e == v.endpoint {
            Some(v)
        } else {
            lookup(s, e)
        },
{
    let t = s.update(i, v);
    assert(distinct_endpoints(t)) by {
        assert forall|a: int, b: int|
            0 <= a < t.len() && 0 <= b < t.len() && a != b implies #[trigger] t[a].endpoint
            != #[trigger] t[b].endpoint by {
            assert(t[a].endpoint == s[a].endpoint);
            assert(t[b].endpoint == s[b].endpoint);
        }
    }
    if e == v.endpoint {
        assert(t[i] == v);
        lemma_lookup_at(t, i);
    } else if has_endpoint(s, e) {
        let j = index_of(s, e);
        lemma_lookup_at(s, j);
        assert(t[j] == s[j]);
        lemma_lookup_at(t, j);
    } else {
        assert(!has_endpoint(t, e)) by {
            if has_endpoint(t, e) {
                let j = index_of(t, e);
                assert(s[j].endpoint == e);
            }
        }
    }
}

/// Appending a session of a new endpoint adds only that endpoint's entry.
pub proof fn lemma_lookup_push(s: Seq<Session>, v: Session, e: Endpoint)
    requires
        distinct_endpoints(s),
        !has_endpoint(s, v.endpoint),
    ensures
        distinct_endpoints(s.push(v)),
        lookup(s.push(v), e) == if e == v.endpoint {
            Some(v)
        } else {
            lookup(s, e)
        },
{
    let t = s.push(v);
    assert(distinct_endpoints(t)) by {
        assert forall|a: int, b: int|
            0 <= a < t.len() && 0 <= b < t.len() && a != b implies #[trigger] t[a].endpoint
            != #[trigger] t[b].endpoint by {
            if a < s.len() {
                assert(t[a] == s[a]);
            }
            if b < s.len() {
                assert(t[b] == s[b]);
            }
        }
    }
    if e == v.endpoint {
        lemma_lookup_at(t, s.len() as int);
    } else if has_endpoint(s, e) {
        let j = index_of(s, e);
        lemma_lookup_at(s, j);
        assert(t[j] == s[j]);
        lemma_lookup_at(t, j);
    } else {
        assert(!has_endpoint(t, e)) by {
            if has_endpoint(t, e) {
                let j = index_of(t, e);
                if j < s.len() {
                    assert(s[j].endpoint == e);
                }
            }
        }
    }
}

/// Removing the session at `i` removes only that endpoint's entry.
pub proof fn lemma_lookup_remove(s: Seq<Session>, i: int, e: Endpoint)
    requires
        distinct_endpoints(s),
        0 <= i < s.len(),
    ensures
        distinct_endpoints(s.remove(i)),
        lookup(s.remove(i), e) == if e == s[i].endpoint {
            None
        } else {
            lookup(s, e)
        },
{
    let t = s.remove(i);
    assert forall|a: int| 0 <= a < t.len() implies #[trigger] t[a] == if a < i {
        s[a]
    } else {
        s[a + 1]
    } by {}
    assert(distinct_endpoints(t)) by {
        assert forall|a: int, b: int|
            0 <= a < t.len() && 0 <= b < t.len() && a != b implies #[trigger] t[a].endpoint
            != #[trigger] t[b].endpoint by {
            let a2 = if a < i { a } else { a + 1 };
            let b2 = if b < i { b } else { b + 1 };
            assert(t[a] == s[a2]);
            assert(t[b] == s[b2]);
        }
    }
    if has_endpoint(t, e) {
        let j = index_of(t, e);
        let j2 = if j < i { j } else { j + 1 };
        assert(t[j] == s[j2]);
        lemma_lookup_at(s, j2);
        lemma_lookup_at(t, j);
        assert(j2 != i);
    } else {
        if e != s[i].endpoint && has_endpoint(s, e) {
            let j = index_of(s, e);
            lemma_lookup_at(s, j);
            let j2 = if j < i { j } else { j - 1 };
            assert(t[j2] == s[j]);
        }
    }
}

} // verus!
