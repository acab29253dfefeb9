//! Operations in the order of their names, as the command line lists them.

use crate::openapi::{endpoint_views, Endpoint, EndpointView};
use crate::text::chars_of;
use vstd::prelude::*;

verus! {

/// Whether `a` from position `from` on stands before `b` from that position
/// on: at the first position where they differ `a` has the smaller
/// character, or `a` ends there and `b` does not.
pub open spec fn text_lt_from(a: Seq<char>, b: Seq<char>, from: int) -> bool
    decreases b.len() - from,
{
    if from < 0 || from >= b.len() {
        false
    } else if from >= a.len() {
        true
    } else if a[from] != b[from] {
        a[from] < b[from]
    } else {
        text_lt_from(a, b, from + 1)
    }
}

/// Whether `a` stands before `b` in the order of strings.
pub open spec fn text_lt(a: Seq<char>, b: Seq<char>) -> bool {
    text_lt_from(a, b, 0)
}

/// Whether no operation stands before one of an earlier name.
pub open spec fn sorted_by_name(endpoints: Seq<EndpointView>) -> bool {
    forall|i: int, j: int|
        0 <= i < j < endpoints.len() ==> !text_lt(
            (#[trigger] endpoints[j]).name,
            (#[trigger] endpoints[i]).name,
        )
}

/// The operations of the given name, in their order.
pub open spec fn named(endpoints: Seq<EndpointView>, name: Seq<char>) -> Seq<EndpointView>
    decreases endpoints.len(),
{
    if endpoints.len() == 0 {
        Seq::empty()
    } else if endpoints.last().name == name {
        named(endpoints.drop_last(), name).push(endpoints.last())
    } else {
        named(endpoints.drop_last(), name)
    }
}

/// Whether `a` stands before `b` in the order of strings.
pub fn name_lt(a: &str, b: &str) -> (before: bool)
    ensures
        before == text_lt(a@, b@),
{
    let left = chars_of(a);
    let right = chars_of(b);
    let mut i: usize = 0;
    loop
        invariant
            left@ == a@,
            right@ == b@,
            i <= left.len(),
            i <= right.len(),
            text_lt(a@, b@) == text_lt_from(a@, b@, i as int),
        decreases right.len() - i,
    {
        if i >= right.len() {
            return false;
        }
        if i >= left.len() {
            return true;
        }
        if left[i] != right[i] {
            return left[i] < right[i];
        }
        i += 1;
    }
}

/// No string stands before itself.
pub proof fn lemma_text_lt_irreflexive(a: Seq<char>, from: int)
    ensures
        !text_lt_from(a, a, from),
    decreases a.len() - from,
{
    if 0 <= from < a.len() {
        lemma_text_lt_irreflexive(a, from + 1);
    }
}

/// Of two strings at most one stands before the other.
pub proof fn lemma_text_lt_asymmetric(a: Seq<char>, b: Seq<char>, from: int)
    requires
        text_lt_from(a, b, from),
    ensures
        !text_lt_from(b, a, from),
    decreases b.len() - from,
{
    if from < a.len() && a[from] == b[from] {
        lemma_text_lt_asymmetric(a, b, from + 1);
    }
}

/// Where `c` stands before `a`, it stands before `b`, or `b` stands before
/// `a`.
pub proof fn lemma_text_lt_between(c: Seq<char>, a: Seq<char>, b: Seq<char>, from: int)
    requires
        text_lt_from(c, a, from),
    ensures
        text_lt_from(c, b, from) || text_lt_from(b, a, from),
    decreases a.len() - from,
{
    if from < c.len() && from < b.len() && c[from] == a[from] && b[from] == a[from] {
        lemma_text_lt_between(c, a, b, from + 1);
    }
}

/// The operations of one name in a concatenation are those of its parts.
proof fn lemma_named_add(a: Seq<EndpointView>, b: Seq<EndpointView>, name: Seq<char>)
    ensures
        named(a + b, name) == named(a, name) + named(b, name),
    decreases b.len(),
{
    if b.len() > 0 {
        assert((a + b).drop_last() == a + b.drop_last());
        lemma_named_add(a, b.drop_last(), name);
    }
}

/// Among operations that all stand before `name`, none has that name.
proof fn lemma_named_none(endpoints: Seq<EndpointView>, name: Seq<char>)
    requires
        forall|i: int| 0 <= i < endpoints.len() ==> text_lt((#[trigger] endpoints[i]).name, name),
    ensures
        named(endpoints, name) == Seq::<EndpointView>::empty(),
    decreases endpoints.len(),
{
    if endpoints.len() > 0 {
        lemma_text_lt_irreflexive(name, 0);
        lemma_named_none(endpoints.drop_last(), name);
    }
}

/// What putting one operation into a sequence does to the operations of
/// each name, where all operations before the place stand before it.
proof fn lemma_named_insert(
    endpoints: Seq<EndpointView>,
    at: int,
    endpoint: EndpointView,
    name: Seq<char>,
)
    requires
        0 <= at <= endpoints.len(),
        forall|i: int| 0 <= i < at ==> text_lt((#[trigger] endpoints[i]).name, endpoint.name),
    ensures
        named(endpoints.insert(at, endpoint), name) == (if endpoint.name == name {
            seq![endpoint] + named(endpoints, name)
        } else {
            named(endpoints, name)
        }),
{
    let before = endpoints.take(at);
    let after = endpoints.skip(at);
    assert(endpoints.insert(at, endpoint) == before + seq![endpoint] + after);
    assert(endpoints == before + after);
    lemma_named_add(before + seq![endpoint], after, name);
    lemma_named_add(before, seq![endpoint], name);
    lemma_named_add(before, after, name);
    assert(named(seq![endpoint].drop_last(), name) == Seq::<EndpointView>::empty());
    if endpoint.name == name {
        lemma_named_none(before, name);
    }
}

/// Puts the operations in the order of their names. Operations of the same
/// name keep their order.
pub fn sort_by_name(endpoints: Vec<Endpoint>) -> (sorted: Vec<Endpoint>)
    ensures
        sorted_by_name(endpoint_views(sorted@)),
        forall|name: Seq<char>| #[trigger]
            named(endpoint_views(sorted@), name) == named(endpoint_views(endpoints@), name),
{
    let mut rest = endpoints;
    let mut sorted: Vec<Endpoint> = Vec::new();
    while rest.len() > 0
        invariant
            sorted_by_name(endpoint_views(sorted@)),
            forall|name: Seq<char>| #[trigger]
                named(endpoint_views(rest@), name) + named(endpoint_views(sorted@), name) == named(
                    endpoint_views(endpoints@),
                    name,
                ),
        decreases rest.len(),
    {
        let ghost rest_before = endpoint_views(rest@);
        let ghost sorted_before = endpoint_views(sorted@);
        let endpoint = rest.pop().unwrap();
        assert(endpoint_views(rest@) == rest_before.drop_last());
        let mut at: usize = 0;
        while at < sorted.len() && name_lt(sorted[at].name.as_str(), endpoint.name.as_str())
            invariant
                at <= sorted.len(),
                sorted_before == endpoint_views(sorted@),
                forall|i: int|
                    0 <= i < at ==> text_lt((#[trigger] sorted_before[i]).name, endpoint@.name),
            decreases sorted.len() - at,
        {
            at += 1;
        }
        let ghost name = endpoint@.name;
        sorted.insert(at, endpoint);
        let ghost sorted_after = endpoint_views(sorted@);
        assert(sorted_after == sorted_before.insert(at as int, endpoint@));
        assert(sorted_by_name(sorted_after)) by {
            assert forall|i: int, j: int| 0 <= i < j < sorted_after.len() implies !text_lt(
                (#[trigger] sorted_after[j]).name,
                (#[trigger] sorted_after[i]).name,
            ) by {
                if j == at {
                    lemma_text_lt_asymmetric(sorted_before[i].name, name, 0);
                } else if i == at {
                    let later = sorted_before[j - 1].name;
                    let first = sorted_before[at as int].name;
                    if text_lt(later, name) {
                        lemma_text_lt_between(later, name, first, 0);
                    }
                }
            }
        }
        assert forall|n: Seq<char>| #[trigger]
            named(endpoint_views(rest@), n) + named(sorted_after, n) == named(
                endpoint_views(endpoints@),
                n,
            ) by {
            lemma_named_insert(sorted_before, at as int, endpoint@, n);
            assert(named(rest_before, n) + named(sorted_before, n) == named(
                endpoint_views(endpoints@),
                n,
            ));
        }
    }
    assert forall|name: Seq<char>| #[trigger]
        named(endpoint_views(sorted@), name) == named(endpoint_views(endpoints@), name) by {
        assert(named(endpoint_views(rest@), name) == Seq::<EndpointView>::empty());
    }
    sorted
}

} // verus!
