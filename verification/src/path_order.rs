//! The order of paths: by their components, one after the other. The root
//! comes before `.`, then `..`, then names, which are ordered by their bytes.
use vstd::prelude::*;

use crate::ids::PathKey;
use crate::path::{components_of, same_component, step_view, steps_view, Component, Step};

verus! {

/// Whether a byte string comes before another: at the first byte in which they
/// differ, or where it ends, it has the smaller byte, or none.
pub open spec fn bytes_before(a: Seq<u8>, b: Seq<u8>) -> bool
    decreases a.len(),
{
    if b.len() == 0 {
        false
    } else if a.len() == 0 {
        true
    } else if a[0] == b[0] {
        bytes_before(a.drop_first(), b.drop_first())
    } else {
        a[0] < b[0]
    }
}

/// The place of a kind of component among the kinds.
pub open spec fn step_rank(step: Step) -> int {
    match step {
        Component::RootDir => 0,
        Component::CurDir => 1,
        Component::ParentDir => 2,
        Component::Normal(_) => 3,
    }
}

/// Whether a component comes before another.
pub open spec fn step_before(a: Step, b: Step) -> bool {
    match (a, b) {
        (Component::Normal(x), Component::Normal(y)) => bytes_before(x, y),
        _ => step_rank(a) < step_rank(b),
    }
}

/// Whether a path comes before another, by their components.
pub open spec fn path_before(a: Seq<Step>, b: Seq<Step>) -> bool
    decreases a.len(),
{
    if b.len() == 0 {
        false
    } else if a.len() == 0 {
        true
    } else if a[0] == b[0] {
        path_before(a.drop_first(), b.drop_first())
    } else {
        step_before(a[0], b[0])
    }
}

/// Whether paths stand in order, none of them twice.
pub open spec fn in_path_order(list: Seq<Seq<Step>>) -> bool {
    forall|i: int, j: int| 0 <= i < j < list.len() ==> path_before(#[trigger] list[i], #[trigger] list[j])
}

proof fn lemma_bytes_one_way(a: Seq<u8>, b: Seq<u8>)
    ensures
        a == b ==> !bytes_before(a, b),
        a != b ==> bytes_before(a, b) != bytes_before(b, a),
    decreases a.len(),
{
    if a.len() == 0 || b.len() == 0 {
        if a.len() == b.len() {
            assert(a =~= b);
        }
    } else if a[0] == b[0] {
        lemma_bytes_one_way(a.drop_first(), b.drop_first());
        if a.drop_first() == b.drop_first() {
            assert(a =~= seq![a[0]] + a.drop_first());
            assert(b =~= seq![b[0]] + b.drop_first());
        }
    }
}

proof fn lemma_bytes_chain(a: Seq<u8>, b: Seq<u8>, c: Seq<u8>)
    requires
        bytes_before(a, b),
        bytes_before(b, c),
    ensures
        bytes_before(a, c),
    decreases a.len(),
{
    if a.len() > 0 && a[0] == b[0] && b[0] == c[0] {
        lemma_bytes_chain(a.drop_first(), b.drop_first(), c.drop_first());
    }
}

proof fn lemma_step_one_way(a: Step, b: Step)
    ensures
        a == b ==> !step_before(a, b),
        a != b ==> step_before(a, b) != step_before(b, a),
{
    if let (Component::Normal(x), Component::Normal(y)) = (a, b) {
        lemma_bytes_one_way(x, y);
    }
}

proof fn lemma_step_chain(a: Step, b: Step, c: Step)
    requires
        step_before(a, b),
        step_before(b, c),
    ensures
        step_before(a, c),
        a != c,
{
    if a is Normal && b is Normal && c is Normal {
        lemma_bytes_chain(a->Normal_0, b->Normal_0, c->Normal_0);
    }
    lemma_step_one_way(a, b);
    lemma_step_one_way(a, c);
}

/// Of two paths that differ, exactly one comes before the other.
pub proof fn law_paths_are_ordered(a: Seq<Step>, b: Seq<Step>)
    ensures
        a == b ==> !path_before(a, b),
        a != b ==> path_before(a, b) != path_before(b, a),
    decreases a.len(),
{
    if a.len() == 0 || b.len() == 0 {
        if a.len() == b.len() {
            assert(a =~= b);
        }
    } else if a[0] == b[0] {
        law_paths_are_ordered(a.drop_first(), b.drop_first());
        if a.drop_first() == b.drop_first() {
            assert(a =~= seq![a[0]] + a.drop_first());
            assert(b =~= seq![b[0]] + b.drop_first());
        }
    } else {
        lemma_step_one_way(a[0], b[0]);
    }
}

/// What comes before a path comes before everything behind that path.
pub proof fn law_path_order_chains(a: Seq<Step>, b: Seq<Step>, c: Seq<Step>)
    requires
        path_before(a, b),
        path_before(b, c),
    ensures
        path_before(a, c),
    decreases a.len(),
{
    if a.len() > 0 {
        if a[0] == b[0] && b[0] == c[0] {
            law_path_order_chains(a.drop_first(), b.drop_first(), c.drop_first());
        } else if a[0] != b[0] && b[0] != c[0] {
            lemma_step_chain(a[0], b[0], c[0]);
        }
    }
}

/// Whether a byte string comes before another.
fn is_bytes_before(a: &Vec<u8>, b: &Vec<u8>) -> (res: bool)
    ensures
        res == bytes_before(a@, b@),
{
    let mut i: usize = 0;
    assert(a@.skip(0) =~= a@);
    assert(b@.skip(0) =~= b@);
    while i < a.len() && i < b.len()
        invariant
            i <= a@.len(),
            i <= b@.len(),
            bytes_before(a@, b@) == bytes_before(a@.skip(i as int), b@.skip(i as int)),
        decreases a@.len() - i,
    {
        assert(a@.skip(i as int)[0] == a@[i as int]);
        assert(b@.skip(i as int)[0] == b@[i as int]);
        if a[i] != b[i] {
            return a[i] < b[i];
        }
        assert(a@.skip(i as int).drop_first() =~= a@.skip(i + 1));
        assert(b@.skip(i as int).drop_first() =~= b@.skip(i + 1));
        i += 1;
    }
    i < b.len()
}

fn rank(component: &Component<Vec<u8>>) -> (res: u8)
    ensures
        res == step_rank(step_view(*component)),
{
    match component {
        Component::RootDir => 0,
        Component::CurDir => 1,
        Component::ParentDir => 2,
        Component::Normal(_) => 3,
    }
}

/// Whether a component comes before another.
fn is_component_before(a: &Component<Vec<u8>>, b: &Component<Vec<u8>>) -> (res: bool)
    ensures
        res == step_before(step_view(*a), step_view(*b)),
{
    match (a, b) {
        (Component::Normal(x), Component::Normal(y)) => is_bytes_before(x, y),
        _ => rank(a) < rank(b),
    }
}

/// Whether a path comes before another.
pub fn is_path_before(a: &PathKey, b: &PathKey) -> (res: bool)
    ensures
        res == path_before(a@, b@),
{
    let x = components_of(a.path.as_bytes());
    let y = components_of(b.path.as_bytes());
    let ghost p = steps_view(x@);
    let ghost q = steps_view(y@);
    let mut i: usize = 0;
    assert(p.skip(0) =~= p);
    assert(q.skip(0) =~= q);
    while i < x.len() && i < y.len()
        invariant
            i <= x@.len(),
            i <= y@.len(),
            p == steps_view(x@),
            q == steps_view(y@),
            p == a@,
            q == b@,
            path_before(p, q) == path_before(p.skip(i as int), q.skip(i as int)),
        decreases x@.len() - i,
    {
        assert(p.skip(i as int)[0] == step_view(x@[i as int]));
        assert(q.skip(i as int)[0] == step_view(y@[i as int]));
        if !same_component(&x[i], &y[i]) {
            return is_component_before(&x[i], &y[i]);
        }
        assert(p.skip(i as int).drop_first() =~= p.skip(i + 1));
        assert(q.skip(i as int).drop_first() =~= q.skip(i + 1));
        i += 1;
    }
    i < y.len()
}

/// The components of a list of paths.
pub open spec fn keys_view(list: Seq<PathKey>) -> Seq<Seq<Step>> {
    list.map_values(|k: PathKey| k@)
}

/// Puts a path where it belongs in a list that stands in order.
fn insert_in_order(list: &mut Vec<PathKey>, key: PathKey) -> (at: usize)
    requires
        in_path_order(keys_view(old(list)@)),
        forall|i: int| 0 <= i < old(list)@.len() ==> (#[trigger] old(list)@[i])@ != key@,
    ensures
        at <= old(list)@.len(),
        final(list)@ == old(list)@.insert(at as int, key),
        in_path_order(keys_view(final(list)@)),
{
    let ghost before = list@;
    let ghost k = key@;
    let mut at: usize = 0;
    while at < list.len() && is_path_before(&list[at], &key)
        invariant
            at <= list@.len(),
            list@ == before,
            key@ == k,
            forall|i: int| 0 <= i < at ==> path_before((#[trigger] before[i])@, k),
        decreases list@.len() - at,
    {
        at += 1;
    }
    proof {
        let order = keys_view(before);
        assert forall|i: int| at <= i < before.len() implies path_before(k, (#[trigger] before[i])@) by {
            law_paths_are_ordered(before[at as int]@, k);
            if i > at {
                assert(path_before(order[at as int], order[i]));
                law_path_order_chains(k, before[at as int]@, before[i]@);
            }
        }
        let after = keys_view(before.insert(at as int, key));
        assert forall|i: int, j: int| 0 <= i < j < after.len() implies path_before(#[trigger] after[i], #[trigger] after[j]) by {
            if i != at && j != at {
                let x = if i < at { i } else { i - 1 };
                let y = if j < at { j } else { j - 1 };
                assert(after[i] == order[x]);
                assert(after[j] == order[y]);
            } else if i == at {
                assert(after[j] == before[j - 1]@);
            } else {
                assert(after[i] == before[i]@);
            }
        }
    }
    list.insert(at, key);
    at
}

/// Whether a path stands in a list.
pub open spec fn is_listed(list: Seq<PathKey>, path: Seq<Step>) -> bool {
    exists|i: int| 0 <= i < list.len() && (#[trigger] list[i])@ == path
}

/// One path more in a list.
proof fn lemma_listed_insert(list: Seq<PathKey>, at: int, key: PathKey, path: Seq<Step>)
    requires
        0 <= at <= list.len(),
    ensures
        is_listed(list.insert(at, key), path) == (is_listed(list, path) || key@ == path),
{
    let after = list.insert(at, key);
    if is_listed(list, path) {
        let i = choose|i: int| 0 <= i < list.len() && (#[trigger] list[i])@ == path;
        assert(after[if i < at { i } else { i + 1 }] == list[i]);
    }
    if key@ == path {
        assert(after[at]@ == path);
    }
    if is_listed(after, path) {
        let i = choose|i: int| 0 <= i < after.len() && (#[trigger] after[i])@ == path;
        if i < at {
            assert(list[i] == after[i]);
        } else if i > at {
            assert(list[i - 1] == after[i]);
        }
    }
}

/// The paths of a list without repetition, in order.
pub fn sorted_paths(keys: &Vec<PathKey>) -> (list: Vec<PathKey>)
    requires
        forall|i: int, j: int| 0 <= i < j < keys@.len() ==> (#[trigger] keys@[i])@ != (#[trigger] keys@[j])@,
    ensures
        list@.len() == keys@.len(),
        in_path_order(keys_view(list@)),
        forall|path: Seq<Step>| #[trigger] is_listed(list@, path) == is_listed(keys@, path),
{
    let mut list: Vec<PathKey> = Vec::new();
    let mut n: usize = 0;
    while n < keys.len()
        invariant
            n <= keys@.len(),
            list@.len() == n,
            in_path_order(keys_view(list@)),
            forall|i: int, j: int| 0 <= i < j < keys@.len() ==> (#[trigger] keys@[i])@ != (#[trigger] keys@[j])@,
            forall|path: Seq<Step>| #[trigger] is_listed(list@, path) == is_listed(keys@.take(n as int), path),
        decreases keys@.len() - n,
    {
        let ghost before = list@;
        let ghost seen = keys@.take(n as int);
        let key = PathKey::of(&keys[n].path);
        assert forall|i: int| 0 <= i < before.len() implies (#[trigger] before[i])@ != key@ by {
            assert(is_listed(before, before[i]@));
            let j = choose|j: int| 0 <= j < seen.len() && (#[trigger] seen[j])@ == before[i]@;
            assert(keys@[j]@ != keys@[n as int]@);
        }
        let ghost added = key;
        let at: usize = insert_in_order(&mut list, key);
        proof {
            let now = keys@.take(n + 1);
            assert(now =~= seen.insert(n as int, keys@[n as int]));
            assert forall|path: Seq<Step>| #[trigger] is_listed(list@, path) == is_listed(now, path) by {
                lemma_listed_insert(before, at as int, added, path);
                lemma_listed_insert(seen, n as int, keys@[n as int], path);
                assert(is_listed(before, path) == is_listed(seen, path));
            }
        }
        n += 1;
    }
    assert(keys@.take(n as int) =~= keys@);
    list
}

/// Byte strings are ordered by the first byte in which they differ, and the
/// shorter comes first where they do not.
pub proof fn law_bytes_are_ordered_as_words(head: Seq<u8>, a: u8, b: u8, x: Seq<u8>, y: Seq<u8>)
    ensures
        a != b ==> bytes_before(head + (seq![a] + x), head + (seq![b] + y)) == (a < b),
        bytes_before(head, head + (seq![a] + x)),
        !bytes_before(head + (seq![a] + x), head),
        !bytes_before(head, head),
    decreases head.len(),
{
    let p = seq![a] + x;
    let q = seq![b] + y;
    if head.len() == 0 {
        assert(head + p =~= p);
        assert(head + q =~= q);
    } else {
        let rest = head.drop_first();
        law_bytes_are_ordered_as_words(rest, a, b, x, y);
        assert((head + p).drop_first() =~= rest + p);
        assert((head + q).drop_first() =~= rest + q);
    }
}

/// Paths are ordered by the first component in which they differ, and a
/// directory comes before what is in it. The root comes before `.`, that before
/// `..`, and that before every name.
pub proof fn law_paths_are_ordered_by_component(head: Seq<Step>, a: Step, b: Step, x: Seq<Step>, y: Seq<Step>)
    ensures
        a != b ==> path_before(head + (seq![a] + x), head + (seq![b] + y)) == step_before(a, b),
        path_before(head, head + (seq![a] + x)),
        !path_before(head + (seq![a] + x), head),
        !path_before(head, head),
        a is RootDir && !(b is RootDir) ==> step_before(a, b),
        a is CurDir && (b is ParentDir || b is Normal) ==> step_before(a, b),
        a is ParentDir && b is Normal ==> step_before(a, b),
        (a matches Component::Normal(s) && b matches Component::Normal(t)) ==> step_before(a, b) == bytes_before(
            a->Normal_0,
            b->Normal_0,
        ),
    decreases head.len(),
{
    let p = seq![a] + x;
    let q = seq![b] + y;
    if head.len() == 0 {
        assert(head + p =~= p);
        assert(head + q =~= q);
    } else {
        let rest = head.drop_first();
        law_paths_are_ordered_by_component(rest, a, b, x, y);
        assert((head + p).drop_first() =~= rest + p);
        assert((head + q).drop_first() =~= rest + q);
    }
}

/// A list stands in order where each path comes before all that stand behind
/// it, so that no path stands in it twice.
pub proof fn law_ordered_lists(list: Seq<Seq<Step>>, i: int, j: int)
    requires
        in_path_order(list),
        0 <= i < j < list.len(),
    ensures
        path_before(list[i], list[j]),
        !path_before(list[j], list[i]),
        list[i] != list[j],
{
    law_paths_are_ordered(list[i], list[j]);
    law_paths_are_ordered(list[j], list[i]);
}

} // verus!
