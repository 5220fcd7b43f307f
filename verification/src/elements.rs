//! Which tag of the template HTML each element id of a block stands for.
use vstd::prelude::*;
use vstd::set_lib::{lemma_len_subset, lemma_subset_equality};

use std::collections::HashMap;

use crate::html::{opt_int, tags_view, TagEntry, TagV};
use crate::ir::Operation;

verus! {

broadcast use vstd::std_specs::hash::group_hash_axioms;

/// The position of the `n`-th tag, in order, whose parent is `p`.
pub open spec fn nth_with_parent(ts: Seq<TagV>, p: Option<int>, n: int) -> Option<int>
    decreases ts.len(),
{
    if ts.len() == 0 {
        None
    } else if ts[0].parent == p {
        if n == 0 {
            Some(ts[0].pos)
        } else {
            nth_with_parent(ts.drop_first(), p, n - 1)
        }
    } else {
        nth_with_parent(ts.drop_first(), p, n)
    }
}

pub proof fn lemma_nth_with_parent(ts: Seq<TagV>, p: Option<int>, n: int)
    ensures
        nth_with_parent(ts, p, n) matches Some(q) ==> exists|k: int| 0 <= k < ts.len() && ts[k].pos == q,
    decreases ts.len(),
{
    if ts.len() > 0 {
        if ts[0].parent == p && n == 0 {
        } else {
            let n2 = if ts[0].parent == p { n - 1 } else { n };
            lemma_nth_with_parent(ts.drop_first(), p, n2);
            if let Some(q) = nth_with_parent(ts, p, n) {
                let k = choose|k: int| 0 <= k < ts.drop_first().len() && ts.drop_first()[k].pos == q;
                assert(ts[k + 1].pos == q);
            }
        }
    }
}

/// Root elements map, in order, to the root tags (those without a parent).
pub open spec fn roots_map(rs: Seq<usize>, ts: Seq<TagV>) -> Map<usize, usize>
    decreases rs.len(),
{
    if rs.len() == 0 {
        Map::empty()
    } else {
        let m = roots_map(rs.drop_last(), ts);
        match nth_with_parent(ts, None, rs.len() - 1) {
            Some(pos) => m.insert(rs.last(), pos as usize),
            None => m,
        }
    }
}

/// One reference resolved against the elements found so far: a child
/// reference names the `offset`-th child tag of its parent's tag; a next
/// reference names the sibling `offset` places after its previous element's
/// tag.
pub open spec fn ref_step(m: Map<usize, usize>, op: Operation, ts: Seq<TagV>) -> Map<usize, usize> {
    match op {
        Operation::ChildRef { child_id, parent_id, offset } => {
            if m.contains_key(parent_id) {
                match nth_with_parent(ts, Some(m[parent_id] as int), offset as int) {
                    Some(pos) => m.insert(child_id, pos as usize),
                    None => m,
                }
            } else {
                m
            }
        },
        Operation::NextRef { child_id, prev_id, offset } => {
            if m.contains_key(prev_id) && m[prev_id] < ts.len() {
                let prev = ts[m[prev_id] as int];
                match nth_with_parent(ts, prev.parent, prev.child_index + offset) {
                    Some(pos) => m.insert(child_id, pos as usize),
                    None => m,
                }
            } else {
                m
            }
        },
        _ => m,
    }
}

/// One pass of [`ref_step`] over the operations, in order.
pub open spec fn ref_round(m: Map<usize, usize>, ops: Seq<Operation>, ts: Seq<TagV>) -> Map<
    usize,
    usize,
>
    decreases ops.len(),
{
    if ops.len() == 0 {
        m
    } else {
        ref_step(ref_round(m, ops.drop_last(), ts), ops.last(), ts)
    }
}

/// The element ids that references in `ops` name.
pub open spec fn ref_ids(ops: Seq<Operation>) -> Set<usize>
    decreases ops.len(),
{
    if ops.len() == 0 {
        Set::empty()
    } else {
        let rest = ref_ids(ops.drop_last());
        match ops.last() {
            Operation::ChildRef { child_id, .. } => rest.insert(child_id),
            Operation::NextRef { child_id, .. } => rest.insert(child_id),
            _ => rest,
        }
    }
}

pub proof fn lemma_ref_ids_finite(ops: Seq<Operation>)
    ensures
        ref_ids(ops).finite(),
    decreases ops.len(),
{
    if ops.len() > 0 {
        lemma_ref_ids_finite(ops.drop_last());
    }
}

pub proof fn lemma_ref_round_dom(m: Map<usize, usize>, ops: Seq<Operation>, ts: Seq<TagV>)
    ensures
        m.dom().subset_of(ref_round(m, ops, ts).dom()),
        ref_round(m, ops, ts).dom().subset_of(m.dom().union(ref_ids(ops))),
    decreases ops.len(),
{
    if ops.len() > 0 {
        lemma_ref_round_dom(m, ops.drop_last(), ts);
    }
}

/// Passes of [`ref_round`] until one adds no element; `u` bounds the ids
/// that can ever be mapped.
pub open spec fn settle(m: Map<usize, usize>, ops: Seq<Operation>, ts: Seq<TagV>, u: Set<usize>) -> Map<
    usize,
    usize,
>
    decreases u.len() - m.dom().len(),
    when u.finite() && m.dom().subset_of(u) && ref_ids(ops).subset_of(u)
{
    let m2 = ref_round(m, ops, ts);
    if m2.dom().len() == m.dom().len() {
        m2
    } else {
        proof {
            lemma_ref_round_dom(m, ops, ts);
            lemma_len_subset(m.dom(), m2.dom());
            lemma_len_subset(m2.dom(), u);
        }
        settle(m2, ops, ts, u)
    }
}

/// The element ids that `roots` and the references in `ops` can map.
pub open spec fn elem_universe(rs: Seq<usize>, ops: Seq<Operation>, ts: Seq<TagV>) -> Set<usize> {
    roots_map(rs, ts).dom().union(ref_ids(ops))
}

/// The element-to-tag map of a block: roots first, then references resolved
/// until nothing more resolves.
pub open spec fn elem_map(rs: Seq<usize>, ops: Seq<Operation>, ts: Seq<TagV>) -> Map<usize, usize> {
    settle(roots_map(rs, ts), ops, ts, elem_universe(rs, ops, ts))
}

pub proof fn lemma_roots_map_finite(rs: Seq<usize>, ts: Seq<TagV>)
    ensures
        roots_map(rs, ts).dom().finite(),
    decreases rs.len(),
{
    if rs.len() > 0 {
        lemma_roots_map_finite(rs.drop_last(), ts);
    }
}

/// Each tag's position is its index.
pub open spec fn positions_indexed(ts: Seq<TagV>) -> bool {
    forall|k: int| 0 <= k < ts.len() ==> (#[trigger] ts[k]).pos == k
}

/// Maps only to positions of tags.
pub open spec fn maps_to_tags(m: Map<usize, usize>, ts: Seq<TagV>) -> bool {
    forall|k: usize| #[trigger] m.contains_key(k) ==> m[k] < ts.len()
}

/// The position of the `n`-th tag whose parent is `p`.
fn nth_pos_with_parent(tags: &Vec<TagEntry>, p: Option<usize>, n: usize) -> (r: Option<usize>)
    ensures
        opt_int(r) == nth_with_parent(tags_view(tags@), opt_int(p), n as int),
{
    let ghost ts = tags_view(tags@);
    let mut c: usize = 0;
    let mut k: usize = 0;
    assert(ts.skip(0) =~= ts);
    while k < tags.len()
        invariant
            ts == tags_view(tags@),
            k <= tags@.len(),
            c <= n,
            nth_with_parent(ts.skip(k as int), opt_int(p), (n - c) as int) == nth_with_parent(
                ts,
                opt_int(p),
                n as int,
            ),
        decreases tags@.len() - k,
    {
        let ghost rest = ts.skip(k as int);
        assert(rest[0] == tags@[k as int].view_tag());
        assert(rest.drop_first() =~= ts.skip(k + 1));
        if tags[k].parent == p {
            if c == n {
                return Some(tags[k].pos);
            }
            c = c + 1;
        }
        k = k + 1;
    }
    assert(ts.skip(k as int).len() == 0);
    None
}

/// Resolves one reference operation (see [`ref_step`]).
fn resolve_ref(map: &mut HashMap<usize, usize>, op: &Operation, tags: &Vec<TagEntry>)
    ensures
        final(map)@ == ref_step(old(map)@, *op, tags_view(tags@)),
{
    let ghost ts = tags_view(tags@);
    match op {
        Operation::ChildRef { child_id, parent_id, offset } => {
            match map.get(parent_id) {
                Some(parent_tag_pos) => {
                    let ptp: usize = *parent_tag_pos;
                    if let Some(pos) = nth_pos_with_parent(tags, Some(ptp), *offset) {
                        map.insert(*child_id, pos);
                    }
                },
                None => {},
            }
        },
        Operation::NextRef { child_id, prev_id, offset } => {
            match map.get(prev_id) {
                Some(prev_tag_pos) => {
                    let ptp: usize = *prev_tag_pos;
                    if ptp < tags.len() {
                        assert(ts[ptp as int] == tags@[ptp as int].view_tag());
                        let parent = tags[ptp].parent;
                        match tags[ptp].child_index.checked_add(*offset) {
                            Some(target) => {
                                if let Some(pos) = nth_pos_with_parent(tags, parent, target) {
                                    map.insert(*child_id, pos);
                                }
                            },
                            None => {
                                proof {
                                    lemma_nth_beyond(ts, opt_int(parent), tags[ptp as int].child_index + *offset);
                                }
                            },
                        }
                    }
                },
                None => {},
            }
        },
        _ => {},
    }
}

pub proof fn lemma_nth_beyond(ts: Seq<TagV>, p: Option<int>, n: int)
    requires
        n >= ts.len(),
    ensures
        nth_with_parent(ts, p, n) is None,
    decreases ts.len(),
{
    if ts.len() > 0 {
        lemma_nth_beyond(ts.drop_first(), p, if ts[0].parent == p { n - 1 } else { n });
    }
}

/// Maps each element id of a block to the position of its tag in `tags`:
/// the `i`-th root element to the `i`-th root tag, then every child or next
/// reference whose anchor is mapped, repeated until a pass maps nothing new.
/// When each tag's position is its index (as in a tree from
/// [`crate::html::parse_tag_tree`]), every id maps to a position of a tag.
pub fn build_elem_to_tag(roots: &Vec<usize>, operations: &Vec<Operation>, tags: &Vec<TagEntry>) -> (r:
    HashMap<usize, usize>)
    ensures
        r@ == elem_map(roots@, operations@, tags_view(tags@)),
        positions_indexed(tags_view(tags@)) ==> maps_to_tags(r@, tags_view(tags@)),
{
    let ghost ts = tags_view(tags@);
    let mut map: HashMap<usize, usize> = HashMap::new();
    let mut idx: usize = 0;
    while idx < roots.len()
        invariant
            ts == tags_view(tags@),
            idx <= roots@.len(),
            map@ == roots_map(roots@.take(idx as int), ts),
            positions_indexed(ts) ==> maps_to_tags(map@, ts),
        decreases roots@.len() - idx,
    {
        let elem_id: usize = roots[idx];
        let found = nth_pos_with_parent(tags, None, idx);
        proof {
            lemma_nth_with_parent(ts, None, idx as int);
            assert(roots@.take(idx + 1).drop_last() =~= roots@.take(idx as int));
        }
        if let Some(pos) = found {
            map.insert(elem_id, pos);
        }
        idx = idx + 1;
    }
    assert(roots@.take(roots@.len() as int) =~= roots@);
    let ghost u = elem_universe(roots@, operations@, ts);
    proof {
        lemma_roots_map_finite(roots@, ts);
        lemma_ref_ids_finite(operations@);
    }
    loop
        invariant
            ts == tags_view(tags@),
            u.finite(),
            map@.dom().subset_of(u),
            ref_ids(operations@).subset_of(u),
            settle(map@, operations@, ts, u) == elem_map(roots@, operations@, ts),
            positions_indexed(ts) ==> maps_to_tags(map@, ts),
        decreases u.len() - map@.dom().len(),
    {
        let prev_size: usize = map.len();
        let ghost m0 = map@;
        let mut i: usize = 0;
        while i < operations.len()
            invariant
                ts == tags_view(tags@),
                i <= operations@.len(),
                map@ == ref_round(m0, operations@.take(i as int), ts),
                positions_indexed(ts) ==> maps_to_tags(map@, ts),
            decreases operations@.len() - i,
        {
            let ghost before = map@;
            resolve_ref(&mut map, &operations[i], tags);
            proof {
                assert(operations@.take(i + 1).drop_last() =~= operations@.take(i as int));
                if positions_indexed(ts) {
                    lemma_step_maps_to_tags(before, operations@[i as int], ts);
                }
            }
            i = i + 1;
        }
        assert(operations@.take(operations@.len() as int) =~= operations@);
        proof {
            lemma_ref_round_dom(m0, operations@, ts);
            lemma_len_subset(m0.dom(), map@.dom());
            lemma_len_subset(map@.dom(), u);
        }
        if map.len() == prev_size {
            return map;
        }
    }
}

pub proof fn lemma_step_maps_to_tags(m: Map<usize, usize>, op: Operation, ts: Seq<TagV>)
    requires
        maps_to_tags(m, ts),
        positions_indexed(ts),
    ensures
        maps_to_tags(ref_step(m, op, ts), ts),
{
    match op {
        Operation::ChildRef { child_id, parent_id, offset } => {
            if m.contains_key(parent_id) {
                lemma_nth_with_parent(ts, Some(m[parent_id] as int), offset as int);
            }
        },
        Operation::NextRef { child_id, prev_id, offset } => {
            if m.contains_key(prev_id) && m[prev_id] < ts.len() {
                let prev = ts[m[prev_id] as int];
                lemma_nth_with_parent(ts, prev.parent, prev.child_index + offset);
            }
        },
        _ => {},
    }
}

/// Whether an operation is a child or next reference.
pub open spec fn is_ref(op: Operation) -> bool {
    op is ChildRef || op is NextRef
}

/// The child and next references of `ops`, in order.
pub open spec fn refs_of(ops: Seq<Operation>) -> Seq<Operation>
    decreases ops.len(),
{
    if ops.len() == 0 {
        Seq::empty()
    } else {
        let r = refs_of(ops.drop_last());
        if is_ref(ops.last()) {
            r.push(ops.last())
        } else {
            r
        }
    }
}

proof fn lemma_round_refs(m: Map<usize, usize>, ops: Seq<Operation>, ts: Seq<TagV>)
    ensures
        ref_round(m, ops, ts) == ref_round(m, refs_of(ops), ts),
        ref_ids(ops) == ref_ids(refs_of(ops)),
    decreases ops.len(),
{
    if ops.len() > 0 {
        lemma_round_refs(m, ops.drop_last(), ts);
        let r = refs_of(ops.drop_last());
        if is_ref(ops.last()) {
            assert(r.push(ops.last()).drop_last() =~= r);
        }
    }
}

proof fn lemma_settle_same(m: Map<usize, usize>, a: Seq<Operation>, b: Seq<Operation>, ts: Seq<TagV>, u: Set<usize>)
    requires
        u.finite(),
        m.dom().subset_of(u),
        ref_ids(a).subset_of(u),
        ref_ids(b).subset_of(u),
        forall|m2: Map<usize, usize>| #[trigger] ref_round(m2, a, ts) == ref_round(m2, b, ts),
    ensures
        settle(m, a, ts, u) == settle(m, b, ts, u),
    decreases u.len() - m.dom().len(),
{
    let m2 = ref_round(m, a, ts);
    assert(m2 == ref_round(m, b, ts));
    if m2.dom().len() != m.dom().len() {
        lemma_ref_round_dom(m, a, ts);
        lemma_len_subset(m.dom(), m2.dom());
        lemma_len_subset(m2.dom(), u);
        lemma_settle_same(m2, a, b, ts, u);
    }
}

/// Operations other than child and next references leave the element map
/// as it is.
pub proof fn lemma_elem_map_refs_only(rs: Seq<usize>, ops: Seq<Operation>, ts: Seq<TagV>)
    ensures
        elem_map(rs, ops, ts) == elem_map(rs, refs_of(ops), ts),
{
    lemma_round_refs(Map::empty(), ops, ts);
    assert forall|m2: Map<usize, usize>| #[trigger] ref_round(m2, ops, ts) == ref_round(m2, refs_of(ops), ts) by {
        lemma_round_refs(m2, ops, ts);
    }
    lemma_roots_map_finite(rs, ts);
    lemma_ref_ids_finite(ops);
    assert(elem_universe(rs, ops, ts) == elem_universe(rs, refs_of(ops), ts));
    lemma_settle_same(roots_map(rs, ts), ops, refs_of(ops), ts, elem_universe(rs, ops, ts));
}

proof fn lemma_settle_dom(m: Map<usize, usize>, ops: Seq<Operation>, ts: Seq<TagV>, u: Set<usize>)
    requires
        u.finite(),
        m.dom().subset_of(u),
        ref_ids(ops).subset_of(u),
    ensures
        settle(m, ops, ts, u).dom().subset_of(u),
    decreases u.len() - m.dom().len(),
{
    let m2 = ref_round(m, ops, ts);
    lemma_ref_round_dom(m, ops, ts);
    if m2.dom().len() != m.dom().len() {
        lemma_len_subset(m.dom(), m2.dom());
        lemma_len_subset(m2.dom(), u);
        lemma_settle_dom(m2, ops, ts, u);
    }
}

proof fn lemma_roots_map_keys(rs: Seq<usize>, ts: Seq<TagV>)
    ensures
        forall|k: usize| #[trigger] roots_map(rs, ts).contains_key(k) ==> rs.contains(k),
    decreases rs.len(),
{
    if rs.len() > 0 {
        lemma_roots_map_keys(rs.drop_last(), ts);
        assert forall|k: usize| #[trigger] roots_map(rs, ts).contains_key(k) implies rs.contains(k) by {
            if k != rs.last() {
                assert(roots_map(rs.drop_last(), ts).contains_key(k));
                assert(rs.drop_last().contains(k));
                let j = choose|j: int| 0 <= j < rs.drop_last().len() && rs.drop_last()[j] == k;
                assert(rs[j] == k);
            } else {
                assert(rs[rs.len() - 1] == k);
            }
        }
    }
}

/// Every id in the element map is a root element or the child of a child or
/// next reference.
pub proof fn lemma_elem_map_keys(rs: Seq<usize>, ops: Seq<Operation>, ts: Seq<TagV>)
    ensures
        forall|k: usize| #[trigger] elem_map(rs, ops, ts).contains_key(k) ==> rs.contains(k) || ref_ids(ops).contains(k),
{
    lemma_roots_map_finite(rs, ts);
    lemma_ref_ids_finite(ops);
    lemma_roots_map_keys(rs, ts);
    lemma_settle_dom(roots_map(rs, ts), ops, ts, elem_universe(rs, ops, ts));
}

// ── The element map does not depend on the order of the references ──

/// The element id a child or next reference names.
pub open spec fn ref_child(op: Operation) -> usize {
    match op {
        Operation::ChildRef { child_id, .. } => child_id,
        Operation::NextRef { child_id, .. } => child_id,
        _ => 0,
    }
}

/// The element a reference is resolved against: the parent of a child
/// reference, the previous sibling of a next reference.
pub open spec fn ref_anchor(op: Operation) -> usize {
    match op {
        Operation::ChildRef { parent_id, .. } => parent_id,
        Operation::NextRef { prev_id, .. } => prev_id,
        _ => 0,
    }
}

/// The tag a reference names when its anchor maps to tag `v`.
pub open spec fn ref_target(op: Operation, v: usize, ts: Seq<TagV>) -> Option<usize> {
    match op {
        Operation::ChildRef { offset, .. } => match nth_with_parent(ts, Some(v as int), offset as int) {
            Some(pos) => Some(pos as usize),
            None => None,
        },
        Operation::NextRef { offset, .. } => if v < ts.len() {
            match nth_with_parent(ts, ts[v as int].parent, ts[v as int].child_index + offset) {
                Some(pos) => Some(pos as usize),
                None => None,
            }
        } else {
            None
        },
        _ => None,
    }
}

proof fn lemma_ref_step_target(m: Map<usize, usize>, op: Operation, ts: Seq<TagV>)
    ensures
        ref_step(m, op, ts) == if is_ref(op) && m.contains_key(ref_anchor(op)) && ref_target(
            op,
            m[ref_anchor(op)],
            ts,
        ) is Some {
            m.insert(ref_child(op), ref_target(op, m[ref_anchor(op)], ts)->0)
        } else {
            m
        },
{
}

/// The references of `ops`, as a set.
pub open spec fn ref_set(ops: Seq<Operation>) -> Set<Operation> {
    Set::new(|op: Operation| is_ref(op) && ops.contains(op))
}

/// Element `k` can be mapped to tag `v` in at most `n` resolutions: from the
/// roots `rs`, then through the references `r`.
pub open spec fn derivable_at(rs: Seq<usize>, r: Set<Operation>, ts: Seq<TagV>, n: nat, k: usize, v: usize) -> bool
    decreases n,
{
    if n == 0 {
        roots_map(rs, ts).contains_key(k) && roots_map(rs, ts)[k] == v
    } else {
        let p = (n - 1) as nat;
        ||| derivable_at(rs, r, ts, p, k, v)
        ||| exists|op: Operation, w: usize|
            #![trigger r.contains(op), ref_target(op, w, ts)]
            r.contains(op) && ref_child(op) == k && derivable_at(rs, r, ts, p, ref_anchor(op), w) && ref_target(
                op,
                w,
                ts,
            ) == Some(v)
    }
}

/// Every id of `m` maps to a tag it can be resolved to.
pub open spec fn derivable_map(m: Map<usize, usize>, rs: Seq<usize>, r: Set<Operation>, ts: Seq<TagV>) -> bool {
    forall|k: usize| #[trigger] m.contains_key(k) ==> exists|n: nat| derivable_at(rs, r, ts, n, k, m[k])
}

/// An element resolves to one tag at most.
pub open spec fn resolves_once(rs: Seq<usize>, r: Set<Operation>, ts: Seq<TagV>) -> bool {
    forall|n1: nat, n2: nat, k: usize, v1: usize, v2: usize|
        #[trigger] derivable_at(rs, r, ts, n1, k, v1) && #[trigger] derivable_at(rs, r, ts, n2, k, v2) ==> v1 == v2
}

/// Each element is named by one reference at most, and by none if it is a
/// root.
pub open spec fn refs_unique(rs: Seq<usize>, r: Set<Operation>, ts: Seq<TagV>) -> bool {
    &&& forall|a: Operation, b: Operation|
        #[trigger] r.contains(a) && #[trigger] r.contains(b) && ref_child(a) == ref_child(b) ==> a == b
    &&& forall|a: Operation| #[trigger] r.contains(a) ==> !roots_map(rs, ts).contains_key(ref_child(a))
}

proof fn lemma_resolves_once(
    rs: Seq<usize>,
    r: Set<Operation>,
    ts: Seq<TagV>,
    n1: nat,
    n2: nat,
    k: usize,
    v1: usize,
    v2: usize,
)
    requires
        refs_unique(rs, r, ts),
        derivable_at(rs, r, ts, n1, k, v1),
        derivable_at(rs, r, ts, n2, k, v2),
    ensures
        v1 == v2,
    decreases n1 + n2,
{
    if n1 > 0 && derivable_at(rs, r, ts, (n1 - 1) as nat, k, v1) {
        lemma_resolves_once(rs, r, ts, (n1 - 1) as nat, n2, k, v1, v2);
    } else if n2 > 0 && derivable_at(rs, r, ts, (n2 - 1) as nat, k, v2) {
        lemma_resolves_once(rs, r, ts, n1, (n2 - 1) as nat, k, v1, v2);
    } else if n1 == 0 && n2 == 0 {
    } else if n1 == 0 {
        let p2 = (n2 - 1) as nat;
        let (o2, w2) = choose|o: Operation, w: usize|
            r.contains(o) && ref_child(o) == k && derivable_at(rs, r, ts, p2, ref_anchor(o), w) && ref_target(o, w, ts)
                == Some(v2);
        assert(r.contains(o2));
    } else if n2 == 0 {
        let p1 = (n1 - 1) as nat;
        let (o1, w1) = choose|o: Operation, w: usize|
            r.contains(o) && ref_child(o) == k && derivable_at(rs, r, ts, p1, ref_anchor(o), w) && ref_target(o, w, ts)
                == Some(v1);
        assert(r.contains(o1));
    } else {
        let p1 = (n1 - 1) as nat;
        let p2 = (n2 - 1) as nat;
        let (o1, w1) = choose|o: Operation, w: usize|
            r.contains(o) && ref_child(o) == k && derivable_at(rs, r, ts, p1, ref_anchor(o), w) && ref_target(o, w, ts)
                == Some(v1);
        let (o2, w2) = choose|o: Operation, w: usize|
            r.contains(o) && ref_child(o) == k && derivable_at(rs, r, ts, p2, ref_anchor(o), w) && ref_target(o, w, ts)
                == Some(v2);
        assert(r.contains(o1) && r.contains(o2));
        assert(o1 == o2);
        lemma_resolves_once(rs, r, ts, p1, p2, ref_anchor(o1), w1, w2);
    }
}

proof fn lemma_step_derivable(m: Map<usize, usize>, op: Operation, rs: Seq<usize>, r: Set<Operation>, ts: Seq<TagV>)
    requires
        derivable_map(m, rs, r, ts),
        is_ref(op) ==> r.contains(op),
    ensures
        derivable_map(ref_step(m, op, ts), rs, r, ts),
{
    lemma_ref_step_target(m, op, ts);
    if is_ref(op) && m.contains_key(ref_anchor(op)) && ref_target(op, m[ref_anchor(op)], ts) is Some {
        let a = ref_anchor(op);
        let w = m[a];
        let n = choose|n: nat| derivable_at(rs, r, ts, n, a, w);
        let v = ref_target(op, w, ts)->0;
        let n1: nat = n + 1;
        assert((n1 - 1) as nat == n);
        assert(ref_target(op, w, ts) == Some(v));
        assert(r.contains(op) && derivable_at(rs, r, ts, (n1 - 1) as nat, ref_anchor(op), w));
        assert(derivable_at(rs, r, ts, n1, ref_child(op), v));
        let m2 = ref_step(m, op, ts);
        assert forall|k: usize| #[trigger] m2.contains_key(k) implies exists|n: nat| derivable_at(rs, r, ts, n, k, m2[k]) by {
            if k == ref_child(op) {
                assert(derivable_at(rs, r, ts, n1, k, m2[k]));
            } else {
                assert(m.contains_key(k));
            }
        }
    }
}

proof fn lemma_round_derivable(m: Map<usize, usize>, ops: Seq<Operation>, rs: Seq<usize>, r: Set<Operation>, ts: Seq<TagV>)
    requires
        derivable_map(m, rs, r, ts),
        forall|i: int| 0 <= i < ops.len() && is_ref(#[trigger] ops[i]) ==> r.contains(ops[i]),
    ensures
        derivable_map(ref_round(m, ops, ts), rs, r, ts),
    decreases ops.len(),
{
    if ops.len() > 0 {
        lemma_round_derivable(m, ops.drop_last(), rs, r, ts);
        assert(is_ref(ops[ops.len() - 1]) ==> r.contains(ops[ops.len() - 1]));
        lemma_step_derivable(ref_round(m, ops.drop_last(), ts), ops.last(), rs, r, ts);
    }
}

proof fn lemma_round_prefix(m: Map<usize, usize>, ops: Seq<Operation>, ts: Seq<TagV>, j: int)
    requires
        0 <= j <= ops.len(),
    ensures
        ref_round(m, ops.take(j), ts).dom().subset_of(ref_round(m, ops, ts).dom()),
        m.dom().subset_of(ref_round(m, ops.take(j), ts).dom()),
        j < ops.len() ==> ref_round(m, ops.take(j + 1), ts) == ref_step(ref_round(m, ops.take(j), ts), ops[j], ts),
    decreases ops.len(),
{
    lemma_ref_round_dom(m, ops.take(j), ts);
    if j < ops.len() {
        assert(ops.take(j + 1).drop_last() =~= ops.take(j));
    }
    if j == ops.len() {
        assert(ops.take(j) =~= ops);
    } else {
        lemma_round_prefix(m, ops.drop_last(), ts, j);
        assert(ops.drop_last().take(j) =~= ops.take(j));
        lemma_ref_step_target(ref_round(m, ops.drop_last(), ts), ops.last(), ts);
    }
}

/// Every reference of `ops` whose anchor `m` maps, and that names a tag,
/// has its element in `m`.
pub open spec fn refs_closed(m: Map<usize, usize>, ops: Seq<Operation>, ts: Seq<TagV>) -> bool {
    forall|i: int|
        0 <= i < ops.len() && is_ref(#[trigger] ops[i]) && m.contains_key(ref_anchor(ops[i])) && ref_target(
            ops[i],
            m[ref_anchor(ops[i])],
            ts,
        ) is Some ==> m.contains_key(ref_child(ops[i]))
}

proof fn lemma_settle_closed(
    m: Map<usize, usize>,
    ops: Seq<Operation>,
    ts: Seq<TagV>,
    u: Set<usize>,
    rs: Seq<usize>,
    r: Set<Operation>,
)
    requires
        u.finite(),
        m.dom().subset_of(u),
        ref_ids(ops).subset_of(u),
        derivable_map(m, rs, r, ts),
        refs_unique(rs, r, ts),
        forall|i: int| 0 <= i < ops.len() && is_ref(#[trigger] ops[i]) ==> r.contains(ops[i]),
    ensures
        derivable_map(settle(m, ops, ts, u), rs, r, ts),
        m.dom().subset_of(settle(m, ops, ts, u).dom()),
        refs_closed(settle(m, ops, ts, u), ops, ts),
    decreases u.len() - m.dom().len(),
{
    let m2 = ref_round(m, ops, ts);
    lemma_ref_round_dom(m, ops, ts);
    lemma_round_derivable(m, ops, rs, r, ts);
    lemma_len_subset(m.dom(), m2.dom());
    lemma_len_subset(m2.dom(), u);
    if m2.dom().len() != m.dom().len() {
        lemma_settle_closed(m2, ops, ts, u, rs, r);
    } else {
        lemma_subset_equality(m.dom(), m2.dom());
        assert forall|i: int|
            0 <= i < ops.len() && is_ref(#[trigger] ops[i]) && m2.contains_key(ref_anchor(ops[i])) && ref_target(
                ops[i],
                m2[ref_anchor(ops[i])],
                ts,
            ) is Some implies m2.contains_key(ref_child(ops[i])) by {
            let op = ops[i];
            let a = ref_anchor(op);
            let mi = ref_round(m, ops.take(i), ts);
            lemma_round_prefix(m, ops, ts, i);
            lemma_round_prefix(m, ops, ts, i + 1);
            lemma_round_derivable(m, ops.take(i), rs, r, ts);
            assert(mi.contains_key(a));
            let n1 = choose|n: nat| derivable_at(rs, r, ts, n, a, mi[a]);
            let n2 = choose|n: nat| derivable_at(rs, r, ts, n, a, m2[a]);
            lemma_resolves_once(rs, r, ts, n1, n2, a, mi[a], m2[a]);
            lemma_ref_step_target(mi, op, ts);
        }
    }
}

proof fn lemma_complete(
    m: Map<usize, usize>,
    ops: Seq<Operation>,
    rs: Seq<usize>,
    r: Set<Operation>,
    ts: Seq<TagV>,
    n: nat,
    k: usize,
    v: usize,
)
    requires
        derivable_map(m, rs, r, ts),
        refs_closed(m, ops, ts),
        roots_map(rs, ts).dom().subset_of(m.dom()),
        refs_unique(rs, r, ts),
        forall|op: Operation| #[trigger] r.contains(op) ==> is_ref(op) && ops.contains(op),
        derivable_at(rs, r, ts, n, k, v),
    ensures
        m.contains_key(k) && m[k] == v,
    decreases n,
{
    if n == 0 {
        assert(m.contains_key(k));
    } else if derivable_at(rs, r, ts, (n - 1) as nat, k, v) {
        lemma_complete(m, ops, rs, r, ts, (n - 1) as nat, k, v);
    } else {
        let p = (n - 1) as nat;
        let (op, w) = choose|o: Operation, w: usize|
            r.contains(o) && ref_child(o) == k && derivable_at(rs, r, ts, p, ref_anchor(o), w) && ref_target(o, w, ts)
                == Some(v);
        lemma_complete(m, ops, rs, r, ts, p, ref_anchor(op), w);
        assert(r.contains(op));
        let i = choose|i: int| 0 <= i < ops.len() && ops[i] == op;
        assert(is_ref(ops[i]));
        assert(m.contains_key(k));
    }
    let n2 = choose|n2: nat| derivable_at(rs, r, ts, n2, k, m[k]);
    lemma_resolves_once(rs, r, ts, n, n2, k, v, m[k]);
}

/// No two references of `a` name the same element, and none names a root
/// element of `rs`.
pub open spec fn refs_name_once(rs: Seq<usize>, a: Seq<Operation>) -> bool {
    &&& forall|i: int, j: int|
        0 <= i < j < a.len() && is_ref(#[trigger] a[i]) && is_ref(#[trigger] a[j]) ==> ref_child(a[i])
            != ref_child(a[j])
    &&& forall|i: int| 0 <= i < a.len() && is_ref(#[trigger] a[i]) ==> !rs.contains(ref_child(a[i]))
}

proof fn lemma_refs_setup(rs: Seq<usize>, a: Seq<Operation>, ts: Seq<TagV>)
    requires
        refs_name_once(rs, a),
    ensures
        refs_unique(rs, ref_set(a), ts),
        derivable_map(roots_map(rs, ts), rs, ref_set(a), ts),
        forall|i: int| 0 <= i < a.len() && is_ref(#[trigger] a[i]) ==> ref_set(a).contains(a[i]),
        forall|op: Operation| #[trigger] ref_set(a).contains(op) ==> is_ref(op) && a.contains(op),
        derivable_map(
            settle(roots_map(rs, ts), a, ts, elem_universe(rs, a, ts)),
            rs,
            ref_set(a),
            ts,
        ),
        roots_map(rs, ts).dom().subset_of(elem_map(rs, a, ts).dom()),
        refs_closed(elem_map(rs, a, ts), a, ts),
{
    let r = ref_set(a);
    lemma_roots_map_keys(rs, ts);
    assert forall|x: Operation, y: Operation|
        #[trigger] r.contains(x) && #[trigger] r.contains(y) && ref_child(x) == ref_child(y) implies x == y by {
        let i = choose|i: int| 0 <= i < a.len() && a[i] == x;
        let j = choose|j: int| 0 <= j < a.len() && a[j] == y;
        if i < j {
            assert(is_ref(a[i]) && is_ref(a[j]));
        } else if j < i {
            assert(is_ref(a[j]) && is_ref(a[i]));
        }
    }
    assert forall|x: Operation| #[trigger] r.contains(x) implies !roots_map(rs, ts).contains_key(ref_child(x)) by {
        let i = choose|i: int| 0 <= i < a.len() && a[i] == x;
        assert(is_ref(a[i]));
    }
    let m0 = roots_map(rs, ts);
    assert forall|k: usize| #[trigger] m0.contains_key(k) implies exists|n: nat| derivable_at(rs, r, ts, n, k, m0[k]) by {
        assert(derivable_at(rs, r, ts, 0, k, m0[k]));
    }
    assert forall|i: int| 0 <= i < a.len() && is_ref(#[trigger] a[i]) implies r.contains(a[i]) by {
        assert(a.contains(a[i]));
    }
    lemma_roots_map_finite(rs, ts);
    lemma_ref_ids_finite(a);
    lemma_settle_closed(m0, a, ts, elem_universe(rs, a, ts), rs, r);
}

/// The element map is closed under the references: when no two references
/// name the same element and none names a root, every reference whose
/// anchor is mapped, and that names a tag, has its element mapped.
pub proof fn lemma_elem_map_closed(rs: Seq<usize>, ops: Seq<Operation>, ts: Seq<TagV>)
    requires
        refs_name_once(rs, ops),
    ensures
        refs_closed(elem_map(rs, ops, ts), ops, ts),
{
    lemma_refs_setup(rs, ops, ts);
}

/// The element map does not depend on the order of the child and next
/// references, nor on the other operations: when no two references name the
/// same element and none names a root element, operations with the same
/// references give the same map.
pub proof fn lemma_elem_map_order(rs: Seq<usize>, a: Seq<Operation>, b: Seq<Operation>, ts: Seq<TagV>)
    requires
        refs_name_once(rs, a),
        forall|op: Operation| is_ref(op) ==> (a.contains(op) <==> b.contains(op)),
    ensures
        elem_map(rs, a, ts) == elem_map(rs, b, ts),
{
    let r = ref_set(a);
    assert(ref_set(b) =~= r);
    lemma_refs_setup(rs, a, ts);
    let m0 = roots_map(rs, ts);
    lemma_roots_map_finite(rs, ts);
    lemma_ref_ids_finite(b);
    assert forall|i: int| 0 <= i < b.len() && is_ref(#[trigger] b[i]) implies r.contains(b[i]) by {
        assert(b.contains(b[i]));
    }
    lemma_settle_closed(m0, b, ts, elem_universe(rs, b, ts), rs, r);
    let ma = elem_map(rs, a, ts);
    let mb = elem_map(rs, b, ts);
    assert forall|k: usize| #[trigger] ma.contains_key(k) implies mb.contains_key(k) && mb[k] == ma[k] by {
        let n = choose|n: nat| derivable_at(rs, r, ts, n, k, ma[k]);
        lemma_complete(mb, b, rs, r, ts, n, k, ma[k]);
    }
    assert forall|k: usize| #[trigger] mb.contains_key(k) implies ma.contains_key(k) by {
        let n = choose|n: nat| derivable_at(rs, r, ts, n, k, mb[k]);
        lemma_complete(ma, a, rs, r, ts, n, k, mb[k]);
    }
    assert(ma =~= mb);
}

} // verus!
