use vstd::prelude::*;
use vstd::string::StringExecFns;

use crate::errors::Error;
use crate::models::image::Image;
use crate::models::tag::all_stored;
use crate::models::tag::Tag;

verus! {

/// The two halves of a change to an item's tag set: tags to relate to the
/// item and tags to unrelate from it.
#[derive(Debug, PartialEq)]
pub struct ReconciliationPlan {
    pub to_add: Vec<Tag>,
    pub to_remove: Vec<Tag>,
}

/// One mutation of the store. Tags and items are named by their store ids.
#[derive(Debug, PartialEq)]
pub enum Operation {
    /// Create the edge that marks `item` as carrying `tag`.
    Relate { item: String, tag: String },
    /// Delete that edge.
    Unrelate { item: String, tag: String },
    /// Add one to the tag's usage count.
    Increment { tag: String },
    /// Take one from the tag's usage count.
    Decrement { tag: String },
}

/// What to do next when an item's tags are to change: apply a batch of
/// operations atomically, or nothing more, with the outcome.
#[derive(Debug, PartialEq)]
pub enum UpdateStep {
    Transact(Vec<Operation>),
    Done(Result<(), Error>),
}

impl Tag {
    /// The identity of a tag in a tag set: its store id.
    pub open spec fn identity(self) -> Option<Seq<char>> {
        match self.id {
            Some(id) => Some(id@),
            None => None,
        }
    }
}

/// Some tag of `s` has identity `id`.
pub open spec fn has_identity(s: Seq<Tag>, id: Option<Seq<char>>) -> bool {
    exists|i: int| 0 <= i < s.len() && (#[trigger] s[i]).identity() == id
}

/// The tags of `s`, in order, whose identity no tag of `other` has; a tag
/// that `s` repeats is kept at its first place only.
pub open spec fn missing_from(s: Seq<Tag>, other: Seq<Tag>) -> Seq<Tag>
    decreases s.len(),
{
    if s.len() == 0 {
        Seq::empty()
    } else {
        let m = missing_from(s.drop_last(), other);
        let t = s.last();
        if has_identity(other, t.identity()) || has_identity(m, t.identity()) {
            m
        } else {
            m.push(t)
        }
    }
}

/// No tag occurs twice in `ts`.
pub open spec fn distinct_ids(ts: Seq<Tag>) -> bool {
    forall|i: int, j: int| 0 <= i < j < ts.len() ==> (#[trigger] ts[i]).identity() != (#[trigger] ts[j]).identity()
}

/// The store id of a stored tag.
pub open spec fn stored_id(t: Tag) -> String {
    t.id->Some_0
}

/// The two operations for one tag: its edge and its count.
pub open spec fn tag_ops(item: String, t: Tag, adding: bool) -> Seq<Operation> {
    if adding {
        seq![Operation::Relate { item, tag: stored_id(t) }, Operation::Increment { tag: stored_id(t) }]
    } else {
        seq![Operation::Unrelate { item, tag: stored_id(t) }, Operation::Decrement { tag: stored_id(t) }]
    }
}

/// The operations for each tag of `ts`, in order.
pub open spec fn edge_ops(item: String, ts: Seq<Tag>, adding: bool) -> Seq<Operation>
    decreases ts.len(),
{
    if ts.len() == 0 {
        Seq::empty()
    } else {
        edge_ops(item, ts.drop_last(), adding) + tag_ops(item, ts.last(), adding)
    }
}

/// The batch that carries out a plan: removals first, then additions.
pub open spec fn batch_of(item: String, to_remove: Seq<Tag>, to_add: Seq<Tag>) -> Seq<Operation> {
    edge_ops(item, to_remove, false) + edge_ops(item, to_add, true)
}

/// No count would leave the range of `u32`: every tag to remove is carried by
/// at least one item, and every tag to add by fewer than `u32::MAX`.
pub open spec fn counts_in_range(to_remove: Seq<Tag>, to_add: Seq<Tag>) -> bool {
    &&& forall|i: int| 0 <= i < to_remove.len() ==> (#[trigger] to_remove[i]).count > 0
    &&& forall|i: int| 0 <= i < to_add.len() ==> (#[trigger] to_add[i]).count < u32::MAX
}

/// The tag sets differ.
pub open spec fn needs_batch(current: Seq<Tag>, desired: Seq<Tag>) -> bool {
    missing_from(desired, current).len() > 0 || missing_from(current, desired).len() > 0
}

/// Whether two tags are the same tag.
pub fn same_tag(a: &Tag, b: &Tag) -> (r: bool)
    ensures
        r == (a.identity() == b.identity()),
{
    match (&a.id, &b.id) {
        (Some(x), Some(y)) => *x == *y,
        (None, None) => true,
        _ => false,
    }
}

/// Whether some tag of `s` is the same tag as `t`.
pub fn contains_tag(s: &Vec<Tag>, t: &Tag) -> (r: bool)
    ensures
        r == has_identity(s@, t.identity()),
{
    let mut i: usize = 0;
    while i < s.len()
        invariant
            i <= s.len(),
            forall|j: int| 0 <= j < i ==> (#[trigger] s@[j]).identity() != t.identity(),
        decreases s.len() - i,
    {
        if same_tag(&s[i], t) {
            return true;
        }
        i = i + 1;
    }
    false
}

/// The tags of `s`, in order and without repeats, that `other` does not hold.
fn missing(s: &Vec<Tag>, other: &Vec<Tag>) -> (r: Vec<Tag>)
    ensures
        r@ == missing_from(s@, other@),
{
    let mut out: Vec<Tag> = Vec::new();
    let mut i: usize = 0;
    while i < s.len()
        invariant
            i <= s.len(),
            out@ == missing_from(s@.take(i as int), other@),
        decreases s.len() - i,
    {
        assert(s@.take(i as int + 1).drop_last() =~= s@.take(i as int));
        assert(s@.take(i as int + 1).last() == s@[i as int]);
        if !contains_tag(other, &s[i]) && !contains_tag(&out, &s[i]) {
            out.push(s[i].clone());
        }
        i = i + 1;
    }
    assert(s@.take(s@.len() as int) =~= s@);
    out
}

/// The change from the tag set `current` to the tag set `desired`: the tags
/// of `desired` that `current` lacks are added, those of `current` that
/// `desired` lacks are removed, each in the order it had and each once, as
/// both are sets; tags in both are left alone.
pub fn reconcile(current: &Vec<Tag>, desired: &Vec<Tag>) -> (r: ReconciliationPlan)
    ensures
        r.to_add@ == missing_from(desired@, current@),
        r.to_remove@ == missing_from(current@, desired@),
        distinct_ids(r.to_add@),
        distinct_ids(r.to_remove@),
        stored_ids(r.to_add@) == stored_ids(desired@).difference(stored_ids(current@)),
        stored_ids(r.to_remove@) == stored_ids(current@).difference(stored_ids(desired@)),
{
    proof {
        lemma_missing_ids(desired@, current@);
        lemma_missing_ids(current@, desired@);
    }
    ReconciliationPlan { to_add: missing(desired, current), to_remove: missing(current, desired) }
}

/// A tag set differs from itself in nothing: reconciling a set with itself
/// adds and removes no tag.
pub proof fn lemma_reconcile_same(s: Seq<Tag>)
    ensures
        missing_from(s, s).len() == 0,
        !needs_batch(s, s),
{
    lemma_missing_from_covered(s, s);
}

/// No tag is missing from a set that holds every tag of `s`.
proof fn lemma_missing_from_covered(s: Seq<Tag>, other: Seq<Tag>)
    requires
        forall|i: int| 0 <= i < s.len() ==> has_identity(other, (#[trigger] s[i]).identity()),
    ensures
        missing_from(s, other).len() == 0,
    decreases s.len(),
{
    if s.len() > 0 {
        let init = s.drop_last();
        assert forall|i: int| 0 <= i < init.len() implies has_identity(other, (#[trigger] init[i]).identity()) by {
            assert(init[i] == s[i]);
        }
        lemma_missing_from_covered(init, other);
        assert(has_identity(other, s[s.len() - 1].identity()));
    }
}

/// Whether every tag of `ts` is stored.
fn all_have_ids(ts: &Vec<Tag>) -> (r: bool)
    ensures
        r == all_stored(ts@),
{
    let mut i: usize = 0;
    while i < ts.len()
        invariant
            i <= ts.len(),
            forall|j: int| 0 <= j < i ==> (#[trigger] ts@[j]).id is Some,
        decreases ts.len() - i,
    {
        if ts[i].id.is_none() {
            return false;
        }
        i = i + 1;
    }
    true
}

/// Whether the counts of the tags to remove and to add stay in range.
fn counts_fit(to_remove: &Vec<Tag>, to_add: &Vec<Tag>) -> (r: bool)
    ensures
        r == counts_in_range(to_remove@, to_add@),
{
    let mut i: usize = 0;
    while i < to_remove.len()
        invariant
            i <= to_remove.len(),
            forall|j: int| 0 <= j < i ==> (#[trigger] to_remove@[j]).count > 0,
        decreases to_remove.len() - i,
    {
        if to_remove[i].count == 0 {
            return false;
        }
        i = i + 1;
    }
    let mut k: usize = 0;
    while k < to_add.len()
        invariant
            k <= to_add.len(),
            forall|j: int| 0 <= j < k ==> (#[trigger] to_add@[j]).count < u32::MAX,
        decreases to_add.len() - k,
    {
        if to_add[k].count == u32::MAX {
            return false;
        }
        k = k + 1;
    }
    true
}

/// Appends, for each tag of `ts` in order, its edge operation and its count
/// operation.
fn push_tag_ops(ops: &mut Vec<Operation>, item: &String, ts: &Vec<Tag>, adding: bool)
    requires
        all_stored(ts@),
    ensures
        final(ops)@ == old(ops)@ + edge_ops(*item, ts@, adding),
{
    let mut i: usize = 0;
    while i < ts.len()
        invariant
            i <= ts.len(),
            all_stored(ts@),
            ops@ == old(ops)@ + edge_ops(*item, ts@.take(i as int), adding),
        decreases ts.len() - i,
    {
        let ghost before = ops@;
        let t = &ts[i];
        assert(t.id is Some);
        let tag = t.id.as_ref().unwrap();
        if adding {
            ops.push(Operation::Relate { item: item.clone(), tag: tag.clone() });
            ops.push(Operation::Increment { tag: tag.clone() });
        } else {
            ops.push(Operation::Unrelate { item: item.clone(), tag: tag.clone() });
            ops.push(Operation::Decrement { tag: tag.clone() });
        }
        proof {
            let head = ts@.take(i as int + 1);
            assert(head.drop_last() =~= ts@.take(i as int));
            assert(head.last() == ts@[i as int]);
            assert(ops@ =~= before + tag_ops(*item, ts@[i as int], adding));
        }
        i = i + 1;
    }
    assert(ts@.take(ts@.len() as int) =~= ts@);
}

/// Decides what changing the tags of `item` from `current` to `desired`
/// takes. Equal sets need nothing, and the store is not asked to do
/// anything. Otherwise the item and every tag to add or remove must be
/// stored (else `InvalidId`), and no count may leave its range (else
/// `DatabaseInconsistent`: a tag to remove that no item carries points at a
/// corrupt store). Then the whole change is one batch: for each tag to remove
/// its edge deletion and count decrement, then for each tag to add its edge
/// creation and count increment.
pub fn update_tags(item: &Image, current: &Vec<Tag>, desired: &Vec<Tag>) -> (r: UpdateStep)
    ensures
        !needs_batch(current@, desired@) ==> r == UpdateStep::Done(Ok(())),
        needs_batch(current@, desired@) && (item.id is None || !all_stored(
            missing_from(desired@, current@),
        ) || !all_stored(missing_from(current@, desired@))) ==> r == UpdateStep::Done(
            Err(Error::InvalidId),
        ),
        needs_batch(current@, desired@) && item.id is Some && all_stored(missing_from(desired@, current@))
            && all_stored(missing_from(current@, desired@)) && !counts_in_range(
            missing_from(current@, desired@),
            missing_from(desired@, current@),
        ) ==> r == UpdateStep::Done(Err(Error::DatabaseInconsistent)),
        needs_batch(current@, desired@) && item.id is Some && all_stored(missing_from(desired@, current@))
            && all_stored(missing_from(current@, desired@)) && counts_in_range(
            missing_from(current@, desired@),
            missing_from(desired@, current@),
        ) ==> (r matches UpdateStep::Transact(ops) && ops@ == batch_of(
            item.id->Some_0,
            missing_from(current@, desired@),
            missing_from(desired@, current@),
        )),
{
    let plan = reconcile(current, desired);
    if plan.to_add.len() == 0 && plan.to_remove.len() == 0 {
        return UpdateStep::Done(Ok(()));
    }
    let item_id = match &item.id {
        Some(id) => id,
        None => {
            return UpdateStep::Done(Err(Error::InvalidId));
        },
    };
    if !all_have_ids(&plan.to_remove) || !all_have_ids(&plan.to_add) {
        return UpdateStep::Done(Err(Error::InvalidId));
    }
    if !counts_fit(&plan.to_remove, &plan.to_add) {
        return UpdateStep::Done(Err(Error::DatabaseInconsistent));
    }
    let mut ops: Vec<Operation> = Vec::new();
    push_tag_ops(&mut ops, item_id, &plan.to_remove, false);
    push_tag_ops(&mut ops, item_id, &plan.to_add, true);
    assert(ops@ =~= batch_of(*item_id, plan.to_remove@, plan.to_add@));
    UpdateStep::Transact(ops)
}

/// The outcome of a change once the store has answered its batch: a batch
/// that did not apply leaves the tags as they were and fails the change with
/// `ReconcileFailed`.
pub fn finish_update(outcome: Result<(), Error>) -> (r: Result<(), Error>)
    ensures
        outcome is Ok ==> r == Ok::<(), Error>(()),
        outcome is Err ==> r == Err::<(), Error>(Error::ReconcileFailed),
{
    match outcome {
        Ok(()) => Ok(()),
        Err(_) => Err(Error::ReconcileFailed),
    }
}

/// The tags that an item carries, as store ids, after `op`, when it carried
/// `edges` before; only edge operations on `item` change them.
pub open spec fn apply_edge(edges: Set<Seq<char>>, item: String, op: Operation) -> Set<Seq<char>> {
    match op {
        Operation::Relate { item: i, tag } => if i == item {
            edges.insert(tag@)
        } else {
            edges
        },
        Operation::Unrelate { item: i, tag } => if i == item {
            edges.remove(tag@)
        } else {
            edges
        },
        _ => edges,
    }
}

/// The tags that `item` carries after the operations, in order.
pub open spec fn apply_edges(edges: Set<Seq<char>>, item: String, ops: Seq<Operation>) -> Set<Seq<char>>
    decreases ops.len(),
{
    if ops.len() == 0 {
        edges
    } else {
        apply_edge(apply_edges(edges, item, ops.drop_last()), item, ops.last())
    }
}

/// The store ids of the stored tags of `ts`.
pub open spec fn stored_ids(ts: Seq<Tag>) -> Set<Seq<char>> {
    Set::new(|k: Seq<char>| exists|i: int| 0 <= i < ts.len() && (#[trigger] ts[i]).id is Some && ts[i].key() == k)
}

/// Applying a batch carries an item that carries the tags `current` to
/// carrying exactly the tags `desired`: the batch that `update_tags` builds
/// relates each tag that only `desired` has and unrelates each tag that only
/// `current` has.
pub proof fn lemma_batch_reaches_desired(item: String, current: Seq<Tag>, desired: Seq<Tag>)
    requires
        all_stored(current),
        all_stored(desired),
    ensures
        apply_edges(
            stored_ids(current),
            item,
            batch_of(item, missing_from(current, desired), missing_from(desired, current)),
        ) == stored_ids(desired),
{
    let to_remove = missing_from(current, desired);
    let to_add = missing_from(desired, current);
    lemma_missing_ids(current, desired);
    lemma_missing_ids(desired, current);
    lemma_apply_concat(stored_ids(current), item, edge_ops(item, to_remove, false), edge_ops(item, to_add, true));
    lemma_apply_tag_ops(stored_ids(current), item, to_remove, false);
    let after_removal = stored_ids(current).difference(stored_ids(to_remove));
    lemma_apply_tag_ops(after_removal, item, to_add, true);
    assert(after_removal.union(stored_ids(to_add)) =~= stored_ids(desired));
}

/// Operations applied one list after another.
proof fn lemma_apply_concat(edges: Set<Seq<char>>, item: String, a: Seq<Operation>, b: Seq<Operation>)
    ensures
        apply_edges(edges, item, a + b) == apply_edges(apply_edges(edges, item, a), item, b),
    decreases b.len(),
{
    if b.len() == 0 {
        assert(a + b =~= a);
    } else {
        assert((a + b).drop_last() =~= a + b.drop_last());
        assert((a + b).last() == b.last());
        lemma_apply_concat(edges, item, a, b.drop_last());
    }
}

/// The operations for stored tags relate all of them, or unrelate all of them.
proof fn lemma_apply_tag_ops(edges: Set<Seq<char>>, item: String, ts: Seq<Tag>, adding: bool)
    requires
        all_stored(ts),
    ensures
        adding ==> apply_edges(edges, item, edge_ops(item, ts, adding)) == edges.union(stored_ids(ts)),
        !adding ==> apply_edges(edges, item, edge_ops(item, ts, adding)) == edges.difference(stored_ids(ts)),
    decreases ts.len(),
{
    if ts.len() == 0 {
        assert(stored_ids(ts) =~= Set::<Seq<char>>::empty());
        assert(edges.union(stored_ids(ts)) =~= edges);
        assert(edges.difference(stored_ids(ts)) =~= edges);
    } else {
        let init = ts.drop_last();
        let last = ts.last();
        assert forall|i: int| 0 <= i < init.len() implies (#[trigger] init[i]).id is Some by {
            assert(init[i] == ts[i]);
        }
        lemma_apply_tag_ops(edges, item, init, adding);
        lemma_apply_concat(edges, item, edge_ops(item, init, adding), tag_ops(item, last, adding));
        let pair = tag_ops(item, last, adding);
        assert(pair.drop_last() =~= seq![pair[0]]);
        assert(seq![pair[0]].drop_last() =~= Seq::<Operation>::empty());
        lemma_stored_ids_push(init, last);
        assert(init.push(last) =~= ts);
        let before = apply_edges(edges, item, edge_ops(item, init, adding));
        assert(edge_ops(item, ts, adding) == edge_ops(item, init, adding) + pair);
        let one = seq![pair[0]];
        assert(apply_edges(before, item, one.drop_last()) == before);
        assert(apply_edges(before, item, one) == apply_edge(before, item, pair[0]));
        assert(pair.drop_last() == one);
        assert(apply_edges(before, item, pair) == apply_edge(apply_edge(before, item, pair[0]), item, pair[1]));
        assert(stored_id(last)@ == last.key());
        if adding {
            assert(before.insert(last.key()) =~= edges.union(stored_ids(ts)));
        } else {
            assert(before.remove(last.key()) =~= edges.difference(stored_ids(ts)));
        }
    }
}

/// One more stored tag adds its id.
proof fn lemma_stored_ids_push(ts: Seq<Tag>, t: Tag)
    ensures
        t.id is Some ==> stored_ids(ts.push(t)) == stored_ids(ts).insert(t.key()),
        t.id is None ==> stored_ids(ts.push(t)) == stored_ids(ts),
{
    let s = ts.push(t);
    if t.id is None {
        assert forall|k: Seq<char>| stored_ids(s).contains(k) implies stored_ids(ts).contains(k) by {
            let i = choose|i: int| 0 <= i < s.len() && (#[trigger] s[i]).id is Some && s[i].key() == k;
            assert(s[i] == ts[i]);
        }
        assert forall|k: Seq<char>| stored_ids(ts).contains(k) implies stored_ids(s).contains(k) by {
            let i = choose|i: int| 0 <= i < ts.len() && (#[trigger] ts[i]).id is Some && ts[i].key() == k;
            assert(s[i] == ts[i]);
        }
        assert(stored_ids(s) =~= stored_ids(ts));
        return;
    }
    assert forall|k: Seq<char>| stored_ids(s).contains(k) implies stored_ids(ts).insert(t.key()).contains(k) by {
        let i = choose|i: int| 0 <= i < s.len() && (#[trigger] s[i]).id is Some && s[i].key() == k;
        if i < ts.len() {
            assert(s[i] == ts[i]);
        }
    }
    assert forall|k: Seq<char>| stored_ids(ts).insert(t.key()).contains(k) implies stored_ids(s).contains(k) by {
        if k == t.key() {
            assert(s[ts.len() as int] == t);
        } else {
            let i = choose|i: int| 0 <= i < ts.len() && (#[trigger] ts[i]).id is Some && ts[i].key() == k;
            assert(s[i] == ts[i]);
        }
    }
    assert(stored_ids(s) =~= stored_ids(ts).insert(t.key()));
}

/// For a stored tag, having its identity and holding its id agree.
proof fn lemma_has_identity_stored(x: Seq<Tag>, t: Tag)
    requires
        t.id is Some,
    ensures
        has_identity(x, t.identity()) <==> stored_ids(x).contains(t.key()),
{
    if has_identity(x, t.identity()) {
        let i = choose|i: int| 0 <= i < x.len() && (#[trigger] x[i]).identity() == t.identity();
        assert(x[i].id is Some && x[i].key() == t.key());
    }
    if stored_ids(x).contains(t.key()) {
        let i = choose|i: int| 0 <= i < x.len() && (#[trigger] x[i]).id is Some && x[i].key() == t.key();
        assert(x[i].identity() == t.identity());
    }
}

/// The tags that `other` lacks are those of `s` without the ids of `other`,
/// each once.
proof fn lemma_missing_ids(s: Seq<Tag>, other: Seq<Tag>)
    ensures
        all_stored(s) ==> all_stored(missing_from(s, other)),
        distinct_ids(missing_from(s, other)),
        stored_ids(missing_from(s, other)) == stored_ids(s).difference(stored_ids(other)),
    decreases s.len(),
{
    if s.len() == 0 {
        assert(stored_ids(s) =~= Set::<Seq<char>>::empty());
        assert(stored_ids(missing_from(s, other)) =~= Set::<Seq<char>>::empty());
        assert(stored_ids(s).difference(stored_ids(other)) =~= Set::<Seq<char>>::empty());
    } else {
        let init = s.drop_last();
        let last = s.last();
        if all_stored(s) {
            assert forall|i: int| 0 <= i < init.len() implies (#[trigger] init[i]).id is Some by {
                assert(init[i] == s[i]);
            }
        }
        lemma_missing_ids(init, other);
        lemma_stored_ids_push(init, last);
        assert(init.push(last) =~= s);
        let m = missing_from(init, other);
        if last.id is Some {
            lemma_has_identity_stored(other, last);
            lemma_has_identity_stored(m, last);
        }
        if has_identity(other, last.identity()) || has_identity(m, last.identity()) {
            assert(missing_from(s, other) == m);
            assert(stored_ids(m) =~= stored_ids(s).difference(stored_ids(other)));
        } else {
            let r = m.push(last);
            assert(missing_from(s, other) == r);
            lemma_stored_ids_push(m, last);
            if all_stored(s) {
                assert forall|i: int| 0 <= i < r.len() implies (#[trigger] r[i]).id is Some by {
                    if i < m.len() {
                        assert(r[i] == m[i]);
                    }
                }
            }
            assert forall|i: int, j: int| 0 <= i < j < r.len() implies (#[trigger] r[i]).identity() != (
            #[trigger] r[j]).identity() by {
                assert(r[i] == m[i]);
                if j == m.len() {
                    assert(r[j] == last);
                } else {
                    assert(r[j] == m[j]);
                }
            }
            if last.id is Some {
                assert(stored_ids(m).insert(last.key()) =~= stored_ids(s).difference(stored_ids(other)));
            } else {
                assert(stored_ids(m) =~= stored_ids(s).difference(stored_ids(other)));
            }
        }
    }
}

/// How often a stored tag with id `k` occurs in `ts`.
pub open spec fn occurrences(ts: Seq<Tag>, k: Seq<char>) -> int
    decreases ts.len(),
{
    if ts.len() == 0 {
        0
    } else {
        occurrences(ts.drop_last(), k) + if ts.last().id is Some && ts.last().key() == k {
            1int
        } else {
            0int
        }
    }
}

/// The change that `op` makes to the count of the tag with id `k`.
pub open spec fn op_delta(op: Operation, k: Seq<char>) -> int {
    match op {
        Operation::Increment { tag } => if tag@ == k {
            1int
        } else {
            0int
        },
        Operation::Decrement { tag } => if tag@ == k {
            -1int
        } else {
            0int
        },
        _ => 0int,
    }
}

/// The change that the operations make to the count of the tag with id `k`.
pub open spec fn count_delta(ops: Seq<Operation>, k: Seq<char>) -> int
    decreases ops.len(),
{
    if ops.len() == 0 {
        0
    } else {
        count_delta(ops.drop_last(), k) + op_delta(ops.last(), k)
    }
}

/// The batch that `update_tags` builds adds one to the count of each tag it
/// relates to the item, takes one from the count of each tag it unrelates, and
/// leaves every other count alone, however often a tag is listed: with
/// `lemma_batch_reaches_desired`, a count that equals the number of the tag's
/// edges before the batch still does after it.
pub proof fn lemma_batch_counts(item: String, current: Seq<Tag>, desired: Seq<Tag>)
    requires
        all_stored(current),
        all_stored(desired),
    ensures
        forall|k: Seq<char>|
            #[trigger] count_delta(
                batch_of(item, missing_from(current, desired), missing_from(desired, current)),
                k,
            ) == (if stored_ids(desired).contains(k) {
                1int
            } else {
                0int
            }) - (if stored_ids(current).contains(k) {
                1int
            } else {
                0int
            }),
{
    let to_remove = missing_from(current, desired);
    let to_add = missing_from(desired, current);
    lemma_missing_ids(current, desired);
    lemma_missing_ids(desired, current);
    assert forall|k: Seq<char>|
        #[trigger] count_delta(batch_of(item, to_remove, to_add), k) == (if stored_ids(desired).contains(k) {
            1int
        } else {
            0int
        }) - (if stored_ids(current).contains(k) {
            1int
        } else {
            0int
        }) by {
        lemma_delta_concat(edge_ops(item, to_remove, false), edge_ops(item, to_add, true), k);
        lemma_edge_delta(item, to_remove, false, k);
        lemma_edge_delta(item, to_add, true, k);
        lemma_occurrences_distinct(to_remove, k);
        lemma_occurrences_distinct(to_add, k);
    }
}

/// A stored tag occurs once in a set without repeated tags that holds it.
proof fn lemma_occurrences_distinct(ts: Seq<Tag>, k: Seq<char>)
    requires
        all_stored(ts),
        distinct_ids(ts),
    ensures
        occurrences(ts, k) == if stored_ids(ts).contains(k) {
            1int
        } else {
            0int
        },
    decreases ts.len(),
{
    if ts.len() == 0 {
        assert(!stored_ids(ts).contains(k));
    } else {
        let init = ts.drop_last();
        let last = ts.last();
        assert forall|i: int| 0 <= i < init.len() implies (#[trigger] init[i]).id is Some by {
            assert(init[i] == ts[i]);
        }
        assert forall|i: int, j: int| 0 <= i < j < init.len() implies (#[trigger] init[i]).identity() != (
        #[trigger] init[j]).identity() by {
            assert(init[i] == ts[i] && init[j] == ts[j]);
        }
        lemma_occurrences_distinct(init, k);
        lemma_stored_ids_push(init, last);
        assert(init.push(last) =~= ts);
        if last.key() == k {
            if stored_ids(init).contains(k) {
                let i = choose|i: int| 0 <= i < init.len() && (#[trigger] init[i]).id is Some && init[i].key() == k;
                assert(ts[i] == init[i]);
                assert(ts[i].identity() == ts[ts.len() - 1].identity());
            }
        }
    }
}

proof fn lemma_delta_concat(a: Seq<Operation>, b: Seq<Operation>, k: Seq<char>)
    ensures
        count_delta(a + b, k) == count_delta(a, k) + count_delta(b, k),
    decreases b.len(),
{
    if b.len() == 0 {
        assert(a + b =~= a);
    } else {
        assert((a + b).drop_last() =~= a + b.drop_last());
        assert((a + b).last() == b.last());
        lemma_delta_concat(a, b.drop_last(), k);
    }
}

proof fn lemma_edge_delta(item: String, ts: Seq<Tag>, adding: bool, k: Seq<char>)
    requires
        all_stored(ts),
    ensures
        count_delta(edge_ops(item, ts, adding), k) == if adding {
            occurrences(ts, k)
        } else {
            -occurrences(ts, k)
        },
    decreases ts.len(),
{
    if ts.len() > 0 {
        let init = ts.drop_last();
        let last = ts.last();
        assert forall|i: int| 0 <= i < init.len() implies (#[trigger] init[i]).id is Some by {
            assert(init[i] == ts[i]);
        }
        lemma_edge_delta(item, init, adding, k);
        let pair = tag_ops(item, last, adding);
        lemma_delta_concat(edge_ops(item, init, adding), pair, k);
        assert(pair.drop_last() =~= seq![pair[0]]);
        assert(seq![pair[0]].drop_last() =~= Seq::<Operation>::empty());
        assert(count_delta(Seq::<Operation>::empty(), k) == 0);
        assert(seq![pair[0]].last() == pair[0]);
        assert(count_delta(seq![pair[0]], k) == op_delta(pair[0], k));
        assert(count_delta(pair, k) == op_delta(pair[0], k) + op_delta(pair[1], k));
        assert(stored_id(last)@ == last.key());
    }
}

/// For any three stored tags with different ids, the change from {t1, t2} to
/// {t2, t3} removes t1 and adds t3 and nothing else; its batch unrelates t1
/// and takes one from its count, then relates t3 and adds one to its count.
pub proof fn lemma_reconcile_three(item: String, t1: Tag, t2: Tag, t3: Tag)
    requires
        t1.id is Some,
        t2.id is Some,
        t3.id is Some,
        t1.key() != t2.key(),
        t2.key() != t3.key(),
        t1.key() != t3.key(),
    ensures
        missing_from(seq![t1, t2], seq![t2, t3]) == seq![t1],
        missing_from(seq![t2, t3], seq![t1, t2]) == seq![t3],
        batch_of(item, seq![t1], seq![t3]) == seq![
            Operation::Unrelate { item, tag: stored_id(t1) },
            Operation::Decrement { tag: stored_id(t1) },
            Operation::Relate { item, tag: stored_id(t3) },
            Operation::Increment { tag: stored_id(t3) },
        ],
{
    let c = seq![t1, t2];
    let d = seq![t2, t3];
    assert(c.drop_last() =~= seq![t1]);
    assert(d.drop_last() =~= seq![t2]);
    assert(seq![t1].drop_last() =~= Seq::<Tag>::empty());
    assert(seq![t2].drop_last() =~= Seq::<Tag>::empty());
    let e = Seq::<Tag>::empty();
    assert(!has_identity(e, t1.identity()));
    assert(!has_identity(e, t2.identity()));
    assert(!has_identity(e, t3.identity()));
    assert(!has_identity(d, t1.identity())) by {
        assert(d[0] == t2 && d[1] == t3);
    }
    assert(has_identity(d, t2.identity())) by {
        assert(d[0] == t2);
    }
    assert(!has_identity(c, t3.identity())) by {
        assert(c[0] == t1 && c[1] == t2);
    }
    assert(has_identity(c, t2.identity())) by {
        assert(c[1] == t2);
    }
    assert(missing_from(e, d) == e);
    assert(missing_from(e, c) == e);
    assert(seq![t1].last() == t1);
    assert(seq![t2].last() == t2);
    assert(c.last() == t2);
    assert(d.last() == t3);
    assert(missing_from(seq![t1], d) == e.push(t1));
    assert(e.push(t1) =~= seq![t1]);
    assert(missing_from(seq![t2], c) == e);
    assert(!has_identity(e, t3.identity()));
    assert(missing_from(d, c) == e.push(t3));
    assert(e.push(t3) =~= seq![t3]);
    assert(!has_identity(seq![t1], t2.identity())) by {
        assert(seq![t1][0] == t1);
    }
    assert(missing_from(c, d) == seq![t1]);
    assert(seq![t3].drop_last() =~= e);
    assert(seq![t3].last() == t3);
    assert(edge_ops(item, e, false) == Seq::<Operation>::empty());
    assert(edge_ops(item, e, true) == Seq::<Operation>::empty());
    assert(edge_ops(item, seq![t1], false) == edge_ops(item, e, false) + tag_ops(item, t1, false));
    assert(edge_ops(item, seq![t3], true) == edge_ops(item, e, true) + tag_ops(item, t3, true));
    assert(edge_ops(item, seq![t1], false) =~= tag_ops(item, t1, false));
    assert(edge_ops(item, seq![t3], true) =~= tag_ops(item, t3, true));
    assert(batch_of(item, seq![t1], seq![t3]) =~= tag_ops(item, t1, false) + tag_ops(item, t3, true));
}

/// Changing an item's tags to the tags it already has is no change: no batch
/// is built and the store is not called.
pub proof fn lemma_update_same_is_noop(current: Seq<Tag>)
    ensures
        !needs_batch(current, current),
{
    lemma_reconcile_same(current);
}

/// The tags that lookups found, in order; `DatabaseError` if one found none.
pub fn collect_tags(found: Vec<Option<Tag>>) -> (r: Result<Vec<Tag>, Error>)
    ensures
        (forall|i: int| 0 <= i < found.len() ==> (#[trigger] found@[i]) is Some) ==> (r matches Ok(v)
            && v.len() == found.len() && forall|i: int| 0 <= i < found.len() ==> Some(#[trigger] v@[i]) == found@[i]),
        (exists|i: int| 0 <= i < found.len() && (#[trigger] found@[i]) is None) ==> r == Err::<Vec<Tag>, Error>(
            Error::DatabaseError,
        ),
{
    let ghost all = found@;
    let mut rest = found;
    let mut out: Vec<Tag> = Vec::new();
    let ghost mut i: int = 0;
    while rest.len() > 0
        invariant
            0 <= i <= all.len(),
            rest@ == all.skip(i),
            out.len() == i,
            all == found@,
            forall|j: int| 0 <= j < i ==> Some(#[trigger] out@[j]) == all[j],
            forall|j: int| 0 <= j < i ==> (#[trigger] all[j]) is Some,
        decreases rest.len(),
    {
        let t = rest.remove(0);
        assert(t == all[i]);
        assert(rest@ =~= all.skip(i + 1));
        match t {
            Some(t) => {
                out.push(t);
            },
            None => {
                assert(found@[i] is None);
                return Err(Error::DatabaseError);
            },
        }
        proof {
            i = i + 1;
        }
    }
    assert(forall|j: int| 0 <= j < found.len() ==> (#[trigger] found@[j]) is Some);
    Ok(out)
}

impl Operation {
    /// The statement that performs the operation in the store's query language.
    pub open spec fn spec_statement(self) -> Seq<char> {
        match self {
            Operation::Relate { item, tag } => "relate "@ + item@ + "->tagged->"@ + tag@ + ";"@,
            Operation::Unrelate { item, tag } => "delete tagged where in = "@ + item@ + " and out = "@ + tag@
                + ";"@,
            Operation::Increment { tag } => "update "@ + tag@ + " set count += 1;"@,
            Operation::Decrement { tag } => "update "@ + tag@ + " set count += -1;"@,
        }
    }

    pub fn statement(&self) -> (r: String)
        ensures
            r@ == self.spec_statement(),
    {
        let mut s = String::new();
        match self {
            Operation::Relate { item, tag } => {
                s.append("relate ");
                s.append(item.as_str());
                s.append("->tagged->");
                s.append(tag.as_str());
                s.append(";");
            },
            Operation::Unrelate { item, tag } => {
                s.append("delete tagged where in = ");
                s.append(item.as_str());
                s.append(" and out = ");
                s.append(tag.as_str());
                s.append(";");
            },
            Operation::Increment { tag } => {
                s.append("update ");
                s.append(tag.as_str());
                s.append(" set count += 1;");
            },
            Operation::Decrement { tag } => {
                s.append("update ");
                s.append(tag.as_str());
                s.append(" set count += -1;");
            },
        }
        s
    }
}

} // verus!
