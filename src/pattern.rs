use vstd::prelude::*;

use vstd::string::StringExecFns;

use crate::errors::Error;
use crate::models::tag::all_stored;
use crate::models::tag::Tag;

verus! {

/// A boolean combination of patterns: a negation, or a conjunction or
/// disjunction of two or more operands, in the order the client gave them.
#[derive(Debug, PartialEq)]
pub enum Tagged<T> {
    NOT(Box<Pattern<T>>),
    AND(Vec<Pattern<T>>),
    OR(Vec<Pattern<T>>),
}

/// A boolean expression over tags: a single tag (`Item`), or a combination.
#[derive(Debug, PartialEq)]
pub enum Pattern<T> {
    Item(T),
    Tagged(Tagged<T>),
}

/// The items of a list of patterns, left to right.
pub open spec fn leaves_of<T>(ps: Seq<Pattern<T>>) -> Seq<T>
    decreases ps,
{
    if ps.len() == 0 {
        Seq::empty()
    } else {
        leaves_of(ps.subrange(0, ps.len() - 1)) + ps[ps.len() - 1].leaves()
    }
}

impl<T> Pattern<T> {
    /// Every conjunction and disjunction in the tree has at least two operands.
    pub open spec fn well_formed(self) -> bool
        decreases self,
    {
        match self {
            Pattern::Item(_) => true,
            Pattern::Tagged(t) => t.well_formed(),
        }
    }

    /// The items of the tree in depth-first, left-to-right order.
    pub open spec fn leaves(self) -> Seq<T>
        decreases self,
    {
        match self {
            Pattern::Item(x) => seq![x],
            Pattern::Tagged(t) => t.leaves(),
        }
    }

    /// `other` is this tree with each item replaced by some value of another type.
    pub open spec fn same_shape<U>(self, other: Pattern<U>) -> bool
        decreases self,
    {
        match (self, other) {
            (Pattern::Item(_), Pattern::Item(_)) => true,
            (Pattern::Tagged(t), Pattern::Tagged(u)) => t.same_shape(u),
            _ => false,
        }
    }
}

impl<T> Tagged<T> {
    pub open spec fn well_formed(self) -> bool
        decreases self,
    {
        match self {
            Tagged::NOT(p) => p.well_formed(),
            Tagged::AND(v) => v.len() >= 2 && forall|i: int| 0 <= i < v.len() ==> (#[trigger] v@[i]).well_formed(),
            Tagged::OR(v) => v.len() >= 2 && forall|i: int| 0 <= i < v.len() ==> (#[trigger] v@[i]).well_formed(),
        }
    }

    pub open spec fn leaves(self) -> Seq<T>
        decreases self,
    {
        match self {
            Tagged::NOT(p) => p.leaves(),
            Tagged::AND(v) => leaves_of(v@),
            Tagged::OR(v) => leaves_of(v@),
        }
    }

    pub open spec fn same_shape<U>(self, other: Tagged<U>) -> bool
        decreases self,
    {
        match (self, other) {
            (Tagged::NOT(p), Tagged::NOT(q)) => p.same_shape(*q),
            (Tagged::AND(v), Tagged::AND(w)) => v.len() == w.len() && forall|i: int|
                0 <= i < v.len() ==> (#[trigger] v@[i]).same_shape(w@[i]),
            (Tagged::OR(v), Tagged::OR(w)) => v.len() == w.len() && forall|i: int|
                0 <= i < v.len() ==> (#[trigger] v@[i]).same_shape(w@[i]),
            _ => false,
        }
    }
}

/// Accepts a list of operands for a conjunction or disjunction only when it
/// holds at least two of them.
pub fn check_multiple<T>(v: Vec<T>) -> (r: Result<Vec<T>, Error>)
    ensures
        v.len() >= 2 ==> r == Ok::<Vec<T>, Error>(v),
        v.len() < 2 ==> r == Err::<Vec<T>, Error>(Error::InvalidPattern),
{
    if v.len() >= 2 {
        Ok(v)
    } else {
        Err(Error::InvalidPattern)
    }
}

impl<T> Tagged<T> {
    /// The conjunction of `v`, in its order.
    pub fn and(v: Vec<Pattern<T>>) -> (r: Result<Tagged<T>, Error>)
        ensures
            v.len() >= 2 ==> r == Ok::<Tagged<T>, Error>(Tagged::AND(v)),
            v.len() < 2 ==> r == Err::<Tagged<T>, Error>(Error::InvalidPattern),
    {
        match check_multiple(v) {
            Ok(v) => Ok(Tagged::AND(v)),
            Err(e) => Err(e),
        }
    }

    /// The disjunction of `v`, in its order.
    pub fn or(v: Vec<Pattern<T>>) -> (r: Result<Tagged<T>, Error>)
        ensures
            v.len() >= 2 ==> r == Ok::<Tagged<T>, Error>(Tagged::OR(v)),
            v.len() < 2 ==> r == Err::<Tagged<T>, Error>(Error::InvalidPattern),
    {
        match check_multiple(v) {
            Ok(v) => Ok(Tagged::OR(v)),
            Err(e) => Err(e),
        }
    }

    /// The negation of `p`.
    pub fn not(p: Pattern<T>) -> (r: Tagged<T>)
        ensures
            r == Tagged::NOT(Box::new(p)),
    {
        Tagged::NOT(Box::new(p))
    }
}

/// The values behind a sequence of references.
pub open spec fn derefs<T>(r: Seq<&T>) -> Seq<T> {
    r.map_values(|x: &T| *x)
}

/// Some lookup found no tag.
pub open spec fn any_missing<U>(found: Seq<Result<Option<U>, ()>>) -> bool {
    exists|j: int| 0 <= j < found.len() && #[trigger] found[j] == Ok::<Option<U>, ()>(None)
}

/// Some lookup could not be carried out.
pub open spec fn any_failed<U>(found: Seq<Result<Option<U>, ()>>) -> bool {
    exists|j: int| 0 <= j < found.len() && (#[trigger] found[j]) is Err
}

/// The tags that the lookups found, in order.
pub open spec fn found_values<U>(found: Seq<Result<Option<U>, ()>>) -> Seq<U> {
    found.map_values(|r: Result<Option<U>, ()>| r->Ok_0->Some_0)
}

/// The items of a prefix of a list are no more than those of the whole list.
proof fn lemma_leaves_of_prefix<T>(ps: Seq<Pattern<T>>, i: int)
    requires
        0 <= i <= ps.len(),
    ensures
        leaves_of(ps.subrange(0, i)).len() <= leaves_of(ps).len(),
    decreases ps.len(),
{
    if i < ps.len() {
        let init = ps.subrange(0, ps.len() - 1);
        assert(init.subrange(0, i) =~= ps.subrange(0, i));
        lemma_leaves_of_prefix(init, i);
    } else {
        assert(ps.subrange(0, i) =~= ps);
    }
}

impl<T> Pattern<T> {
    /// The items of the pattern in depth-first, left-to-right order: the tag
    /// references that resolution has to look up.
    pub fn items<'a>(&'a self) -> (r: Vec<&'a T>)
        ensures
            derefs(r@) == self.leaves(),
        decreases self,
    {
        match self {
            Pattern::Item(x) => {
                let mut v = Vec::new();
                v.push(x);
                assert(derefs(v@) =~= seq![*x]);
                v
            },
            Pattern::Tagged(t) => t.items(),
        }
    }

    /// The same tree with its items replaced, in order, by the first values of
    /// `vals`, which are taken out of it; `None` where `vals` has too few.
    fn rebuild<U>(&self, vals: &mut Vec<U>) -> (r: Option<Pattern<U>>)
        ensures
            r is Some <==> self.leaves().len() <= old(vals)@.len(),
            r matches Some(q) ==> {
                &&& self.same_shape(q)
                &&& q.leaves() == old(vals)@.take(self.leaves().len() as int)
                &&& final(vals)@ == old(vals)@.skip(self.leaves().len() as int)
                &&& self.well_formed() ==> q.well_formed()
            },
        decreases self,
    {
        match self {
            Pattern::Item(_) => {
                if vals.len() == 0 {
                    None
                } else {
                    let u = vals.remove(0);
                    assert(seq![u] =~= old(vals)@.take(1));
                    assert(vals@ =~= old(vals)@.skip(1));
                    Some(Pattern::Item(u))
                }
            },
            Pattern::Tagged(t) => match t.rebuild(vals) {
                Some(x) => Some(Pattern::Tagged(x)),
                None => None,
            },
        }
    }

    /// Replaces each item, in order, by the outcome of its lookup: `found[i]`
    /// for the `i`-th item of `items()`. A lookup that found nothing makes the
    /// whole resolution fail with `TagNotFound`, whatever the others gave; a
    /// failed lookup, or a count of outcomes that does not match the items,
    /// makes it fail with `ResolutionFailed`.
    pub fn convert<U>(&self, found: Vec<Result<Option<U>, ()>>) -> (r: Result<Pattern<U>, Error>)
        ensures
            any_missing(found@) ==> r == Err::<Pattern<U>, Error>(Error::TagNotFound),
            !any_missing(found@) && (any_failed(found@) || found.len() != self.leaves().len())
                ==> r == Err::<Pattern<U>, Error>(Error::ResolutionFailed),
            !any_missing(found@) && !any_failed(found@) && found.len() == self.leaves().len()
                ==> (r matches Ok(q) && self.same_shape(q) && q.leaves() == found_values(found@)
                && (self.well_formed() ==> q.well_formed())),
    {
        let ghost all = found@;
        let mut rest = found;
        let mut vals: Vec<U> = Vec::new();
        let mut missing = false;
        let mut failed = false;
        let ghost mut i: int = 0;
        while rest.len() > 0
            invariant
                0 <= i <= all.len(),
                rest@ == all.skip(i),
                missing <==> any_missing(all.take(i)),
                failed <==> any_failed(all.take(i)),
                !missing && !failed ==> vals@ == found_values(all.take(i)),
            decreases rest.len(),
        {
            let ghost prev = all.take(i);
            let r = rest.remove(0);
            proof {
                assert(r == all[i]);
                assert(all.take(i + 1) =~= prev.push(r));
                assert(rest@ =~= all.skip(i + 1));
            }
            match r {
                Ok(Some(u)) => {
                    vals.push(u);
                },
                Ok(None) => {
                    missing = true;
                },
                Err(_) => {
                    failed = true;
                },
            }
            proof {
                let next = all.take(i + 1);
                assert(next[i] == r);
                if any_missing(prev) {
                    let j = choose|j: int| 0 <= j < prev.len() && #[trigger] prev[j] == Ok::<Option<U>, ()>(None);
                    assert(next[j] == prev[j]);
                }
                if any_missing(next) && !(r == Ok::<Option<U>, ()>(None)) {
                    let j = choose|j: int| 0 <= j < next.len() && #[trigger] next[j] == Ok::<Option<U>, ()>(None);
                    assert(prev[j] == next[j]);
                }
                if any_failed(prev) {
                    let j = choose|j: int| 0 <= j < prev.len() && (#[trigger] prev[j]) is Err;
                    assert(next[j] == prev[j]);
                }
                if any_failed(next) && !(r is Err) {
                    let j = choose|j: int| 0 <= j < next.len() && (#[trigger] next[j]) is Err;
                    assert(prev[j] == next[j]);
                }
                if !missing && !failed {
                    assert(found_values(next) =~= found_values(prev).push(r->Ok_0->Some_0));
                }
                i = i + 1;
            }
        }
        assert(all.take(all.len() as int) =~= all);
        if missing {
            return Err(Error::TagNotFound);
        }
        if failed {
            return Err(Error::ResolutionFailed);
        }
        let ghost n = self.leaves().len();
        match self.rebuild(&mut vals) {
            Some(q) => {
                if vals.len() == 0 {
                    assert(all.take(n as int) =~= all);
                    Ok(q)
                } else {
                    Err(Error::ResolutionFailed)
                }
            },
            None => Err(Error::ResolutionFailed),
        }
    }
}

impl<T> Tagged<T> {
    pub fn items<'a>(&'a self) -> (r: Vec<&'a T>)
        ensures
            derefs(r@) == self.leaves(),
        decreases self,
    {
        match self {
            Tagged::NOT(x) => x.items(),
            Tagged::AND(v) => Tagged::list_items(v),
            Tagged::OR(v) => Tagged::list_items(v),
        }
    }

    fn list_items<'a>(ps: &'a Vec<Pattern<T>>) -> (r: Vec<&'a T>)
        ensures
            derefs(r@) == leaves_of(ps@),
        decreases ps,
    {
        let mut out: Vec<&'a T> = Vec::new();
        let mut i: usize = 0;
        while i < ps.len()
            invariant
                i <= ps.len(),
                derefs(out@) == leaves_of(ps@.subrange(0, i as int)),
            decreases ps.len() - i,
        {
            let mut part = ps[i].items();
            let ghost a = out@;
            let ghost b = part@;
            out.append(&mut part);
            assert(derefs(out@) =~= derefs(a) + derefs(b));
            proof {
                let head = ps@.subrange(0, i + 1);
                assert(head.subrange(0, i as int) =~= ps@.subrange(0, i as int));
            }
            i = i + 1;
        }
        assert(ps@.subrange(0, ps@.len() as int) =~= ps@);
        out
    }

    fn rebuild<U>(&self, vals: &mut Vec<U>) -> (r: Option<Tagged<U>>)
        ensures
            r is Some <==> self.leaves().len() <= old(vals)@.len(),
            r matches Some(q) ==> {
                &&& self.same_shape(q)
                &&& q.leaves() == old(vals)@.take(self.leaves().len() as int)
                &&& final(vals)@ == old(vals)@.skip(self.leaves().len() as int)
                &&& self.well_formed() ==> q.well_formed()
            },
        decreases self,
    {
        match self {
            Tagged::NOT(x) => match x.rebuild(vals) {
                Some(p) => {
                    let r = Tagged::NOT(Box::new(p));
                    assert(self.same_shape(r));
                    Some(r)
                },
                None => None,
            },
            Tagged::AND(v) => match Tagged::rebuild_list(v, vals) {
                Some(w) => {
                    let ghost wv = w@;
                    let r = Tagged::AND(w);
                    assert(self.same_shape(r));
                    proof {
                        if self.well_formed() {
                            assert forall|i: int| 0 <= i < wv.len() implies (#[trigger] wv[i]).well_formed() by {
                                assert(v@[i].well_formed());
                            }
                        }
                    }
                    Some(r)
                },
                None => None,
            },
            Tagged::OR(v) => match Tagged::rebuild_list(v, vals) {
                Some(w) => {
                    let ghost wv = w@;
                    let r = Tagged::OR(w);
                    assert(self.same_shape(r));
                    proof {
                        if self.well_formed() {
                            assert forall|i: int| 0 <= i < wv.len() implies (#[trigger] wv[i]).well_formed() by {
                                assert(v@[i].well_formed());
                            }
                        }
                    }
                    Some(r)
                },
                None => None,
            },
        }
    }

    fn rebuild_list<U>(ps: &Vec<Pattern<T>>, vals: &mut Vec<U>) -> (r: Option<Vec<Pattern<U>>>)
        ensures
            r is Some <==> leaves_of(ps@).len() <= old(vals)@.len(),
            r matches Some(w) ==> {
                &&& w.len() == ps.len()
                &&& forall|i: int| 0 <= i < ps.len() ==> (#[trigger] ps@[i]).same_shape(w@[i])
                &&& forall|i: int| 0 <= i < ps.len() ==> (#[trigger] ps@[i]).well_formed() ==> w@[i].well_formed()
                &&& leaves_of(w@) == old(vals)@.take(leaves_of(ps@).len() as int)
                &&& final(vals)@ == old(vals)@.skip(leaves_of(ps@).len() as int)
            },
        decreases ps,
    {
        let ghost start = vals@;
        let mut out: Vec<Pattern<U>> = Vec::new();
        let mut i: usize = 0;
        while i < ps.len()
            invariant
                i <= ps.len(),
                out.len() == i,
                start == old(vals)@,
                leaves_of(ps@.subrange(0, i as int)).len() <= start.len(),
                forall|j: int| 0 <= j < i ==> (#[trigger] ps@[j]).same_shape(out@[j]),
                forall|j: int| 0 <= j < i ==> (#[trigger] ps@[j]).well_formed() ==> out@[j].well_formed(),
                leaves_of(out@) == start.take(leaves_of(ps@.subrange(0, i as int)).len() as int),
                vals@ == start.skip(leaves_of(ps@.subrange(0, i as int)).len() as int),
            decreases ps.len() - i,
        {
            let ghost before = vals@;
            let ghost done = leaves_of(ps@.subrange(0, i as int)).len();
            let ghost head = ps@.subrange(0, i as int + 1);
            assert(head.subrange(0, i as int) =~= ps@.subrange(0, i as int));
            assert(head[i as int] == ps@[i as int]);
            assert(leaves_of(head) == leaves_of(ps@.subrange(0, i as int)) + ps@[i as int].leaves());
            match ps[i].rebuild(vals) {
                Some(q) => {
                    let ghost k = ps@[i as int].leaves().len();
                    let ghost prev_out = out@;
                    out.push(q);
                    proof {
                        assert(out@.subrange(0, i as int) =~= prev_out);
                        assert(start.take((done + k) as int) =~= start.take(done as int) + before.take(k as int));
                        assert(vals@ =~= start.skip((done + k) as int));
                    }
                },
                None => {
                    proof {
                        assert(before.len() == start.len() - done);
                        assert(ps@[i as int].leaves().len() > before.len());
                        assert(leaves_of(head).len() > start.len());
                        lemma_leaves_of_prefix(ps@, i + 1);
                    }
                    return None;
                },
            }
            i = i + 1;
        }
        assert(ps@.subrange(0, ps@.len() as int) =~= ps@);
        Some(out)
    }
}

impl<T> Pattern<T> {
    /// Whether every conjunction and disjunction has at least two operands.
    pub fn is_well_formed(&self) -> (r: bool)
        ensures
            r == self.well_formed(),
        decreases self,
    {
        match self {
            Pattern::Item(_) => true,
            Pattern::Tagged(t) => t.is_well_formed(),
        }
    }
}

impl<T> Tagged<T> {
    pub fn is_well_formed(&self) -> (r: bool)
        ensures
            r == self.well_formed(),
        decreases self,
    {
        match self {
            Tagged::NOT(x) => x.is_well_formed(),
            Tagged::AND(v) => v.len() >= 2 && Tagged::all_well_formed(v),
            Tagged::OR(v) => v.len() >= 2 && Tagged::all_well_formed(v),
        }
    }

    fn all_well_formed(ps: &Vec<Pattern<T>>) -> (r: bool)
        ensures
            r == forall|i: int| 0 <= i < ps.len() ==> (#[trigger] ps@[i]).well_formed(),
        decreases ps,
    {
        let mut i: usize = 0;
        while i < ps.len()
            invariant
                i <= ps.len(),
                forall|j: int| 0 <= j < i ==> (#[trigger] ps@[j]).well_formed(),
            decreases ps.len() - i,
        {
            if !ps[i].is_well_formed() {
                return false;
            }
            i = i + 1;
        }
        true
    }
}

/// Each pattern of a list whose items are all stored has only stored items.
proof fn lemma_list_ids_present(ps: Seq<Pattern<Tag>>)
    requires
        all_stored(leaves_of(ps)),
    ensures
        forall|k: int| 0 <= k < ps.len() ==> all_stored(#[trigger] ps[k].leaves()),
    decreases ps.len(),
{
    if ps.len() > 0 {
        let init = ps.subrange(0, ps.len() - 1);
        let front = leaves_of(init);
        let last = ps[ps.len() - 1].leaves();
        assert(leaves_of(ps) == front + last);
        assert forall|i: int| 0 <= i < front.len() implies (#[trigger] front[i]).id is Some by {
            assert(leaves_of(ps)[i] == front[i]);
        }
        lemma_list_ids_present(init);
        assert forall|i: int| 0 <= i < last.len() implies (#[trigger] last[i]).id is Some by {
            assert(leaves_of(ps)[front.len() + i] == last[i]);
        }
        assert forall|k: int| 0 <= k < ps.len() implies all_stored(#[trigger] ps[k].leaves()) by {
            if k < ps.len() - 1 {
                assert(init[k] == ps[k]);
            }
        }
    }
}

/// A pattern whose items are all stored tags can be compiled.
proof fn lemma_ids_present(p: Pattern<Tag>)
    requires
        all_stored(p.leaves()),
    ensures
        p.ids_present(),
    decreases p,
{
    match p {
        Pattern::Item(t) => {
            assert(p.leaves()[0] == t);
        },
        Pattern::Tagged(t) => match t {
            Tagged::NOT(x) => {
                lemma_ids_present(*x);
            },
            Tagged::AND(v) => {
                lemma_list_ids_present(v@);
                assert forall|k: int| 0 <= k < v.len() implies (#[trigger] v@[k]).ids_present() by {
                    lemma_ids_present(v@[k]);
                }
            },
            Tagged::OR(v) => {
                lemma_list_ids_present(v@);
                assert forall|k: int| 0 <= k < v.len() implies (#[trigger] v@[k]).ids_present() by {
                    lemma_ids_present(v@[k]);
                }
            },
        },
    }
}

/// Every tag that a lookup found is stored.
pub open spec fn found_stored(found: Seq<Result<Option<Tag>, ()>>) -> bool {
    forall|j: int| 0 <= j < found.len() ==> ((#[trigger] found[j]) matches Ok(Some(t)) ==> t.id is Some)
}

/// Whether every tag that a lookup found is stored.
fn items_stored(found: &Vec<Result<Option<Tag>, ()>>) -> (r: bool)
    ensures
        r == found_stored(found@),
{
    let mut i: usize = 0;
    while i < found.len()
        invariant
            i <= found.len(),
            forall|j: int| 0 <= j < i ==> ((#[trigger] found@[j]) matches Ok(Some(t)) ==> t.id is Some),
        decreases found.len() - i,
    {
        match &found[i] {
            Ok(Some(t)) => {
                if t.id.is_none() {
                    return false;
                }
            },
            _ => {},
        }
        i = i + 1;
    }
    true
}

/// Resolves a client's pattern with the outcomes of its lookups (`found[i]`
/// for the `i`-th of `items()`) and compiles it to a predicate on the tag set
/// named `set`. A malformed pattern is refused before anything else
/// (`InvalidPattern`); then resolution decides as in `convert`; a found tag
/// that is not stored gives `InvalidId`.
pub fn compile_query<T>(pattern: &Pattern<T>, found: Vec<Result<Option<Tag>, ()>>, set: &str) -> (r: Result<String, Error>)
    ensures
        !pattern.well_formed() ==> r == Err::<String, Error>(Error::InvalidPattern),
        pattern.well_formed() && any_missing(found@) ==> r == Err::<String, Error>(Error::TagNotFound),
        pattern.well_formed() && !any_missing(found@) && (any_failed(found@) || found.len() != pattern.leaves().len())
            ==> r == Err::<String, Error>(Error::ResolutionFailed),
        pattern.well_formed() && !any_missing(found@) && !any_failed(found@) && found.len() == pattern.leaves().len()
            && !all_stored(found_values(found@)) ==> r == Err::<String, Error>(Error::InvalidId),
        pattern.well_formed() && !any_missing(found@) && !any_failed(found@) && found.len() == pattern.leaves().len()
            && all_stored(found_values(found@)) ==> (r matches Ok(s) && exists|q: Pattern<Tag>|
            pattern.same_shape(q) && q.leaves() == found_values(found@) && s@ == q.compiled(set@)),
{
    if !pattern.is_well_formed() {
        return Err(Error::InvalidPattern);
    }
    let stored = items_stored(&found);
    let ghost all = found@;
    proof {
        if !any_missing(all) && !any_failed(all) {
            assert forall|j: int| 0 <= j < all.len() implies (#[trigger] all[j]) matches Ok(Some(_)) by {
                if all[j] is Err {
                    assert(any_failed(all));
                } else if all[j] == Ok::<Option<Tag>, ()>(None) {
                    assert(any_missing(all));
                }
            }
            let vals = found_values(all);
            if found_stored(all) {
                assert forall|j: int| 0 <= j < vals.len() implies (#[trigger] vals[j]).id is Some by {
                    assert(all[j] matches Ok(Some(_)));
                }
            }
            if all_stored(vals) {
                assert forall|j: int| 0 <= j < all.len() implies ((#[trigger] all[j]) matches Ok(Some(t))
                    ==> t.id is Some) by {
                    assert(vals[j].id is Some);
                }
            }
        }
    }
    match pattern.convert(found) {
        Ok(q) => {
            if !stored {
                return Err(Error::InvalidId);
            }
            proof {
                lemma_ids_present(q);
            }
            let s = q.serialize(set);
            assert(pattern.same_shape(q) && q.leaves() == found_values(all) && s@ == q.compiled(set@));
            Ok(s)
        },
        Err(e) => Err(e),
    }
}

/// The operands of a conjunction or disjunction, compiled and joined by `sep`.
pub open spec fn joined(ps: Seq<Pattern<Tag>>, sep: Seq<char>, set: Seq<char>) -> Seq<char>
    decreases ps,
{
    if ps.len() == 0 {
        Seq::empty()
    } else if ps.len() == 1 {
        ps[0].compiled(set)
    } else {
        joined(ps.subrange(0, ps.len() - 1), sep, set) + sep + ps[ps.len() - 1].compiled(set)
    }
}

/// `" && "` or `" || "` for the separator `"&&"` or `"||"`.
pub open spec fn spaced(separator: Seq<char>) -> Seq<char> {
    " "@ + separator + " "@
}

impl Pattern<Tag> {
    /// Every item of the tree is a stored tag.
    pub open spec fn ids_present(self) -> bool
        decreases self,
    {
        match self {
            Pattern::Item(t) => t.id is Some,
            Pattern::Tagged(t) => t.ids_present(),
        }
    }

    /// The predicate over the tag set `set` of an item that holds exactly when
    /// the item's tags satisfy the pattern.
    pub open spec fn compiled(self, set: Seq<char>) -> Seq<char>
        decreases self,
    {
        match self {
            Pattern::Item(t) => t.key() + " inside "@ + set,
            Pattern::Tagged(t) => t.compiled(set),
        }
    }

    /// Compiles the pattern to a predicate on the tag set named `set`.
    pub fn serialize(&self, set: &str) -> (r: String)
        requires
            self.well_formed(),
            self.ids_present(),
        ensures
            r@ == self.compiled(set@),
        decreases self,
    {
        match self {
            Pattern::Item(x) => {
                let mut s = x.to_string();
                s.append(" inside ");
                s.append(set);
                s
            },
            Pattern::Tagged(x) => x.serialize(set),
        }
    }
}

impl Tagged<Tag> {
    pub open spec fn ids_present(self) -> bool
        decreases self,
    {
        match self {
            Tagged::NOT(p) => p.ids_present(),
            Tagged::AND(v) => forall|i: int| 0 <= i < v.len() ==> (#[trigger] v@[i]).ids_present(),
            Tagged::OR(v) => forall|i: int| 0 <= i < v.len() ==> (#[trigger] v@[i]).ids_present(),
        }
    }

    /// A negated item becomes a negated membership test; any other negation
    /// compares the compiled operand with `false`; operand lists are joined,
    /// in order, and parenthesised.
    pub open spec fn compiled(self, set: Seq<char>) -> Seq<char>
        decreases self,
    {
        match self {
            Tagged::NOT(p) => match *p {
                Pattern::Item(t) => t.key() + " notinside "@ + set,
                _ => "(("@ + p.compiled(set) + ") == false)"@,
            },
            Tagged::AND(v) => "("@ + joined(v@, spaced("&&"@), set) + ")"@,
            Tagged::OR(v) => "("@ + joined(v@, spaced("||"@), set) + ")"@,
        }
    }

    pub fn serialize(&self, set: &str) -> (r: String)
        requires
            self.well_formed(),
            self.ids_present(),
        ensures
            r@ == self.compiled(set@),
        decreases self,
    {
        match self {
            Tagged::NOT(x) => {
                let inner: &Pattern<Tag> = &**x;
                match inner {
                    Pattern::Item(y) => {
                        let mut s = y.to_string();
                        s.append(" notinside ");
                        s.append(set);
                        s
                    },
                    _ => {
                        let mut s = String::new();
                        s.append("((");
                        let body = x.serialize(set);
                        s.append(body.as_str());
                        s.append(") == false)");
                        s
                    },
                }
            },
            Tagged::AND(v) => Tagged::join(v, "&&", set),
            Tagged::OR(v) => Tagged::join(v, "||", set),
        }
    }

    /// Compiles each pattern and joins the results with `separator`, spaced,
    /// in their order, inside one pair of parentheses.
    pub fn join(patterns: &Vec<Pattern<Tag>>, separator: &str, set: &str) -> (r: String)
        requires
            patterns.len() >= 1,
            forall|i: int| 0 <= i < patterns.len() ==> (#[trigger] patterns@[i]).well_formed(),
            forall|i: int| 0 <= i < patterns.len() ==> (#[trigger] patterns@[i]).ids_present(),
        ensures
            r@ == "("@ + joined(patterns@, spaced(separator@), set@) + ")"@,
        decreases patterns,
    {
        let ghost sep = spaced(separator@);
        let mut s = String::new();
        s.append("(");
        let mut i: usize = 0;
        while i < patterns.len()
            invariant
                i <= patterns.len(),
                patterns.len() >= 1,
                sep == spaced(separator@),
                forall|j: int| 0 <= j < patterns.len() ==> (#[trigger] patterns@[j]).well_formed(),
                forall|j: int| 0 <= j < patterns.len() ==> (#[trigger] patterns@[j]).ids_present(),
                s@ == "("@ + joined(patterns@.subrange(0, i as int), sep, set@),
            decreases patterns.len() - i,
        {
            if i > 0 {
                s.append(" ");
                s.append(separator);
                s.append(" ");
            }
            let part = patterns[i].serialize(set);
            s.append(part.as_str());
            proof {
                let head = patterns@.subrange(0, i + 1);
                assert(head.subrange(0, i as int) =~= patterns@.subrange(0, i as int));
                assert(head[i as int] == patterns@[i as int]);
                assert(s@ =~= "("@ + joined(head, sep, set@));
            }
            i = i + 1;
        }
        assert(patterns@.subrange(0, patterns@.len() as int) =~= patterns@);
        s.append(")");
        s
    }
}

} // verus!
