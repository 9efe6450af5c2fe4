//! A reserve of widget identifiers, filled ahead of need.
//!
//! A widget that creates drawable objects while it handles input needs an
//! identifier for each of them. The pool is topped up from the `Ui`'s
//! generator at one known point of the update, so that an identifier is at
//! hand when a stroke is finished.

use conrod::widget::id::Generator;
use conrod::widget::Id;
use vstd::prelude::*;

verus! {

/// `petgraph::graph::NodeIndex`, of which conrod's `widget::Id` is the
/// 32-bit kind. It is declared without its contents: the library carries
/// identifiers and never looks into one.
#[verifier::external_type_specification]
#[verifier::external_body]
#[verifier::reject_recursive_types(Ix)]
pub struct ExNodeIndex<Ix>(petgraph::graph::NodeIndex<Ix>);

/// `conrod::widget::id::Generator`, which borrows the widget graph of a
/// `Ui` and adds nodes to it. It is declared without its contents.
#[verifier::external_type_specification]
#[verifier::external_body]
pub struct ExGenerator<'a>(Generator<'a>);

/// The identifiers of the nodes that the generator's widget graph holds, in
/// the order in which they were added. This is a name only: all that is
/// known of it is what the contract of `Generator::next` says.
pub uninterp spec fn issued(id_generator: Generator) -> Seq<Id>;

/// `Generator::next` adds a placeholder node to the widget graph and returns
/// its identifier, which no node of the graph had before. It panics when the
/// graph already holds as many nodes as a 32-bit index can number. This
/// contract is taken on trust from conrod and petgraph; nothing here proves
/// it.
pub assume_specification<'a>[ Generator::<'a>::next ](id_generator: &mut Generator<'a>) -> (id: Id)
    requires
        issued(*old(id_generator)).len() < u32::MAX,
    ensures
        !issued(*old(id_generator)).contains(id),
        issued(*final(id_generator)) == issued(*old(id_generator)).push(id),
;

/// The number of identifiers that `repopulate` keeps in reserve.
pub const POOL_SIZE: usize = 20;

/// How many identifiers a pool of `len` lacks to hold `target`.
pub open spec fn shortfall(len: nat, target: nat) -> nat {
    if len < target {
        (target - len) as nat
    } else {
        0
    }
}

/// The identifiers that the graph gained between two states of its generator.
pub open spec fn fresh_ids(before: Generator, after: Generator) -> Seq<Id> {
    issued(after).skip(issued(before).len() as int)
}

/// Between two states of its generator the graph kept its nodes and gained
/// `count`, whose identifiers differ from each other and from those of the
/// nodes that were there.
pub open spec fn grew(before: Generator, after: Generator, count: nat) -> bool {
    let fresh = fresh_ids(before, after);
    &&& issued(after) == issued(before) + fresh
    &&& fresh.len() == count
    &&& fresh.no_duplicates()
    &&& forall|i: int| 0 <= i < fresh.len() ==> !issued(before).contains(#[trigger] fresh[i])
}

/// A pool brought to `target` identifiers: one that is short takes all of
/// `fresh` at its end, any other keeps its first `target`.
pub open spec fn resized(pool: Seq<Id>, target: nat, fresh: Seq<Id>) -> Seq<Id> {
    if pool.len() < target {
        pool + fresh
    } else {
        pool.take(target as int)
    }
}

/// A pool that was brought to `target` holds `target` identifiers, and to
/// bring it there again takes none and leaves it as it is.
pub proof fn lemma_resize_idempotent(pool: Seq<Id>, target: nat, fresh: Seq<Id>, later: Seq<Id>)
    requires
        fresh.len() == shortfall(pool.len(), target),
    ensures
        resized(pool, target, fresh).len() == target,
        shortfall(resized(pool, target, fresh).len(), target) == 0,
        resized(resized(pool, target, fresh), target, later) == resized(pool, target, fresh),
{
}

/// A pool of unused widget identifiers. The view lists them, the next one to
/// be handed out last.
#[derive(Debug, PartialEq, Eq)]
pub struct IdPool(Vec<Id>);

impl View for IdPool {
    type V = Seq<Id>;

    closed spec fn view(&self) -> Seq<Id> {
        self.0@
    }
}

impl core::ops::Deref for IdPool {
    type Target = [Id];

    /// The identifiers in reserve.
    fn deref(&self) -> (ids: &[Id])
        ensures
            ids@ == self@,
    {
        self.0.as_slice()
    }
}

impl IdPool {
    /// An empty pool.
    pub fn new() -> (pool: Self)
        ensures
            pool@ == Seq::<Id>::empty(),
    {
        IdPool(Vec::new())
    }

    /// The number of identifiers in reserve.
    pub fn len(&self) -> (n: usize)
        ensures
            n == self@.len(),
    {
        self.0.len()
    }

    /// Brings the pool to `target_len` identifiers. A pool that is short
    /// takes the missing ones from the generator, each new to the widget
    /// graph; a pool that is long drops its last ones. At `target_len` the
    /// pool and the generator are left as they are.
    pub fn resize(&mut self, target_len: usize, id_generator: &mut Generator)
        requires
            issued(*old(id_generator)).len() + shortfall(old(self)@.len(), target_len as nat)
                <= u32::MAX,
        ensures
            grew(
                *old(id_generator),
                *final(id_generator),
                shortfall(old(self)@.len(), target_len as nat),
            ),
            final(self)@ == resized(
                old(self)@,
                target_len as nat,
                fresh_ids(*old(id_generator), *final(id_generator)),
            ),
    {
        let ghost before = issued(*id_generator);
        let ghost pool = self@;
        if self.0.len() < target_len {
            self.0.reserve(target_len);
            while self.0.len() < target_len
                invariant
                    pool.len() < target_len,
                    before.len() + (target_len - pool.len()) <= u32::MAX,
                    self.0@.len() <= target_len,
                    before.len() <= issued(*id_generator).len(),
                    issued(*id_generator) == before + issued(*id_generator).skip(
                        before.len() as int,
                    ),
                    self.0@ == pool + issued(*id_generator).skip(before.len() as int),
                    issued(*id_generator).skip(before.len() as int).no_duplicates(),
                    forall|i: int|
                        before.len() <= i < issued(*id_generator).len() ==> !before.contains(
                            #[trigger] issued(*id_generator)[i],
                        ),
                decreases target_len - self.0@.len(),
            {
                let ghost so_far = issued(*id_generator);
                let id = id_generator.next();
                self.0.push(id);
                proof {
                    let now = issued(*id_generator);
                    let n = before.len() as int;
                    assert(now.skip(n) == so_far.skip(n).push(id));
                    assert(now == before + now.skip(n));
                    assert forall|i: int, j: int|
                        0 <= i < j < now.skip(n).len() implies now.skip(n)[i] != now.skip(n)[j] by {
                        if j == now.skip(n).len() - 1 {
                            assert(so_far[n + i] == now.skip(n)[i]);
                        }
                    }
                    assert forall|i: int| n <= i < now.len() implies !before.contains(
                        #[trigger] now[i],
                    ) by {
                        if i == now.len() - 1 {
                            if before.contains(id) {
                                let k = choose|k: int| 0 <= k < before.len() && before[k] == id;
                                assert(so_far[k] == id);
                            }
                        }
                    }
                }
            }
        }
        let ghost grown = self.0@;
        assert(pool.len() >= target_len ==> grown == pool.take(pool.len() as int));
        while self.0.len() > target_len
            invariant
                pool.len() < target_len ==> self.0@ == grown && grown.len() == target_len,
                pool.len() >= target_len ==> self.0@ == pool.take(self.0@.len() as int)
                    && target_len <= self.0@.len() <= pool.len(),
            decreases self.0@.len(),
        {
            self.0.pop();
        }
    }

    /// Brings the pool to `POOL_SIZE` identifiers.
    pub fn repopulate(&mut self, id_generator: &mut Generator)
        requires
            issued(*old(id_generator)).len() + shortfall(old(self)@.len(), POOL_SIZE as nat)
                <= u32::MAX,
        ensures
            grew(
                *old(id_generator),
                *final(id_generator),
                shortfall(old(self)@.len(), POOL_SIZE as nat),
            ),
            final(self)@ == resized(
                old(self)@,
                POOL_SIZE as nat,
                fresh_ids(*old(id_generator), *final(id_generator)),
            ),
    {
        self.resize(POOL_SIZE, id_generator);
    }

    /// Takes the last identifier out of the pool, if it holds any.
    pub fn get(&mut self) -> (id: Option<Id>)
        ensures
            old(self)@.len() == 0 ==> id.is_none() && final(self)@ == old(self)@,
            old(self)@.len() > 0 ==> id == Some(old(self)@.last()) && final(self)@ == old(
                self,
            )@.drop_last(),
    {
        self.0.pop()
    }
}

} // verus!
