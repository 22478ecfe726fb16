//! The host side of the module boundary, modeled as explicit state.
//!
//! The host owns a heap of boxed primitive values named by opaque integer
//! identifiers. Every crossing of the boundary that touches such an object
//! is recorded in an event log, so that the lifecycle discipline of the
//! handle layer — every object released exactly once, never used after its
//! release — is visible in the contracts and provable from them.

use vstd::prelude::*;

verus! {

/// One crossing of the host boundary that touches a host-managed object.
#[derive(Clone, Copy, PartialEq, Eq, Structural, Debug)]
pub enum Event {
    /// The host boxed a primitive value under a fresh identifier.
    Alloc(u32, i32),
    /// The host read the primitive value back out of an object.
    Read(u32),
    /// The host released an object.
    Free(u32),
}

/// How many allocations of `id` the log records.
pub open spec fn alloc_count(log: Seq<Event>, id: u32) -> nat
    decreases log.len(),
{
    if log.len() == 0 {
        0
    } else {
        alloc_count(log.drop_last(), id) + (match log.last() {
            Event::Alloc(i, _) => if i == id {
                1nat
            } else {
                0nat
            },
            _ => 0nat,
        })
    }
}

/// How many releases of `id` the log records.
pub open spec fn free_count(log: Seq<Event>, id: u32) -> nat
    decreases log.len(),
{
    if log.len() == 0 {
        0
    } else {
        free_count(log.drop_last(), id) + (match log.last() {
            Event::Free(i) => if i == id {
                1nat
            } else {
                0nat
            },
            _ => 0nat,
        })
    }
}

proof fn lemma_counts_push(log: Seq<Event>, e: Event)
    ensures
        forall|id: u32| #[trigger] alloc_count(log.push(e), id) == alloc_count(log, id) + (
        match e {
            Event::Alloc(i, _) => if i == id {
                1nat
            } else {
                0nat
            },
            _ => 0nat,
        }),
        forall|id: u32| #[trigger] free_count(log.push(e), id) == free_count(log, id) + (match e {
            Event::Free(i) => if i == id {
                1nat
            } else {
                0nat
            },
            _ => 0nat,
        }),
{
    assert(log.push(e).drop_last() =~= log);
    assert(log.push(e).last() == e);
}

/// Whether every prefix of the log shows at least as many allocations of
/// each identifier as releases of it — that is, no release ever comes
/// before its allocation.
pub open spec fn balanced(log: Seq<Event>) -> bool {
    forall|k: int, id: u32|
        0 <= k <= log.len() ==> #[trigger] free_count(log.take(k), id) <= alloc_count(
            log.take(k),
            id,
        )
}

proof fn lemma_balanced_push(log: Seq<Event>, e: Event)
    requires
        balanced(log),
        e matches Event::Free(i) ==> free_count(log, i) < alloc_count(log, i),
    ensures
        balanced(log.push(e)),
{
    lemma_counts_push(log, e);
    assert(log.take(log.len() as int) =~= log);
    assert forall|k: int, id: u32|
        0 <= k <= log.push(e).len() implies #[trigger] free_count(log.push(e).take(k), id)
        <= alloc_count(log.push(e).take(k), id) by {
        if k <= log.len() {
            assert(log.push(e).take(k) =~= log.take(k));
        } else {
            assert(log.push(e).take(k) =~= log.push(e));
        }
    }
}

/// The host environment: a heap of boxed integers indexed by identifier,
/// with a released slot left as a tombstone, and the log of boundary
/// crossings so far.
pub struct Host {
    objects: Vec<Option<i32>>,
    events: Vec<Event>,
}

impl Host {
    /// The log of boundary crossings, oldest first.
    pub closed spec fn log(&self) -> Seq<Event> {
        self.events@
    }

    /// The object heap: one slot per identifier ever allocated, `None` once
    /// the object has been released.
    pub closed spec fn objects(&self) -> Seq<Option<i32>> {
        self.objects@
    }

    /// How many identifiers the host has handed out so far.
    pub open spec fn object_count(&self) -> nat {
        self.objects().len()
    }

    /// Whether `id` names an object that is allocated and not yet released.
    pub open spec fn live(&self, id: u32) -> bool {
        (id as nat) < self.objects().len() && self.objects()[id as int] is Some
    }

    /// The primitive value boxed under `id`.
    pub open spec fn value_of(&self, id: u32) -> i32 {
        self.objects()[id as int]->0
    }

    /// Whether the host can hand out one more identifier.
    pub open spec fn can_alloc(&self) -> bool {
        self.object_count() < u32::MAX as nat
    }

    /// The host's integrity invariant: the log and the heap agree — each
    /// identifier below the allocation horizon was allocated exactly once,
    /// none beyond it ever was, and an identifier was released exactly once
    /// when its slot is a tombstone and never otherwise.
    pub closed spec fn wf(&self) -> bool {
        &&& self.objects@.len() <= u32::MAX as nat
        &&& forall|id: u32|
            (id as nat) < self.objects@.len() ==> #[trigger] alloc_count(self.events@, id) == 1
        &&& forall|id: u32|
            (id as nat) >= self.objects@.len() ==> #[trigger] alloc_count(self.events@, id) == 0
        &&& forall|id: u32|
            (id as nat) < self.objects@.len() ==> #[trigger] free_count(self.events@, id) == (
            if self.objects@[id as int] is Some {
                0nat
            } else {
                1nat
            })
        &&& forall|id: u32|
            (id as nat) >= self.objects@.len() ==> #[trigger] free_count(self.events@, id) == 0
        &&& balanced(self.events@)
    }

    /// A fresh host with no objects and an empty log.
    pub fn new() -> (h: Host)
        ensures
            h.wf(),
            h.log() == Seq::<Event>::empty(),
            h.object_count() == 0,
    {
        Host { objects: Vec::new(), events: Vec::new() }
    }

    /// The boxing import: the host allocates an object holding `v` and hands
    /// back its fresh identifier.
    pub(crate) fn box_int(&mut self, v: i32) -> (id: u32)
        requires
            old(self).wf(),
            old(self).can_alloc(),
        ensures
            final(self).wf(),
            (id as nat) == old(self).object_count(),
            final(self).objects() == old(self).objects().push(Some(v)),
            final(self).log() == old(self).log().push(Event::Alloc(id, v)),
    {
        let id = self.objects.len() as u32;
        self.objects.push(Some(v));
        self.events.push(Event::Alloc(id, v));
        proof {
            lemma_counts_push(old(self).events@, Event::Alloc(id, v));
            lemma_balanced_push(old(self).events@, Event::Alloc(id, v));
        }
        id
    }

    /// The value-read import: the host reads the primitive value back out of
    /// a live object; the heap is left untouched.
    pub(crate) fn read_int(&mut self, id: u32) -> (v: i32)
        requires
            old(self).wf(),
            old(self).live(id),
        ensures
            final(self).wf(),
            v == old(self).value_of(id),
            final(self).objects() == old(self).objects(),
            final(self).log() == old(self).log().push(Event::Read(id)),
    {
        self.events.push(Event::Read(id));
        proof {
            lemma_counts_push(old(self).events@, Event::Read(id));
            lemma_balanced_push(old(self).events@, Event::Read(id));
        }
        match self.objects[id as usize] {
            Some(v) => v,
            None => 0,
        }
    }

    /// The release import: the host frees a live object; its slot becomes a
    /// tombstone and its identifier is never reused.
    pub(crate) fn free(&mut self, id: u32)
        requires
            old(self).wf(),
            old(self).live(id),
        ensures
            final(self).wf(),
            final(self).objects() == old(self).objects().update(id as int, None),
            final(self).log() == old(self).log().push(Event::Free(id)),
    {
        self.objects[id as usize] = None;
        self.events.push(Event::Free(id));
        proof {
            assert(free_count(old(self).events@, id) == 0);
            assert(alloc_count(old(self).events@, id) == 1);
            lemma_counts_push(old(self).events@, Event::Free(id));
            lemma_balanced_push(old(self).events@, Event::Free(id));
        }
    }

    /// How many boundary crossings the log records.
    pub fn event_count(&self) -> (n: usize)
        ensures
            n == self.log().len(),
    {
        self.events.len()
    }

    /// The `i`-th boundary crossing, oldest first.
    pub fn event_at(&self, i: usize) -> (e: Event)
        requires
            i < self.log().len(),
        ensures
            e == self.log()[i as int],
    {
        self.events[i]
    }

    /// Whether `id` names a live object.
    pub fn is_live(&self, id: u32) -> (b: bool)
        ensures
            b == self.live(id),
    {
        (id as usize) < self.objects.len() && self.objects[id as usize].is_some()
    }
}

/// A well-formed host never allocates one identifier twice and never
/// releases an object more often than it was allocated: at most one release
/// ever occurs per acquisition. Moreover no prefix of the log shows a
/// release before its acquisition: the release, where it happened, came
/// after the allocation.
pub proof fn lemma_release_at_most_once(h: Host, id: u32)
    requires
        h.wf(),
    ensures
        alloc_count(h.log(), id) <= 1,
        free_count(h.log(), id) <= alloc_count(h.log(), id),
        balanced(h.log()),
{
}

} // verus!
