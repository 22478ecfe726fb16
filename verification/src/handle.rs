//! Typed handles for host-managed objects.
//!
//! A [`JObj`] owns exactly one host-side object: it is created by a boxing
//! call, and the only way to give the object up is [`JObj::release`], which
//! consumes the handle. Ownership is therefore linear — a release can be
//! written at most once per handle, and no use of the identifier can be
//! written after it. A [`JObjRef`] is a borrowed, non-owning view whose
//! lifetime the borrow checker confines to the handle's own; it carries no
//! release capability at all.

use core::marker::PhantomData;
use vstd::prelude::*;
use crate::host::{Event, Host};

verus! {

/// Owning handle for one host-side object, identified by an opaque integer.
///
/// The type parameter is a compile-time tag naming the boxed value's type;
/// it has no runtime representation.
pub struct JObj<T> {
    id: u32,
    phantom: PhantomData<T>,
}

/// Non-owning view of a handle's identifier, bounded by the handle's
/// lifetime. It copies the identifier but can neither release the object
/// nor outlive the handle it came from.
pub struct JObjRef<'a, T> {
    id: u32,
    phantom: PhantomData<&'a JObj<T>>,
}

impl<T> JObj<T> {
    /// The opaque identifier this handle owns.
    pub closed spec fn id(&self) -> u32 {
        self.id
    }

    /// Derives a borrowed reference carrying the same identifier. The
    /// reference cannot outlive `self`, so it can never witness the object
    /// after release.
    pub fn ptr<'a>(&'a self) -> (r: JObjRef<'a, T>)
        ensures
            r.id() == self.id(),
    {
        JObjRef { id: self.id, phantom: PhantomData }
    }
}

impl<'a, T> JObjRef<'a, T> {
    /// The identifier this reference views.
    pub closed spec fn id(&self) -> u32 {
        self.id
    }
}

/// The value-read import as the handle layer sees it: takes a borrowed
/// reference, never an owning handle, so reading can never release.
fn int_value(host: &mut Host, r: JObjRef<'_, i32>) -> (v: i32)
    requires
        old(host).wf(),
        old(host).live(r.id()),
    ensures
        final(host).wf(),
        v == old(host).value_of(r.id()),
        final(host).objects() == old(host).objects(),
        final(host).log() == old(host).log().push(Event::Read(r.id())),
{
    host.read_int(r.id)
}

impl JObj<i32> {
    /// Boxes `v` on the host and takes unique ownership of the fresh
    /// identifier the host hands back.
    pub fn boxed(host: &mut Host, v: i32) -> (obj: JObj<i32>)
        requires
            old(host).wf(),
            old(host).can_alloc(),
        ensures
            final(host).wf(),
            obj.id() as nat == old(host).object_count(),
            final(host).live(obj.id()),
            final(host).value_of(obj.id()) == v,
            final(host).objects() == old(host).objects().push(Some(v)),
            final(host).log() == old(host).log().push(Event::Alloc(obj.id(), v)),
    {
        let id = host.box_int(v);
        JObj { id, phantom: PhantomData }
    }

    /// Reads the boxed primitive back out through a borrowed reference.
    /// The reference lives for this one call; the handle remains live and
    /// still owns the object afterwards.
    pub fn value(&self, host: &mut Host) -> (v: i32)
        requires
            old(host).wf(),
            old(host).live(self.id()),
        ensures
            final(host).wf(),
            v == old(host).value_of(self.id()),
            final(host).objects() == old(host).objects(),
            final(host).live(self.id()),
            final(host).log() == old(host).log().push(Event::Read(self.id())),
    {
        int_value(host, self.ptr())
    }

    /// Releases the host object. Consuming `self` makes this the one and
    /// only release of the identifier: no later use of the handle can be
    /// written, so use-after-release is unrepresentable.
    pub fn release(self, host: &mut Host)
        requires
            old(host).wf(),
            old(host).live(self.id()),
        ensures
            final(host).wf(),
            !final(host).live(self.id()),
            final(host).objects() == old(host).objects().update(self.id() as int, None),
            final(host).log() == old(host).log().push(Event::Free(self.id())),
    {
        host.free(self.id)
    }
}

/// Boxes the value 2 and releases that object at once without ever reading
/// it, then boxes the value 100 and transfers that handle to the caller —
/// the discarded object is released exactly once and the returned one not
/// at all.
pub fn foo(host: &mut Host) -> (obj: JObj<i32>)
    requires
        old(host).wf(),
        old(host).object_count() + 1 < u32::MAX as nat,
    ensures
        final(host).wf(),
        final(host).live(obj.id()),
        final(host).value_of(obj.id()) == 100,
        obj.id() as nat == old(host).object_count() + 1,
        final(host).log() == old(host).log().push(
            Event::Alloc((old(host).object_count() as u32), 2),
        ).push(Event::Free((old(host).object_count() as u32))).push(Event::Alloc(obj.id(), 100)),
{
    let first = JObj::<i32>::boxed(host, 2);
    first.release(host);
    JObj::<i32>::boxed(host, 100)
}

/// Consumes a handle: reads the boxed value out, releases the object, and
/// returns the value. The release happens exactly once, after the read.
pub fn bar(host: &mut Host, v: JObj<i32>) -> (r: i32)
    requires
        old(host).wf(),
        old(host).live(v.id()),
    ensures
        final(host).wf(),
        r == old(host).value_of(v.id()),
        !final(host).live(v.id()),
        final(host).objects() == old(host).objects().update(v.id() as int, None),
        final(host).log() == old(host).log().push(Event::Read(v.id())).push(
            Event::Free(v.id()),
        ),
{
    let r = v.value(host);
    v.release(host);
    r
}

/// Scope law: two objects acquired in order and released at the ends of
/// their nested scopes are each released exactly once, in reverse order of
/// acquisition, whatever the host held before and whatever the values are.
pub fn nested_scopes_release_in_reverse(host: &mut Host, outer_value: i32, inner_value: i32)
    requires
        old(host).wf(),
        old(host).object_count() + 1 < u32::MAX as nat,
    ensures
        final(host).wf(),
        final(host).log() == old(host).log().push(
            Event::Alloc(old(host).object_count() as u32, outer_value),
        ).push(Event::Alloc((old(host).object_count() + 1) as u32, inner_value)).push(
            Event::Free((old(host).object_count() + 1) as u32),
        ).push(Event::Free(old(host).object_count() as u32)),
{
    let outer = JObj::<i32>::boxed(host, outer_value);
    let inner = JObj::<i32>::boxed(host, inner_value);
    inner.release(host);
    outer.release(host);
}

/// Round-trip law: boxing any representable integer on the host and reading
/// it back through the handle yields that same integer.
pub fn box_int_round_trip(host: &mut Host, v: i32) -> (r: i32)
    requires
        old(host).wf(),
        old(host).can_alloc(),
    ensures
        r == v,
        final(host).wf(),
{
    let obj = JObj::<i32>::boxed(host, v);
    bar(host, obj)
}

} // verus!
