use wasm_interop::handle::{bar, box_int_round_trip, foo, nested_scopes_release_in_reverse, JObj};
use wasm_interop::host::{Event, Host};

fn alloc_id(e: Event) -> u32 {
    match e {
        Event::Alloc(id, _) => id,
        _ => panic!("expected an allocation event"),
    }
}

#[test]
fn discard_without_reading() {
    let mut host = Host::new();
    let a = JObj::<i32>::boxed(&mut host, 2);
    a.release(&mut host);

    assert_eq!(host.event_count(), 2);
    let id = alloc_id(host.event_at(0));
    assert_eq!(host.event_at(0), Event::Alloc(id, 2));
    assert_eq!(host.event_at(1), Event::Free(id));
    assert!(!host.is_live(id));
}

#[test]
fn read_then_release() {
    let mut host = Host::new();
    let b = JObj::<i32>::boxed(&mut host, 100);
    let v = b.value(&mut host);
    assert_eq!(v, 100);
    b.release(&mut host);

    assert_eq!(host.event_count(), 3);
    let id = alloc_id(host.event_at(0));
    assert_eq!(host.event_at(0), Event::Alloc(id, 100));
    assert_eq!(host.event_at(1), Event::Read(id));
    assert_eq!(host.event_at(2), Event::Free(id));
}

#[test]
fn round_trip_boxed_integers() {
    let mut host = Host::new();
    for v in [0, 1, -1, 42, i32::MIN, i32::MAX] {
        assert_eq!(box_int_round_trip(&mut host, v), v);
    }
}

#[test]
fn foo_releases_first_and_returns_second() {
    let mut host = Host::new();
    let obj = foo(&mut host);

    assert_eq!(host.event_count(), 3);
    let first = alloc_id(host.event_at(0));
    let second = alloc_id(host.event_at(2));
    assert_eq!(host.event_at(0), Event::Alloc(first, 2));
    assert_eq!(host.event_at(1), Event::Free(first));
    assert_eq!(host.event_at(2), Event::Alloc(second, 100));
    assert!(!host.is_live(first));
    assert!(host.is_live(second));

    let v = bar(&mut host, obj);
    assert_eq!(v, 100);
    assert!(!host.is_live(second));
}

#[test]
fn bar_reads_then_frees() {
    let mut host = Host::new();
    let obj = JObj::<i32>::boxed(&mut host, -7);
    let v = bar(&mut host, obj);
    assert_eq!(v, -7);

    assert_eq!(host.event_count(), 3);
    let id = alloc_id(host.event_at(0));
    assert_eq!(host.event_at(1), Event::Read(id));
    assert_eq!(host.event_at(2), Event::Free(id));
}

#[test]
fn borrowed_read_leaves_handle_live() {
    let mut host = Host::new();
    let h = JObj::<i32>::boxed(&mut host, 5);
    let id = alloc_id(host.event_at(0));

    let first = h.value(&mut host);
    assert_eq!(first, 5);
    assert!(host.is_live(id));

    let again = h.value(&mut host);
    assert_eq!(again, 5);
    assert!(host.is_live(id));

    assert_eq!(host.event_count(), 3);
    assert_eq!(host.event_at(1), Event::Read(id));
    assert_eq!(host.event_at(2), Event::Read(id));

    h.release(&mut host);
    assert!(!host.is_live(id));
}

#[test]
fn nested_scopes_release_in_reverse_order() {
    let mut host = Host::new();
    let outer = JObj::<i32>::boxed(&mut host, 1);
    let inner = JObj::<i32>::boxed(&mut host, 2);
    inner.release(&mut host);
    outer.release(&mut host);

    assert_eq!(host.event_count(), 4);
    let a = alloc_id(host.event_at(0));
    let b = alloc_id(host.event_at(1));
    assert_eq!(host.event_at(2), Event::Free(b));
    assert_eq!(host.event_at(3), Event::Free(a));
}

#[test]
fn nested_scope_law_on_concrete_values() {
    let mut host = Host::new();
    nested_scopes_release_in_reverse(&mut host, 11, 22);

    assert_eq!(host.event_count(), 4);
    assert_eq!(host.event_at(0), Event::Alloc(0, 11));
    assert_eq!(host.event_at(1), Event::Alloc(1, 22));
    assert_eq!(host.event_at(2), Event::Free(1));
    assert_eq!(host.event_at(3), Event::Free(0));
    assert!(!host.is_live(0));
    assert!(!host.is_live(1));
}
