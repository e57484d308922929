use css_transition::utils::{ArcOneCallback, EventListenerHandle};
use std::cell::Cell;
use std::rc::Rc;

#[test]
fn arc_one_callback_invokes_wrapped_function() {
    let cb = ArcOneCallback::new(|x: i32| x * 2);
    assert_eq!(cb.call(21), 42);
}

#[test]
fn arc_one_callback_clone_shares_the_function() {
    let hits = Rc::new(Cell::new(0));
    let h = hits.clone();
    let cb = ArcOneCallback::new(move |n: i32| {
        h.set(h.get() + n);
    });
    let cb2 = cb.clone();
    cb.call(1);
    cb2.call(2);
    assert_eq!(hits.get(), 3);
}

#[test]
fn event_listener_handle_runs_removal_once() {
    let removed = Rc::new(Cell::new(0));
    let r = removed.clone();
    let handle = EventListenerHandle::new(move || {
        r.set(r.get() + 1);
    });
    handle.remove();
    assert_eq!(removed.get(), 1);
}
