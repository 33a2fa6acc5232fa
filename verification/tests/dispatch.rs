use std::cell::RefCell;

use westonite::dispatch::Dispatcher;

#[derive(Clone, Copy, Debug, PartialEq, Eq)]
enum Event {
    HeadsChanged,
    CompositorShutdown,
}

/// A context in the shape the compositor uses: the dispatcher behind a
/// `RefCell`, and a handler that may re-enter it.
struct Ctx {
    d: RefCell<Dispatcher<Event>>,
    seen: RefCell<Vec<Event>>,
    chain: bool,
}

impl Ctx {
    fn new(chain: bool) -> Ctx {
        Ctx {
            d: RefCell::new(Dispatcher::new()),
            seen: RefCell::new(Vec::new()),
            chain,
        }
    }

    fn enqueue(&self, ev: Event) {
        self.d.borrow_mut().enqueue(ev);
    }

    fn with_depth<F: FnOnce()>(&self, f: F) {
        self.d.borrow_mut().enter();
        f();
        let drain_now = self.d.borrow_mut().leave();
        if drain_now {
            self.drain();
        }
    }

    fn drain(&self) {
        self.d.borrow_mut().begin_drain();
        loop {
            let next = self.d.borrow_mut().next_event();
            match next {
                Some(ev) => self.on_event(ev),
                None => break,
            }
        }
        self.d.borrow_mut().end_drain();
    }

    fn on_event(&self, ev: Event) {
        if self.chain && ev == Event::HeadsChanged {
            self.with_depth(|| self.enqueue(Event::CompositorShutdown));
        }
        self.seen.borrow_mut().push(ev);
    }

    fn teardown(&self) {
        self.d.borrow_mut().teardown();
    }
}

#[test]
fn events_drain_at_depth_zero_only() {
    let ctx = Ctx::new(false);
    ctx.with_depth(|| {
        ctx.enqueue(Event::HeadsChanged);
        ctx.with_depth(|| {
            ctx.enqueue(Event::CompositorShutdown);
            assert!(ctx.seen.borrow().is_empty());
        });
        assert!(ctx.seen.borrow().is_empty());
    });
    assert_eq!(
        *ctx.seen.borrow(),
        vec![Event::HeadsChanged, Event::CompositorShutdown]
    );
    ctx.teardown();
}

#[test]
fn events_enqueued_during_drain_run_in_same_drain() {
    let ctx = Ctx::new(true);
    ctx.with_depth(|| ctx.enqueue(Event::HeadsChanged));
    assert_eq!(
        *ctx.seen.borrow(),
        vec![Event::HeadsChanged, Event::CompositorShutdown]
    );
    ctx.teardown();
}

#[test]
fn teardown_discards_queued_events() {
    let ctx = Ctx::new(false);
    ctx.enqueue(Event::HeadsChanged);
    ctx.teardown();
    ctx.with_depth(|| {});
    assert!(ctx.seen.borrow().is_empty());
}

#[test]
fn dispatcher_reports_depth_and_pending() {
    let mut d: Dispatcher<u32> = Dispatcher::new();
    assert_eq!(d.depth(), 0);
    d.enter();
    d.enter();
    assert_eq!(d.depth(), 2);
    assert!(!d.leave());
    d.enqueue(7);
    d.enqueue(8);
    assert_eq!(d.pending(), 2);
    assert!(d.leave());
    assert_eq!(d.next_event(), Some(7));
    assert_eq!(d.next_event(), Some(8));
    assert_eq!(d.next_event(), None);
    d.enqueue(9);
    d.teardown();
    assert!(d.is_shutting_down());
    assert_eq!(d.pending(), 0);
    d.enqueue(10);
    assert_eq!(d.pending(), 0);
    assert_eq!(d.next_event(), None);
}

#[test]
fn leave_during_drain_does_not_ask_for_a_nested_drain() {
    let mut d: Dispatcher<u32> = Dispatcher::new();
    d.begin_drain();
    d.enter();
    assert!(!d.leave());
    d.end_drain();
    d.enter();
    assert!(d.leave());
}
