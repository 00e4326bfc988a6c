use mediator::{Builder, Error, HandlerRegistry, Mediator, Subscriber, SubscriberRegistry, TypeKey};
use std::cell::{Cell, OnceCell, RefCell};
use std::rc::Rc;

#[derive(Clone, Debug, PartialEq)]
enum Op {
    Add(f64, f64),
    Sub(f64, f64),
    Div(f64, f64),
}

#[derive(Clone, Debug, PartialEq)]
struct MathEvent(Op, Option<f64>);

type MathHandler = Box<dyn Fn(Op) -> Result<Option<f64>, Error>>;
type Counter = Rc<Cell<u64>>;
type EventCallback = Box<dyn Fn(&MathEvent) -> Result<(), Error>>;
type EventCallbackWith = Box<dyn Fn(&MathEvent, &Counter) -> Result<(), Error>>;
type MathSubscriber = Subscriber<EventCallback, Counter, EventCallbackWith>;
type MathMediator = Mediator<MathHandler, MathSubscriber>;
type Handle = Rc<OnceCell<MathMediator>>;
type Factory = Box<dyn Fn(&Handle) -> MathHandler>;

const MATH_RESPONSE: u64 = 100;

fn add_key() -> TypeKey {
    TypeKey::request(1, MATH_RESPONSE)
}

fn sub_key() -> TypeKey {
    TypeKey::request(2, MATH_RESPONSE)
}

fn div_key() -> TypeKey {
    TypeKey::request(4, MATH_RESPONSE)
}

fn event_key() -> TypeKey {
    TypeKey::event(7)
}

fn compute(op: Op) -> Option<f64> {
    match op {
        Op::Add(a, b) => Some(a + b),
        Op::Sub(a, b) => Some(a - b),
        Op::Div(a, b) => {
            if b == 0.0 {
                None
            } else {
                Some(a / b)
            }
        }
    }
}

fn builder() -> Builder<MathHandler, Factory, MathSubscriber> {
    MathMediator::builder::<Factory>()
}

fn build(b: Builder<MathHandler, Factory, MathSubscriber>) -> Handle {
    let handle: Handle = Rc::new(OnceCell::new());
    let m = b.build(&handle);
    assert!(handle.set(m).is_ok());
    handle
}

fn calculator() -> MathHandler {
    Box::new(|req: Op| Ok(compute(req)))
}

fn logger(log: &Rc<RefCell<Vec<String>>>, name: &str) -> EventCallback {
    let log = log.clone();
    let name = name.to_string();
    Box::new(move |_e: &MathEvent| {
        log.borrow_mut().push(name.clone());
        Ok(())
    })
}

#[test]
fn add_is_sent_to_its_handler_and_div_has_none() {
    let handle = build(builder().add_handler(add_key(), calculator()));
    let m = handle.get().unwrap();
    assert_eq!(m.send(add_key(), Op::Add(2.0, 3.0)), Ok(Some(5.0)));
    assert_eq!(m.send(div_key(), Op::Div(1.0, 0.0)), Err(Error::HandlerNotFound));
}

#[test]
fn div_by_zero_is_an_answer_not_a_missing_handler() {
    let handle = build(
        builder()
            .add_handler(add_key(), calculator())
            .add_handler(div_key(), calculator()),
    );
    let m = handle.get().unwrap();
    assert_eq!(m.send(div_key(), Op::Div(1.0, 0.0)), Ok(None));
    assert_eq!(m.send(div_key(), Op::Div(6.0, 3.0)), Ok(Some(2.0)));
}

#[test]
fn send_returns_the_handler_output_unchanged() {
    let handler: MathHandler = Box::new(|_req: Op| Ok(Some(41.5)));
    let handle = build(builder().add_handler(sub_key(), handler));
    let m = handle.get().unwrap();
    assert_eq!(m.send(sub_key(), Op::Sub(9.0, 1.0)), Ok(Some(41.5)));
}

#[test]
fn handler_failure_reaches_the_caller() {
    let handler: MathHandler = Box::new(|_req: Op| Err(Error::HandlerFailure));
    let handle = build(builder().add_handler(sub_key(), handler));
    let m = handle.get().unwrap();
    assert_eq!(m.send(sub_key(), Op::Sub(9.0, 1.0)), Err(Error::HandlerFailure));
}

#[test]
fn unregistered_request_type_is_handler_not_found() {
    let handle = build(builder());
    let m = handle.get().unwrap();
    assert_eq!(m.send(add_key(), Op::Add(1.0, 1.0)), Err(Error::HandlerNotFound));
    // the same message read with another response type is another key
    let handle = build(builder().add_handler(add_key(), calculator()));
    let m = handle.get().unwrap();
    assert_eq!(m.send(TypeKey::request(1, MATH_RESPONSE + 1), Op::Add(1.0, 1.0)), Err(Error::HandlerNotFound));
}

#[test]
fn publish_without_subscribers_succeeds_and_calls_nothing() {
    let log = Rc::new(RefCell::new(Vec::new()));
    let handle = build(builder().subscribe_fn(TypeKey::event(8), logger(&log, "other")));
    let m = handle.get().unwrap();
    assert_eq!(m.publish(event_key(), &MathEvent(Op::Add(1.0, 2.0), Some(3.0))), Ok(()));
    assert!(log.borrow().is_empty());
}

#[test]
fn subscribers_run_in_registration_order() {
    let log = Rc::new(RefCell::new(Vec::new()));
    let seen = Rc::new(Cell::new(0u64));
    let witness = seen.clone();
    let check: EventCallback = Box::new(move |_e: &MathEvent| {
        // the counter subscriber registered before this one already ran
        assert_eq!(witness.get(), 1);
        Ok(())
    });
    let count: EventCallbackWith = Box::new(|_e: &MathEvent, c: &Counter| {
        c.set(c.get() + 1);
        Ok(())
    });
    let handle = build(
        builder()
            .subscribe_fn(event_key(), logger(&log, "first"))
            .subscribe_fn_with(event_key(), seen.clone(), count)
            .subscribe_fn(event_key(), logger(&log, "third"))
            .subscribe_fn(event_key(), check)
            .subscribe_fn(event_key(), logger(&log, "fifth")),
    );
    let m = handle.get().unwrap();
    assert_eq!(m.publish(event_key(), &MathEvent(Op::Add(1.0, 2.0), Some(3.0))), Ok(()));
    assert_eq!(*log.borrow(), vec!["first".to_string(), "third".to_string(), "fifth".to_string()]);
    assert_eq!(seen.get(), 1);
}

#[test]
fn failing_subscriber_stops_the_rest() {
    let log = Rc::new(RefCell::new(Vec::new()));
    let fail: EventCallback = Box::new(|_e: &MathEvent| Err(Error::SubscriberFailure));
    let handle = build(
        builder()
            .subscribe_fn(event_key(), logger(&log, "before"))
            .subscribe_fn(event_key(), fail)
            .subscribe_fn(event_key(), logger(&log, "after")),
    );
    let m = handle.get().unwrap();
    assert_eq!(m.publish(event_key(), &MathEvent(Op::Sub(1.0, 2.0), Some(-1.0))), Err(Error::SubscriberFailure));
    assert_eq!(*log.borrow(), vec!["before".to_string()]);
}

#[test]
fn counter_with_context_counts_three_events() {
    let total: Counter = Rc::new(Cell::new(0));
    let count: EventCallbackWith = Box::new(|_e: &MathEvent, c: &Counter| {
        c.set(c.get() + 1);
        Ok(())
    });
    let handle = build(builder().subscribe_fn_with(event_key(), total.clone(), count));
    let m = handle.get().unwrap();
    assert_eq!(m.publish(event_key(), &MathEvent(Op::Add(1.0, 2.0), Some(3.0))), Ok(()));
    assert_eq!(m.publish(event_key(), &MathEvent(Op::Sub(5.0, 2.0), Some(3.0))), Ok(()));
    assert_eq!(m.publish(event_key(), &MathEvent(Op::Div(1.0, 0.0), None)), Ok(()));
    assert_eq!(total.get(), 3);
}

#[test]
fn deferred_handler_publishes_through_its_own_mediator() {
    let events: Rc<RefCell<Vec<MathEvent>>> = Rc::new(RefCell::new(Vec::new()));
    let total: Counter = Rc::new(Cell::new(0));
    let factory: Factory = Box::new(|h: &Handle| {
        let h = h.clone();
        Box::new(move |req: Op| {
            let result = compute(req.clone());
            let m = h.get().expect("mediator is built");
            m.publish(event_key(), &MathEvent(req, result))?;
            Ok(result)
        })
    });
    let sink = events.clone();
    let record: EventCallback = Box::new(move |e: &MathEvent| {
        sink.borrow_mut().push(e.clone());
        Ok(())
    });
    let count: EventCallbackWith = Box::new(|_e: &MathEvent, c: &Counter| {
        c.set(c.get() + 1);
        Ok(())
    });
    let handle = build(
        builder()
            .add_handler_deferred(add_key(), factory)
            .subscribe_fn(event_key(), record)
            .subscribe_fn_with(event_key(), total.clone(), count),
    );
    let m = handle.get().unwrap();
    assert_eq!(m.send(add_key(), Op::Add(2.0, 3.0)), Ok(Some(5.0)));
    assert_eq!(*events.borrow(), vec![MathEvent(Op::Add(2.0, 3.0), Some(5.0))]);
    assert_eq!(total.get(), 1);
}

#[test]
fn second_handler_for_a_type_replaces_the_first() {
    let first: MathHandler = Box::new(|_req: Op| Ok(Some(1.0)));
    let second: MathHandler = Box::new(|_req: Op| Ok(Some(2.0)));
    let handle = build(
        builder()
            .add_handler(add_key(), first)
            .add_handler(add_key(), second)
            .add_handler(sub_key(), calculator()),
    );
    let m = handle.get().unwrap();
    assert_eq!(m.send(add_key(), Op::Add(2.0, 3.0)), Ok(Some(2.0)));
    assert_eq!(m.send(sub_key(), Op::Sub(2.0, 3.0)), Ok(Some(-1.0)));
}

#[test]
fn deferred_registration_after_a_ready_one_wins() {
    let first: MathHandler = Box::new(|_req: Op| Ok(Some(1.0)));
    let factory: Factory = Box::new(|_h: &Handle| Box::new(|_req: Op| Ok(Some(7.0))));
    let handle = build(builder().add_handler(add_key(), first).add_handler_deferred(add_key(), factory));
    let m = handle.get().unwrap();
    assert_eq!(m.send(add_key(), Op::Add(2.0, 3.0)), Ok(Some(7.0)));
}

#[test]
fn ready_registration_after_a_deferred_one_wins() {
    let factory: Factory = Box::new(|_h: &Handle| Box::new(|_req: Op| Ok(Some(7.0))));
    let last: MathHandler = Box::new(|_req: Op| Ok(Some(1.0)));
    let handle = build(builder().add_handler_deferred(add_key(), factory).add_handler(add_key(), last));
    let m = handle.get().unwrap();
    assert_eq!(m.send(add_key(), Op::Add(2.0, 3.0)), Ok(Some(1.0)));
}

#[test]
fn handler_registry_replaces_and_looks_up() {
    let mut r: HandlerRegistry<&str> = HandlerRegistry::new();
    assert_eq!(r.lookup_handler(add_key()), None);
    r.register_handler(add_key(), "a");
    r.register_handler(sub_key(), "s");
    r.register_handler(add_key(), "b");
    assert_eq!(r.lookup_handler(add_key()), Some(&"b"));
    assert_eq!(r.lookup_handler(sub_key()), Some(&"s"));
    assert_eq!(r.lookup_handler(div_key()), None);
}

#[test]
fn subscriber_registry_keeps_order_per_key() {
    let mut r: SubscriberRegistry<u32> = SubscriberRegistry::new();
    assert!(r.lookup_subscribers(event_key()).is_empty());
    r.register_subscriber(event_key(), 1);
    r.register_subscriber(TypeKey::event(8), 2);
    r.register_subscriber(event_key(), 3);
    r.register_subscriber(event_key(), 1);
    assert_eq!(r.lookup_subscribers(event_key()), vec![&1, &3, &1]);
    assert_eq!(r.lookup_subscribers(TypeKey::event(8)), vec![&2]);
    assert!(r.lookup_subscribers(TypeKey::event(9)).is_empty());
}

#[test]
fn type_keys_tell_request_and_response_apart() {
    let k = TypeKey::request(3, 4);
    assert_eq!(k.message, 3);
    assert_eq!(k.response, Some(4));
    assert_eq!(k, TypeKey::request(3, 4));
    assert_ne!(k, TypeKey::request(3, 5));
    assert_ne!(k, TypeKey::request(4, 4));
    assert_ne!(TypeKey::event(3), TypeKey::request(3, 0));
    assert_eq!(TypeKey::event(3).response, None);
}

#[test]
fn subscriber_notify_passes_context() {
    let count: EventCallbackWith = Box::new(|_e: &MathEvent, c: &Counter| {
        c.set(c.get() + 10);
        Ok(())
    });
    let total: Counter = Rc::new(Cell::new(5));
    let s: MathSubscriber = Subscriber::WithContext(total.clone(), count);
    assert_eq!(s.notify(&MathEvent(Op::Add(0.0, 0.0), Some(0.0))), Ok(()));
    assert_eq!(total.get(), 15);
}
