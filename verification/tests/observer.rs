use std::cell::RefCell;
use std::rc::Rc;

use event_notify::Observer;
use event_notify::Subject;

struct TestObserver;
struct TestObserverTwo;

impl Observer for TestObserver {
    type Item = String;

    fn on_notify(&self, _data: Self::Item) {}
}
impl Observer for TestObserverTwo {
    type Item = String;

    fn on_notify(&self, _data: Self::Item) {}
}

/// One registry holds one observer type, so the two test observers are
/// attached through a common wrapper that forwards the notification.
enum EitherObserver {
    First(TestObserver),
    Second(TestObserverTwo),
}

impl Observer for EitherObserver {
    type Item = String;

    fn on_notify(&self, data: Self::Item) {
        match self {
            EitherObserver::First(o) => o.on_notify(data),
            EitherObserver::Second(o) => o.on_notify(data),
        }
    }
}

#[test]
fn can_add_and_remove_observer() {
    let mut subject: Subject<EitherObserver> = Subject::new();
    let observer = EitherObserver::First(TestObserver);
    let observer_two = EitherObserver::Second(TestObserverTwo);

    subject.attach(1, &observer);
    assert_eq!(subject.num_observers(), 1);
    subject.notify(&"String".to_string());
    subject.detach(1);
    subject.attach(2, &observer_two);
    assert_eq!(subject.num_observers(), 1);
}

/// Records every payload it receives.
struct Recorder {
    received: RefCell<Vec<String>>,
}

impl Recorder {
    fn new() -> Recorder {
        Recorder { received: RefCell::new(Vec::new()) }
    }
}

impl Observer for Recorder {
    type Item = String;

    fn on_notify(&self, data: Self::Item) {
        self.received.borrow_mut().push(data);
    }
}

#[test]
fn attach_then_notify_delivers_exactly_once() {
    let o1 = Recorder::new();
    let mut subject: Subject<Recorder> = Subject::new();
    subject.attach(1, &o1);
    subject.notify(&"hello".to_string());
    assert_eq!(*o1.received.borrow(), vec!["hello".to_string()]);
}

#[test]
fn detach_then_notify_delivers_nothing() {
    let o1 = Recorder::new();
    let mut subject: Subject<Recorder> = Subject::new();
    subject.attach(1, &o1);
    subject.detach(1);
    subject.notify(&"hello".to_string());
    assert_eq!(o1.received.borrow().len(), 0);
}

#[test]
fn duplicate_attach_delivers_twice_and_one_detach_removes_both() {
    let o1 = Recorder::new();
    let mut subject: Subject<Recorder> = Subject::new();
    subject.attach(1, &o1);
    subject.attach(1, &o1);
    assert_eq!(subject.num_observers(), 2);
    subject.notify(&"x".to_string());
    assert_eq!(*o1.received.borrow(), vec!["x".to_string(), "x".to_string()]);
    subject.detach(1);
    assert_eq!(subject.num_observers(), 0);
}

#[test]
fn num_observers_tracks_any_interleaving() {
    let o1 = Recorder::new();
    let o2 = Recorder::new();
    let mut subject: Subject<Recorder> = Subject::new();
    assert_eq!(subject.num_observers(), 0);
    subject.attach(1, &o1);
    assert_eq!(subject.num_observers(), 1);
    subject.attach(2, &o2);
    assert_eq!(subject.num_observers(), 2);
    subject.attach(1, &o1);
    assert_eq!(subject.num_observers(), 3);
    subject.detach(1);
    assert_eq!(subject.num_observers(), 1);
    subject.detach(7);
    assert_eq!(subject.num_observers(), 1);
    subject.detach(2);
    assert_eq!(subject.num_observers(), 0);
}

/// Appends its tag to a log shared between observers.
struct TaggedObserver {
    tag: u64,
    log: Rc<RefCell<Vec<u64>>>,
}

impl Observer for TaggedObserver {
    type Item = u64;

    fn on_notify(&self, _data: Self::Item) {
        self.log.borrow_mut().push(self.tag);
    }
}

#[test]
fn notify_invokes_in_attachment_order() {
    let log: Rc<RefCell<Vec<u64>>> = Rc::new(RefCell::new(Vec::new()));
    let o1 = TaggedObserver { tag: 10, log: Rc::clone(&log) };
    let o2 = TaggedObserver { tag: 20, log: Rc::clone(&log) };
    let o3 = TaggedObserver { tag: 30, log: Rc::clone(&log) };
    let mut subject: Subject<TaggedObserver> = Subject::new();
    subject.attach(1, &o1);
    subject.attach(2, &o2);
    subject.attach(3, &o3);
    subject.detach(2);
    subject.notify(&0);
    assert_eq!(*log.borrow(), vec![10, 30]);
}
