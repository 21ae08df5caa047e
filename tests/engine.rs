use rxec::{BasicOperation, Branch, Place, Receiver, Sum};
use std::cell::{Cell, RefCell};
use std::rc::Rc;

struct Collect<T>(Rc<RefCell<Vec<T>>>);

impl<T> Receiver<T> for Collect<T> {
    fn set(self, value: T) {
        self.0.borrow_mut().push(value);
    }
}

/// A receiver that counts how often it is dropped.
struct Counted(Rc<Cell<usize>>, Rc<RefCell<Vec<i64>>>);

impl Receiver<i64> for Counted {
    fn set(self, value: i64) {
        self.1.borrow_mut().push(value);
    }
}

impl Drop for Counted {
    fn drop(&mut self) {
        self.0.set(self.0.get() + 1);
    }
}

fn sum_rule(vs: Vec<i64>) -> i64 {
    vs.iter().sum()
}

type Op<F, R> = BasicOperation<i64, i64, F, R, ()>;

fn build<R: Receiver<i64>>(n: usize, receiver: R) -> Op<fn(Vec<i64>) -> i64, R> {
    let connect = |_: usize| -> Result<(), ()> { Ok(()) };
    match BasicOperation::new(n, sum_rule as fn(Vec<i64>) -> i64, receiver, &connect) {
        Ok(op) => op,
        Err(_) => panic!("connect failed"),
    }
}

#[test]
fn arity_zero_delivers_at_start() {
    let got = Rc::new(RefCell::new(Vec::new()));
    let mut op = build(0, Collect(got.clone()));
    assert!(got.borrow().is_empty());
    assert!(op.start());
    assert_eq!(*got.borrow(), vec![0]);
}

#[test]
fn arity_one_delivers_on_its_completion() {
    let got = Rc::new(RefCell::new(Vec::new()));
    let mut op = build(1, Collect(got.clone()));
    assert!(!op.start());
    assert!(got.borrow().is_empty());
    assert!(op.complete(Sum { index: 0, value: 41 }));
    assert_eq!(*got.borrow(), vec![41]);
}

#[test]
fn arity_two_fires_once_in_either_order() {
    for order in [[0usize, 1], [1, 0]] {
        let got = Rc::new(RefCell::new(Vec::new()));
        let mut op = build(2, Collect(got.clone()));
        op.start();
        assert!(!op.complete(Sum { index: order[0], value: 10 * (order[0] as i64 + 1) }));
        assert!(got.borrow().is_empty());
        assert!(op.complete(Sum { index: order[1], value: 10 * (order[1] as i64 + 1) }));
        assert_eq!(*got.borrow(), vec![30]);
    }
}

#[test]
fn arity_three_gathers_in_branch_order() {
    let got = Rc::new(RefCell::new(Vec::new()));
    let concat = |vs: Vec<String>| vs.join(",");
    let connect = |_: usize| -> Result<(), ()> { Ok(()) };
    let mut op: BasicOperation<String, String, _, _, ()> =
        match BasicOperation::new(3, concat, Collect(got.clone()), &connect) {
            Ok(op) => op,
            Err(_) => panic!("connect failed"),
        };
    op.start();
    assert!(!op.complete(Sum { index: 2, value: String::from("c") }));
    assert!(!op.complete(Sum { index: 0, value: String::from("a") }));
    assert!(op.complete(Sum { index: 1, value: String::from("b") }));
    assert_eq!(*got.borrow(), vec![String::from("a,b,c")]);
}

#[test]
fn connect_failure_stops_at_first_error() {
    let calls = Rc::new(RefCell::new(Vec::new()));
    let dropped = Rc::new(Cell::new(0));
    let got = Rc::new(RefCell::new(Vec::new()));
    let log = calls.clone();
    let connect = move |i: usize| -> Result<(), String> {
        log.borrow_mut().push(i);
        if i == 1 {
            Err(format!("branch {i} refused"))
        } else {
            Ok(())
        }
    };
    let r: Result<Op<_, _>, String> =
        BasicOperation::new(3, sum_rule, Counted(dropped.clone(), got.clone()), &connect);
    match r {
        Ok(_) => panic!("connect should fail"),
        Err(e) => assert_eq!(e, "branch 1 refused"),
    }
    assert_eq!(*calls.borrow(), vec![0, 1]);
    assert_eq!(dropped.get(), 1);
    assert!(got.borrow().is_empty());
}

#[test]
fn cancel_before_start_stops_every_branch() {
    let dropped = Rc::new(Cell::new(0));
    let got = Rc::new(RefCell::new(Vec::new()));
    let op = build(3, Counted(dropped.clone(), got.clone()));
    assert_eq!(op.cancel(), vec![0, 1, 2]);
    assert_eq!(dropped.get(), 1);
    assert!(got.borrow().is_empty());
}

#[test]
fn cancel_midway_stops_only_outstanding_branches() {
    let dropped = Rc::new(Cell::new(0));
    let got = Rc::new(RefCell::new(Vec::new()));
    let mut op = build(3, Counted(dropped.clone(), got.clone()));
    op.start();
    op.complete(Sum { index: 1, value: 5 });
    assert_eq!(dropped.get(), 0);
    assert_eq!(op.cancel(), vec![0, 2]);
    assert_eq!(dropped.get(), 1);
    assert!(got.borrow().is_empty());
}

#[test]
fn cancel_after_delivery_stops_nothing() {
    let dropped = Rc::new(Cell::new(0));
    let got = Rc::new(RefCell::new(Vec::new()));
    let mut op = build(2, Counted(dropped.clone(), got.clone()));
    op.start();
    op.complete(Sum { index: 0, value: 1 });
    op.complete(Sum { index: 1, value: 2 });
    assert_eq!(dropped.get(), 1);
    assert_eq!(*got.borrow(), vec![3]);
    assert_eq!(op.cancel(), Vec::<usize>::new());
    assert_eq!(dropped.get(), 1);
}

#[test]
fn branch_status_is_comparable() {
    assert!(Branch::Running != Branch::Completed);
    assert!(Branch::Connected == Branch::Connected);
}

#[test]
fn place_of_composite_follows_arity() {
    let got = Rc::new(RefCell::new(Vec::new()));
    assert_eq!(build(1, Collect(got.clone())).place(), Place::Exclusive);
    assert_eq!(build(2, Collect(got.clone())).place(), Place::Shared);
    let op = build(3, Collect(got.clone()));
    assert_eq!(op.len(), 3);
    assert_eq!(op.branch(0), Branch::Connected);
    assert!(!op.is_started());
}
