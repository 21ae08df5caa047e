use rxec::{
    and_then, bind, eager, sched_on, transfer, value, Execution, Receiver, Scheduler, SenderTo,
    Value,
};
use std::cell::RefCell;
use std::rc::Rc;

struct Collect<T>(Rc<RefCell<Vec<T>>>);

impl<T> Receiver<T> for Collect<T> {
    fn set(self, value: T) {
        self.0.borrow_mut().push(value);
    }
}

fn sink<T>() -> (Rc<RefCell<Vec<T>>>, Collect<T>) {
    let got = Rc::new(RefCell::new(Vec::new()));
    let recv = Collect(got.clone());
    (got, recv)
}

/// A scheduler that lets work go on at once, on the calling thread.
#[derive(Clone, Copy)]
struct Inline;

impl Scheduler for Inline {
    type Sender = Value<()>;

    fn schedule(self) -> Value<()> {
        value(())
    }
}

#[test]
fn value_delivers_once() {
    let (got, recv) = sink();
    let op = value(5).connect(recv).unwrap();
    assert!(got.borrow().is_empty());
    op.execute();
    assert_eq!(*got.borrow(), vec![5]);
}

#[test]
fn connect_runs_nothing() {
    let (got, recv) = sink();
    let op = and_then(value(1), |x: i32| value(x + 1)).connect(recv).unwrap();
    assert!(got.borrow().is_empty());
    drop(op);
    assert!(got.borrow().is_empty());
}

#[test]
fn and_then_map_value_delivers_twelve() {
    let (got, recv) = sink();
    let s = and_then(rxec::sender::map::map(value(5), |x: i32| x + 1), |x: i32| value(x * 2));
    let op = s.connect(recv).unwrap();
    op.execute();
    assert_eq!(*got.borrow(), vec![12]);
}

#[test]
fn map_applies_function() {
    let (got, recv) = sink();
    rxec::sender::map::map(value(String::from("ab")), |s: String| s.len()).connect(recv).unwrap().execute();
    assert_eq!(*got.borrow(), vec![2]);
}

#[test]
fn bind_chains_two_senders() {
    let (got, recv) = sink();
    let s = bind(value(3), |x: i32| rxec::sender::map::map(value(x), |y: i32| y * 10));
    s.connect(recv).unwrap().execute();
    assert_eq!(*got.borrow(), vec![30]);
}

#[test]
fn eager_runs_at_connect() {
    let (got, recv) = sink();
    let op = eager(value(7)).connect(recv).unwrap();
    assert_eq!(*got.borrow(), vec![7]);
    op.execute();
    assert_eq!(*got.borrow(), vec![7]);
}

#[test]
fn sched_on_delivers_inner_output() {
    let (got, recv) = sink();
    sched_on(rxec::sender::map::map(value(4), |x: i32| x - 1), Inline).connect(recv).unwrap().execute();
    assert_eq!(*got.borrow(), vec![3]);
}

#[test]
fn transfer_delivers_inner_output() {
    let (got, recv) = sink();
    transfer(value('z'), Inline).connect(recv).unwrap().execute();
    assert_eq!(*got.borrow(), vec!['z']);
}

#[test]
fn closure_receives_value() {
    let got = Rc::new(RefCell::new(Vec::new()));
    let log = got.clone();
    value(9).connect(move |v: i32| log.borrow_mut().push(v)).unwrap().execute();
    assert_eq!(*got.borrow(), vec![9]);
}

#[test]
fn vec_of_operations_runs_in_order() {
    let (got, _) = sink::<i32>();
    let ops: Vec<_> = (1..=3)
        .map(|i| {
            let log = got.clone();
            value(i).connect(Collect(log)).unwrap()
        })
        .collect();
    ops.execute();
    assert_eq!(*got.borrow(), vec![1, 2, 3]);
}

#[test]
fn closure_runs_as_operation() {
    let got = Rc::new(RefCell::new(Vec::new()));
    let log = got.clone();
    (move || log.borrow_mut().push(1)).execute();
    assert_eq!(*got.borrow(), vec![1]);
}
