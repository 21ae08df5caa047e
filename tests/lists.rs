use rxec::{
    place_for, value, Execution, ExecutionList, Place, Receiver, ReceiverList, Sender,
    SenderListTo, SenderTo, ZipOption,
};
use std::cell::RefCell;
use std::rc::Rc;

struct Collect<T>(Rc<RefCell<Vec<T>>>);

impl<T> Receiver<T> for Collect<T> {
    fn set(self, value: T) {
        self.0.borrow_mut().push(value);
    }
}

/// A sender whose connection always fails.
struct Refuse(&'static str);

#[derive(Debug, PartialEq)]
struct Refused(String);

impl From<&'static str> for Refused {
    fn from(s: &'static str) -> Refused {
        Refused(s.to_string())
    }
}

impl From<std::convert::Infallible> for Refused {
    fn from(e: std::convert::Infallible) -> Refused {
        match e {}
    }
}

impl Sender for Refuse {
    type Output = i32;
}

impl<R: Receiver<i32>> SenderTo<R> for Refuse {
    type Execution = ();
    type ConnectError = &'static str;

    fn connect(self, _receiver: R) -> Result<(), &'static str> {
        Err(self.0)
    }
}

#[test]
fn connect_list_runs_in_order() {
    let got = Rc::new(RefCell::new(Vec::new()));
    let senders = (value(1), (value(2), (value(3), ())));
    let receivers = (
        Collect(got.clone()),
        (Collect(got.clone()), (Collect(got.clone()), ())),
    );
    let ops = SenderListTo::<_, Refused>::connect_list(senders, receivers).unwrap();
    assert!(got.borrow().is_empty());
    ops.execute_list();
    assert_eq!(*got.borrow(), vec![1, 2, 3]);
}

#[test]
fn connect_list_stops_at_first_failure() {
    let got = Rc::new(RefCell::new(Vec::new()));
    let senders = (value(1), (Refuse("second"), (Refuse("third"), ())));
    let receivers = (
        Collect(got.clone()),
        (Collect(got.clone()), (Collect(got.clone()), ())),
    );
    let r = SenderListTo::<_, Refused>::connect_list(senders, receivers);
    assert_eq!(r.err(), Some(Refused(String::from("second"))));
    assert!(got.borrow().is_empty());
}

#[test]
fn unit_executes() {
    ().execute();
}

#[test]
fn zip_option_all_some() {
    let list = (Some(1), (Some('a'), (Some("x"), ())));
    assert_eq!(list.zip_option(), Some((1, ('a', ("x", ())))));
}

#[test]
fn zip_option_one_none() {
    let list = (Some(1), (None::<char>, (Some("x"), ())));
    assert_eq!(list.zip_option(), None);
    assert_eq!(().zip_option(), Some(()));
}

#[test]
fn receiver_list_consumes_tuple() {
    let got = Rc::new(RefCell::new(Vec::new()));
    (1, 'c', "123", Collect(got.clone())).consume();
    assert_eq!(*got.borrow(), vec![(1, 'c', "123")]);
    let unit = Rc::new(RefCell::new(Vec::new()));
    (Collect(unit.clone()),).consume();
    assert_eq!(*unit.borrow(), vec![()]);
}

#[test]
fn place_follows_arity() {
    assert_eq!(place_for(0), Place::Exclusive);
    assert_eq!(place_for(1), Place::Exclusive);
    assert_eq!(place_for(2), Place::Shared);
    assert_eq!(place_for(3), Place::Shared);
}
