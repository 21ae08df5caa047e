use rxec::{BasicOperation, Receiver, Sum};
use std::sync::atomic::{AtomicUsize, Ordering};
use std::sync::{Arc, Mutex};

struct Count(Arc<AtomicUsize>, Arc<Mutex<Vec<Vec<u32>>>>);

impl Receiver<Vec<u32>> for Count {
    fn set(self, value: Vec<u32>) {
        self.0.fetch_add(1, Ordering::SeqCst);
        self.1.lock().unwrap().push(value);
    }
}

fn keep(values: Vec<u32>) -> Vec<u32> {
    values
}

fn orders(n: usize) -> Vec<Vec<usize>> {
    if n == 0 {
        return vec![vec![]];
    }
    let mut all = Vec::new();
    for smaller in orders(n - 1) {
        for at in 0..=smaller.len() {
            let mut o = smaller.clone();
            o.insert(at, n - 1);
            all.push(o);
        }
    }
    all
}

type Shared = Arc<Mutex<BasicOperation<u32, Vec<u32>, fn(Vec<u32>) -> Vec<u32>, Count, ()>>>;

fn shared_op(n: usize, fired: &Arc<AtomicUsize>, got: &Arc<Mutex<Vec<Vec<u32>>>>) -> Shared {
    let connect = |_: usize| -> Result<(), ()> { Ok(()) };
    let rule = keep as fn(Vec<u32>) -> Vec<u32>;
    match BasicOperation::new(n, rule, Count(fired.clone(), got.clone()), &connect) {
        Ok(op) => Arc::new(Mutex::new(op)),
        Err(_) => panic!("connect failed"),
    }
}

#[test]
fn shared_place_fires_once_in_every_completion_order() {
    for n in 2..=4usize {
        for order in orders(n) {
            let fired = Arc::new(AtomicUsize::new(0));
            let got = Arc::new(Mutex::new(Vec::new()));
            let shared = shared_op(n, &fired, &got);
            shared.lock().unwrap().start();
            // Each branch completes through a handle of its own, as branches
            // on different threads would.
            let handles: Vec<Shared> = (0..n).map(|_| shared.clone()).collect();
            let mut fired_by = Vec::new();
            for &index in &order {
                let value = 100 + index as u32;
                fired_by.push(handles[index].lock().unwrap().complete(Sum { index, value }));
            }
            let last = fired_by.pop().unwrap();
            assert!(last);
            assert!(fired_by.iter().all(|f| !f));
            assert_eq!(fired.load(Ordering::SeqCst), 1);
            let expected: Vec<u32> = (0..n as u32).map(|i| 100 + i).collect();
            assert_eq!(*got.lock().unwrap(), vec![expected]);
        }
    }
}
