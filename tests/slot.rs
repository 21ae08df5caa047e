use rxec::CountDownSlot;

#[test]
fn last_of_three_claims_takes_value() {
    let mut slot = CountDownSlot::new(3, String::from("v"));
    assert_eq!(slot.take(), None);
    assert_eq!(slot.take(), None);
    assert_eq!(slot.take(), Some(String::from("v")));
}

#[test]
fn single_claim_takes_value() {
    let mut slot = CountDownSlot::new(1, 42u8);
    assert_eq!(slot.take(), Some(42));
    assert_eq!(slot.take(), None);
}

#[test]
fn exactly_one_of_n_claims_yields() {
    for n in 1..=8usize {
        let mut slot = CountDownSlot::new(n, n);
        let results: Vec<Option<usize>> = (0..n).map(|_| slot.take()).collect();
        assert_eq!(results.iter().filter(|r| r.is_some()).count(), 1);
        assert_eq!(results[n - 1], Some(n));
    }
}

#[test]
fn zero_count_never_yields() {
    let mut slot = CountDownSlot::new(0, 1i32);
    assert_eq!(slot.take(), None);
    assert_eq!(slot.take(), None);
}
