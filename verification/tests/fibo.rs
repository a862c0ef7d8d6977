use vm::fibo::fibo;

#[test]
fn small_values() {
    assert_eq!(fibo(0), Some(0));
    assert_eq!(fibo(1), Some(1));
    assert_eq!(fibo(2), Some(1));
    assert_eq!(fibo(3), Some(2));
    assert_eq!(fibo(10), Some(55));
    assert_eq!(fibo(20), Some(6765));
}

#[test]
fn largest_value_that_fits() {
    assert_eq!(fibo(47), Some(2_971_215_073));
}

#[test]
fn overflow_is_detected() {
    assert_eq!(fibo(48), None);
    assert_eq!(fibo(100), None);
}
