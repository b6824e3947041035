use hellors::{empty_instruction, fibonacci, fibonacci_cache};

#[test]
fn fibonacci_small_values() {
    assert_eq!(fibonacci(0), 1);
    assert_eq!(fibonacci(1), 1);
    assert_eq!(fibonacci(2), 2);
    assert_eq!(fibonacci(3), 3);
    assert_eq!(fibonacci(4), 5);
    assert_eq!(fibonacci(10), 89);
}

#[test]
fn fibonacci_forty() {
    assert_eq!(fibonacci(40), 165580141);
}

#[test]
fn fibonacci_cache_matches_fibonacci() {
    for n in 0..=30u64 {
        assert_eq!(fibonacci_cache(n), fibonacci(n));
    }
}

#[test]
fn empty_instruction_does_nothing() {
    empty_instruction();
}
