use ferric_continuum::hello_lib::{fibonacci, generate_greeting, is_prime, primes_up_to};

#[test]
fn test_generate_greeting() {
    assert_eq!(
        generate_greeting("World"),
        "Hello, World! Welcome to Ferric Continuum (Rust Edition)"
    );
    assert_eq!(
        generate_greeting("Ferric"),
        "Hello, Ferric! Welcome to Ferric Continuum (Rust Edition)"
    );
}

#[test]
fn test_fibonacci() {
    assert_eq!(fibonacci(0), 0);
    assert_eq!(fibonacci(1), 1);
    assert_eq!(fibonacci(2), 1);
    assert_eq!(fibonacci(3), 2);
    assert_eq!(fibonacci(4), 3);
    assert_eq!(fibonacci(5), 5);
    assert_eq!(fibonacci(10), 55);
    assert_eq!(fibonacci(20), 6765);
}

#[test]
fn test_is_prime() {
    assert!(!is_prime(0));
    assert!(!is_prime(1));
    assert!(is_prime(2));
    assert!(is_prime(3));
    assert!(!is_prime(4));
    assert!(is_prime(5));
    assert!(!is_prime(9));
    assert!(is_prime(97));
    assert!(!is_prime(100));
}

#[test]
fn test_primes_up_to() {
    let primes = primes_up_to(20);
    let expected = vec![2, 3, 5, 7, 11, 13, 17, 19];
    assert_eq!(primes, expected);
}

#[test]
fn greeting_of_empty_name() {
    assert_eq!(
        generate_greeting(""),
        "Hello, ! Welcome to Ferric Continuum (Rust Edition)"
    );
}

#[test]
fn greeting_keeps_non_ascii_names() {
    assert_eq!(
        generate_greeting("Zoë"),
        "Hello, Zoë! Welcome to Ferric Continuum (Rust Edition)"
    );
}

#[test]
fn fibonacci_largest_that_fits() {
    assert_eq!(fibonacci(92), 7540113804746346429);
    assert_eq!(fibonacci(93), 12200160415121876738);
}

#[test]
fn fibonacci_is_sum_of_two_before() {
    for n in 2..=93u32 {
        assert_eq!(fibonacci(n), fibonacci(n - 1) + fibonacci(n - 2));
    }
}

#[test]
fn is_prime_on_squares_of_primes() {
    assert!(!is_prime(25));
    assert!(!is_prime(49));
    assert!(!is_prime(121));
    assert!(!is_prime(10_007 * 10_007));
}

#[test]
fn is_prime_on_large_values() {
    assert!(is_prime(2_147_483_647));
    assert!(!is_prime(2_147_483_649));
    assert!(is_prime(4_294_967_291));
    assert!(!is_prime(4_294_967_295));
}

#[test]
fn is_prime_agrees_with_trial_division() {
    for n in 0..2_000u64 {
        let expected = n >= 2 && (2..n).all(|d| n % d != 0);
        assert_eq!(is_prime(n), expected);
    }
}

#[test]
fn primes_up_to_small_limits() {
    assert_eq!(primes_up_to(0), Vec::<u64>::new());
    assert_eq!(primes_up_to(1), Vec::<u64>::new());
    assert_eq!(primes_up_to(2), vec![2]);
    assert_eq!(primes_up_to(3), vec![2, 3]);
    assert_eq!(primes_up_to(50).len(), 15);
}

#[test]
fn primes_up_to_includes_a_prime_limit() {
    let primes = primes_up_to(97);
    assert_eq!(primes.last(), Some(&97));
    assert_eq!(primes.len(), 25);
}
