use app_core::utils;

#[test]
fn test_factorial() {
    assert_eq!(utils::factorial(0), 1);
    assert_eq!(utils::factorial(1), 1);
    assert_eq!(utils::factorial(5), 120);
    assert_eq!(utils::factorial(10), 3628800);
}

#[test]
fn test_factorial_matches_running_product() {
    let mut product: u64 = 1;
    assert_eq!(utils::factorial(0), product);
    for n in 1..=20u64 {
        product *= n;
        assert_eq!(utils::factorial(n), product);
    }
}

#[test]
fn test_is_prime() {
    assert!(!utils::is_prime(0));
    assert!(!utils::is_prime(1));
    assert!(utils::is_prime(2));
    assert!(utils::is_prime(3));
    assert!(!utils::is_prime(4));
    assert!(utils::is_prime(5));
    assert!(!utils::is_prime(6));
    assert!(utils::is_prime(7));
    assert!(utils::is_prime(17));
    assert!(!utils::is_prime(25));
}

#[test]
fn test_is_prime_against_sieve_below_1000() {
    let limit: usize = 1000;
    let mut composite = vec![false; limit];
    composite[0] = true;
    composite[1] = true;
    for i in 2..limit {
        if !composite[i] {
            let mut j = i * i;
            while j < limit {
                composite[j] = true;
                j += i;
            }
        }
    }
    for n in 0..limit {
        assert_eq!(utils::is_prime(n as u64), !composite[n], "disagreement at {}", n);
    }
}

#[test]
fn test_to_uppercase() {
    assert_eq!(utils::to_uppercase("hello"), "HELLO");
    assert_eq!(utils::to_uppercase("WORLD"), "WORLD");
    assert_eq!(utils::to_uppercase(""), "");
    assert_eq!(utils::to_uppercase("Hello World"), "HELLO WORLD");
}

#[test]
fn test_to_uppercase_idempotent() {
    for s in ["hello", "Hello World", "", "mIxEd 123 !?", "ümlaut ß straße"] {
        let once = utils::to_uppercase(s);
        let twice = utils::to_uppercase(&once);
        assert_eq!(once, twice);
    }
}

#[test]
fn test_add() {
    assert_eq!(utils::add(2, 3), 5);
    assert_eq!(utils::add(-1, 1), 0);
    assert_eq!(utils::add(0, 0), 0);
}

#[test]
fn test_greet() {
    assert_eq!(utils::greet("World"), "Hello, World!");
    assert_eq!(utils::greet("Rust"), "Hello, Rust!");
    assert_eq!(utils::greet(""), "Hello, !");
}

#[test]
fn test_parse_json() {
    let valid_json = r#"{"name": "test", "value": 42}"#;
    let result = utils::parse_json(valid_json);
    assert!(result.is_ok());

    let parsed = result.unwrap();
    assert_eq!(parsed["name"], "test");
    assert_eq!(parsed["value"], 42);

    let invalid_json = r#"{"name": "test", "value": 42"#;
    let result = utils::parse_json(invalid_json);
    assert!(result.is_err());
}

#[test]
fn test_library_integration() {
    assert_eq!(utils::factorial(5), 120);
    assert!(utils::is_prime(17));
    assert_eq!(utils::to_uppercase("hello"), "HELLO");
}
