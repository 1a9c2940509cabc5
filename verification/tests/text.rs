use cursor_drop::text::{push_decimal, push_padded};

fn decimal(n: usize) -> String {
    let mut s = "x".to_string();
    push_decimal(&mut s, n);
    s
}

fn padded(n: usize, width: usize) -> String {
    let mut s = String::new();
    push_padded(&mut s, n, width);
    s
}

#[test]
fn decimals() {
    for n in [0, 9, 10, 99, 100, 65535, usize::MAX] {
        assert_eq!(decimal(n), format!("x{}", n));
    }
}

#[test]
fn padding() {
    for n in [0, 7, 10, 999, 12345, usize::MAX] {
        assert_eq!(padded(n, 4), format!("{:04}", n));
        assert_eq!(padded(n, 0), format!("{}", n));
    }
}
