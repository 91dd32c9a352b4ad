use product_catalog::domain::{DomainError, Money, ProductId, ProductName, StockQuantity};

#[test]
fn product_id_rejects_zero_and_negative() {
    assert!(matches!(ProductId::new(0), Err(DomainError::InvalidProductId)));
    assert!(matches!(ProductId::new(-7), Err(DomainError::InvalidProductId)));
}

#[test]
fn product_id_accepts_positive() {
    let id = ProductId::new(42).unwrap();
    assert_eq!(id.value(), 42);
}

#[test]
fn product_name_trims_and_keeps_the_trimmed_form() {
    let name = ProductName::new("  Widget  ".to_string()).unwrap();
    assert_eq!(name.value(), "Widget");
}

#[test]
fn product_name_rejects_blank() {
    assert!(matches!(
        ProductName::new(String::new()),
        Err(DomainError::InvalidProductName(_))
    ));
    assert!(matches!(
        ProductName::new("   \t\n ".to_string()),
        Err(DomainError::InvalidProductName(_))
    ));
}

#[test]
fn product_name_length_is_checked_after_trimming() {
    let exactly = "x".repeat(255);
    assert_eq!(ProductName::new(format!("  {}  ", exactly)).unwrap().value(), exactly);
    let too_long = "x".repeat(256);
    assert!(matches!(
        ProductName::new(too_long),
        Err(DomainError::InvalidProductName(_))
    ));
}

#[test]
fn product_name_trims_unicode_whitespace() {
    let name = ProductName::new("\u{3000}Widget\u{a0}".to_string()).unwrap();
    assert_eq!(name.value(), "Widget");
}

#[test]
fn money_rounds_half_up_at_the_second_decimal() {
    assert_eq!(Money::from_decimal_str("19.999").unwrap().value(), 2000);
    assert_eq!(Money::from_decimal_str("19.994").unwrap().value(), 1999);
    assert_eq!(Money::from_decimal_str("19.995").unwrap().value(), 2000);
    assert_eq!(Money::from_decimal_str("9.99").unwrap().value(), 999);
    assert_eq!(Money::from_decimal_str("0").unwrap().value(), 0);
    assert_eq!(Money::from_decimal_str("2499.99").unwrap().value(), 249999);
}

#[test]
fn money_bounds_are_inclusive_of_the_maximum() {
    assert_eq!(Money::from_decimal_str("999999.99").unwrap().value(), 99999999);
    assert_eq!(Money::from_decimal_str("999999.9900").unwrap().value(), 99999999);
    assert!(matches!(
        Money::from_decimal_str("1000000"),
        Err(DomainError::InvalidMoney(_))
    ));
    assert!(matches!(
        Money::from_decimal_str("999999.995"),
        Err(DomainError::InvalidMoney(_))
    ));
}

#[test]
fn money_rejects_malformed_and_negative_literals() {
    for bad in ["", "-3", "abc", ".5", "1.", "1.2.3", "1,50"] {
        assert!(
            matches!(Money::from_decimal_str(bad), Err(DomainError::InvalidMoney(_))),
            "{bad} should be rejected"
        );
    }
}

#[test]
fn money_new_checks_the_cent_range() {
    assert_eq!(Money::new(0).unwrap().value(), 0);
    assert_eq!(Money::new(99999999).unwrap().value(), 99999999);
    assert!(matches!(Money::new(-1), Err(DomainError::InvalidMoney(_))));
    assert!(matches!(Money::new(100000000), Err(DomainError::InvalidMoney(_))));
}

#[test]
fn stock_rejects_negative_counts() {
    assert!(matches!(
        StockQuantity::new(-1),
        Err(DomainError::InvalidStock(_))
    ));
    assert_eq!(StockQuantity::new(0).unwrap().value(), 0);
    assert_eq!(StockQuantity::new(7).unwrap().value(), 7);
}

#[test]
fn stock_decrease_and_insufficient_stock() {
    let mut q = StockQuantity::new(5).unwrap();
    q.decrease(3).unwrap();
    assert_eq!(q.value(), 2);
    assert!(matches!(q.decrease(5), Err(DomainError::InsufficientStock)));
    assert_eq!(q.value(), 2);
}

#[test]
fn stock_rejects_negative_adjustments() {
    let mut q = StockQuantity::new(5).unwrap();
    assert!(matches!(q.decrease(-1), Err(DomainError::InvalidStock(_))));
    assert!(matches!(q.increase(-1), Err(DomainError::InvalidStock(_))));
    assert_eq!(q.value(), 5);
}

#[test]
fn stock_increase_adds() {
    let mut q = StockQuantity::new(5).unwrap();
    q.increase(4).unwrap();
    assert_eq!(q.value(), 9);
}

#[test]
fn stock_availability() {
    assert!(StockQuantity::new(1).unwrap().is_available());
    assert!(!StockQuantity::new(0).unwrap().is_available());
}

#[test]
fn money_bound_is_judged_before_rounding() {
    // 999999.994 rounds back to the maximum, but its exact value lies
    // above it, so it is rejected, as is any nonzero tail beyond the
    // second decimal place at the boundary.
    assert!(matches!(
        Money::from_decimal_str("999999.994"),
        Err(DomainError::InvalidMoney(_))
    ));
    assert!(matches!(
        Money::from_decimal_str("999999.9900001"),
        Err(DomainError::InvalidMoney(_))
    ));
    // Below the maximum, rounding up to it is fine.
    assert_eq!(Money::from_decimal_str("999999.985").unwrap().value(), 99999999);
}
