use marketwire::amount::{Amount128, Amount64, FormatOpts, ParseError};

#[test]
fn mul() {
    let num1 = Amount64::from_int_dec(5, 0).expect("should be Some");
    let num2 = Amount64::from_int_dec(2, 0).expect("should be Some");
    assert_eq!(num1.mul(num2), Amount64::from_int_dec(10, 0).expect("should be Some"));

    let num1 = Amount64::from_int_dec(5, 0).expect("should be Some");
    let num2 = Amount64::from_int_dec(1, 0).expect("should be Some");
    assert_eq!(num1.mul(num2), Amount64::from_int_dec(5, 0).expect("should be Some"));

    let num1 = Amount64::from_int_dec(5, 0).expect("should be Some");
    let num2 = Amount64::from_int_dec(10, 0).expect("should be Some");
    assert_eq!(num1.mul(num2), Amount64::from_int_dec(50, 0).expect("should be Some"));

    let num1 = Amount64::from_int_dec(5, 0).expect("should be Some");
    let num2 = Amount64::from_int_dec(0, 5).expect("should be Some");
    assert_eq!(num1.mul(num2), Amount64::from_int_dec(2, 5).expect("should be Some"));

    let num1 = Amount64::from_int_dec(0, 5).expect("should be Some");
    let num2 = Amount64::from_int_dec(0, 5).expect("should be Some");
    assert_eq!(num1.mul(num2), Amount64::from_int_dec(0, 25).expect("should be Some"));
}

#[test]
fn div() {
    let num = Amount64::from_int_dec(5, 0).expect("should be Some");
    let den = Amount64::from_int_dec(2, 0).expect("should be Some");
    assert_eq!(num.div(den), Amount64::from_int_dec(2, 5).expect("should be Some"));

    let num = Amount64::from_int_dec(5, 0).expect("should be Some");
    let den = Amount64::from_int_dec(1, 0).expect("should be Some");
    assert_eq!(num.div(den), Amount64::from_int_dec(5, 0).expect("should be Some"));

    let num = Amount64::from_int_dec(5, 0).expect("should be Some");
    let den = Amount64::from_int_dec(10, 0).expect("should be Some");
    assert_eq!(num.div(den), Amount64::from_int_dec(0, 5).expect("should be Some"));

    let num = Amount64::from_int_dec(5, 0).expect("should be Some");
    let den = Amount64::from_int_dec(0, 5).expect("should be Some");
    assert_eq!(num.div(den), Amount64::from_int_dec(10, 0).expect("should be Some"));
}

#[test]
fn format() {
    let amt = Amount128::from_str("12.12").expect("should be Ok");
    assert_eq!(amt.format(FormatOpts { ..Default::default() }), "12.12",);
    assert_eq!(
        amt.format(FormatOpts { width: Some(1), precision: Some(3), ..Default::default() }),
        "12.120",
    );
    assert_eq!(
        amt.format(FormatOpts { width: Some(3), precision: Some(1), ..Default::default() }),
        "012.1",
    );

    let amt = Amount128::from_str("12.55").expect("should be Ok");
    assert_eq!(amt.format(FormatOpts { ..Default::default() }), "12.55",);
    assert_eq!(
        amt.format(FormatOpts { width: Some(1), precision: Some(3), ..Default::default() }),
        "12.550",
    );
    assert_eq!(
        amt.format(FormatOpts { width: Some(3), precision: Some(1), ..Default::default() }),
        "012.6",
    );
    assert_eq!(amt.format(FormatOpts { precision: Some(0), ..Default::default() }), "13",);
}

#[test]
fn from_str_rejects_bad_input() {
    assert_eq!(Amount64::from_str("1.2.3"), Err(ParseError::DoubleDecimal));
    assert_eq!(Amount64::from_str("12a"), Err(ParseError::NonDigit));
    assert_eq!(Amount64::from_str("99999999999"), Err(ParseError::MaxIntExceeded));
    assert_eq!(
        Amount64::from_str("2.5"),
        Ok(Amount64::from_int_dec(2, 5).expect("should be Some"))
    );
}

#[test]
fn parts_round_and_bytes() {
    let amt = Amount64::from_parts(7, 250_000_000).expect("should be Some");
    assert_eq!(amt.to_parts(), (7, 250_000_000));
    assert_eq!(amt.trunc(), Amount64::from_u64(7).expect("should be Some"));
    assert_eq!(amt.fract().0, 250_000_000);
    let b = amt.to_le_bytes();
    assert_eq!(Amount64::from_le_bytes(&b), amt);
    let bb = amt.to_be_bytes();
    assert_eq!(Amount64::from_be_bytes(&bb), amt);
    // round half up at the ones place
    assert_eq!(
        Amount64::from_str("12.55").unwrap().round(1),
        Amount64::from_str("12.6").unwrap()
    );
    assert_eq!(Amount64::from_str("12.4").unwrap().round(0), Amount64::from_u64(12).unwrap());
}
