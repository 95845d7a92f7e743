use marketwire::cbuf::CBuf;
use marketwire::nasdaq;
use marketwire::ouch::{
    ClOrdId, Display, EnterOrder, Firm, OptionValue, OptionalAppendage, PostOnly, SharesLocated,
    TagValue, TimeInForce, TradeNow, UserRefNum,
};

#[test]
fn cl_ord_id_accepts_only_alphanumerics() {
    assert!(ClOrdId::from_bytes(b"ABCDEFGH123456").is_some());
    assert!(ClOrdId::from_bytes(b"ABCDEFGH12345").is_none());
    assert!(ClOrdId::from_bytes(b"ABCDEFGH 23456").is_none());
}

#[test]
fn firm_and_symbol_validation() {
    assert!(Firm::new(b"ABCD").is_ok());
    assert!(Firm::new(b"  AB").is_ok());
    assert!(Firm::new(b"AB  ").is_err());
    assert!(Firm::new(b"ab12").is_err());
    assert!(nasdaq::Symbol::new(b"    AAPL").is_ok());
    assert!(nasdaq::Symbol::new(b"AAPL    ").is_err());
    assert!(nasdaq::Symbol::new(b"AAPL").is_err());
}

#[test]
fn trade_now_round_trips_through_bool() {
    assert_eq!(TradeNow::from_bool(true), TradeNow::Yes);
    assert_eq!(TradeNow::from_bool_opt(None), TradeNow::UsePortDefault);
    assert_eq!(TradeNow::Yes.to_bool_opt(), Some(true));
    assert_eq!(TradeNow::UsePortDefault.to_bool_opt(), None);
    assert!(SharesLocated::from_bool(true).to_bool());
    assert_eq!(UserRefNum(7).incr(), UserRefNum(8));
    assert_eq!(UserRefNum(7).add(5), UserRefNum(12));
}

#[test]
fn enter_order_encodes_head_and_appendage() {
    let mut appendage = OptionalAppendage::empty();
    appendage
        .push(TagValue { option_value: OptionValue::PostOnly(PostOnly::PostOnly) })
        .ok()
        .expect("bad push");
    let order = EnterOrder {
        user_ref_num: UserRefNum(1),
        side: nasdaq::OrderSide::Buy,
        quantity: 100,
        symbol: nasdaq::Symbol::new(b"    AAPL").expect("bad symbol"),
        price: nasdaq::Price::from_raw(1_250_000).expect("bad price"),
        time_in_force: TimeInForce::Day,
        display: Display::Visible,
        capacity: marketwire::ouch::Capacity::Agency,
        inter_market_sweep_eligibility:
            marketwire::ouch::InterMarketSweepEligibility::NotEligible,
        cross_type: marketwire::ouch::CrossType::ContinuousMarket,
        cl_ord_id: ClOrdId::from_bytes(b"ORDER000000001").expect("bad id"),
        optional_appendage: appendage,
    };
    let bytes = order.encode();
    let mut expected: Vec<u8> = vec![b'O'];
    expected.extend_from_slice(&[0, 0, 0, 1]);
    expected.push(b'B');
    expected.extend_from_slice(&[0, 0, 0, 100]);
    expected.extend_from_slice(b"    AAPL");
    expected.extend_from_slice(&1_250_000u64.to_be_bytes());
    expected.push(b'0');
    expected.push(b'Y');
    expected.push(b'A');
    expected.push(b'N');
    expected.push(b'N');
    expected.extend_from_slice(b"ORDER000000001");
    // appendage: byte count, then length byte, tag byte, value byte
    expected.extend_from_slice(&[0, 3, 2, 12, b'P']);
    assert_eq!(bytes, expected);
}

#[test]
fn option_values_encode_their_width() {
    let tv = TagValue { option_value: OptionValue::MinQty(9) };
    assert_eq!(tv.length(), 5);
    assert_eq!(tv.encode(), vec![5, 3, 0, 0, 0, 9]);
    let tv = TagValue { option_value: OptionValue::SecondaryOrdRefNum(2) };
    assert_eq!(tv.encode(), vec![9, 1, 0, 0, 0, 0, 0, 0, 0, 2]);
    let tv = TagValue { option_value: OptionValue::GroupId(0x0102) };
    assert_eq!(tv.encode(), vec![3, 24, 1, 2]);
}

#[test]
fn prices_report_their_sentinels() {
    assert!(nasdaq::Price::market().is_market());
    assert!(nasdaq::Price::market_cross().is_market_cross());
    assert!(!nasdaq::Price::from_raw(1_000).expect("bad price").is_market());
    assert_eq!(nasdaq::Price::from_raw(12_5000).expect("bad price").to_parts(), (12, 5000));
    assert!(nasdaq::Price::from_raw(2_000_000_000).is_none());
    assert!(nasdaq::SignedPrice::market().is_market());
    assert!(!nasdaq::SignedPrice(100).is_market());
}

#[test]
fn ring_buffer_keeps_order() {
    let mut buf = CBuf::from_vec(vec![1u64, 2, 3]);
    assert_eq!(buf.len(), 3);
    assert_eq!(*buf.get(0), 1);
    let old = buf.push(4);
    assert_eq!(old, 1);
    assert_eq!(*buf.get(0), 2);
    assert_eq!(*buf.get(1), 3);
    assert_eq!(*buf.get(2), 4);
    let old = buf.push(5);
    assert_eq!(old, 2);
    assert_eq!(*buf.get(2), 5);
}
