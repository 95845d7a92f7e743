use marketwire::amount::{Amount64, Price};
use marketwire::order::{ConsolidatedOrder, Order, OrderSide, Sym};
use marketwire::order::DeserError;
use marketwire::orderbook::{OrderBook, OrderOrId};

fn new_order(side: OrderSide) -> Order {
    Order {
        id: 0,
        side,
        symbol: Sym::default(),
        limit: Price::market(),
        qty: Amount64::from_int_dec(5, 0).expect("bad amount"),
        created_at: 0,
        updated_at: 0,
        filled_at: 0,
        canceled_at: 0,
        filled_qty: Amount64::zero(),
        avg_price: Price::zero(),
    }
}

#[test]
fn add_buy() {
    let mut book = OrderBook::new();

    let ids_limits = [
        (1, Price::market()),
        (2, "1.0".parse::<Price>().expect("bad price")),
        (3, "2.0".parse::<Price>().expect("bad price")),
        (4, "3.0".parse::<Price>().expect("bad price")),
        (5, "3.0".parse::<Price>().expect("bad price")),
        (6, "2.0".parse::<Price>().expect("bad price")),
        (7, "1.0".parse::<Price>().expect("bad price")),
        (8, Price::market()),
    ];
    let mut orders = std::collections::BTreeMap::new();
    for (id, limit) in ids_limits {
        let order = Order { id, limit, ..new_order(OrderSide::Buy) };
        let out = book.add_order(order.clone());
        assert_eq!(out.order, OrderOrId::Id(id));
        assert_eq!(out.affected, Vec::new());
        orders.insert(id, order);
    }

    assert_eq!(
        book.bids(),
        &vec![
            orders[&1].clone(),
            orders[&8].clone(),
            orders[&4].clone(),
            orders[&5].clone(),
            orders[&3].clone(),
            orders[&6].clone(),
            orders[&2].clone(),
            orders[&7].clone(),
        ],
    );
}

#[test]
fn add_sell() {
    let mut book = OrderBook::new();

    let ids_limits = [
        (1, Price::market()),
        (2, "1.0".parse::<Price>().expect("bad price")),
        (3, "2.0".parse::<Price>().expect("bad price")),
        (4, "3.0".parse::<Price>().expect("bad price")),
        (5, "3.0".parse::<Price>().expect("bad price")),
        (6, "2.0".parse::<Price>().expect("bad price")),
        (7, "1.0".parse::<Price>().expect("bad price")),
        (8, Price::market()),
    ];
    let mut orders = std::collections::BTreeMap::new();
    for (id, limit) in ids_limits {
        let order = Order { id, limit, ..new_order(OrderSide::Sell) };
        let out = book.add_order(order.clone());
        assert_eq!(out.order, OrderOrId::Id(id));
        assert_eq!(out.affected, Vec::new());
        orders.insert(id, order);
    }

    assert_eq!(
        book.asks(),
        &vec![
            orders[&1].clone(),
            orders[&8].clone(),
            orders[&2].clone(),
            orders[&7].clone(),
            orders[&3].clone(),
            orders[&6].clone(),
            orders[&4].clone(),
            orders[&5].clone(),
        ],
    );
}

#[test]
fn buy_market_sell() {
    let mut book = OrderBook::new();

    book.add_order(Order {
        id: 1,
        limit: Price::market(),
        qty: Amount64::from_int_dec(5, 0).expect("bad amount"),
        ..new_order(OrderSide::Buy)
    });
    book.add_order(Order {
        id: 2,
        limit: Price::from_int_dec(1, 0).expect("bad price"),
        qty: Amount64::from_int_dec(5, 0).expect("bad amount"),
        ..new_order(OrderSide::Buy)
    });
    book.add_order(Order {
        id: 3,
        limit: Price::from_int_dec(2, 0).expect("bad price"),
        qty: Amount64::from_int_dec(5, 0).expect("bad amount"),
        ..new_order(OrderSide::Buy)
    });
    book.add_order(Order {
        id: 4,
        limit: Price::from_int_dec(3, 0).expect("bad price"),
        qty: Amount64::from_int_dec(5, 0).expect("bad amount"),
        ..new_order(OrderSide::Buy)
    });

    let mut sell_order = Order {
        id: 5,
        limit: Price::market(),
        qty: Amount64::from_int_dec(20, 0).expect("bad amount"),
        ..new_order(OrderSide::Sell)
    };
    let out = book.add_order(sell_order.clone());
    assert_eq!(out.order, OrderOrId::Id(5));
    assert_eq!(out.affected.len(), 3);
    for o in out.affected.iter() {
        if !o.is_filled() {
            panic!("expected filled order: {o:?}");
        }
        if o.limit != o.avg_price {
            panic!("limit != avg_price: {o:?}");
        }
    }

    sell_order.filled_qty = Amount64::from_u64(15).expect("bad price");
    sell_order.avg_price = Price::from_int_dec(2, 0).expect("bad price");
    let got_order = book.get_order(5).expect("expected order with ID 5");
    assert_eq!(got_order, &sell_order);

    assert_eq!(book.asks(), &vec![sell_order.clone()]);
    assert_eq!(
        book.bids(),
        &vec![Order {
            id: 1,
            limit: Price::market(),
            qty: Amount64::from_int_dec(5, 0).expect("bad amount"),
            ..new_order(OrderSide::Buy)
        }],
    );
}

#[test]
fn sell_market_buy() {
    let mut book = OrderBook::new();

    book.add_order(Order {
        id: 1,
        limit: Price::market(),
        qty: Amount64::from_int_dec(5, 0).expect("bad amount"),
        ..new_order(OrderSide::Sell)
    });
    book.add_order(Order {
        id: 2,
        limit: Price::from_int_dec(1, 0).expect("bad price"),
        qty: Amount64::from_int_dec(5, 0).expect("bad amount"),
        ..new_order(OrderSide::Sell)
    });
    book.add_order(Order {
        id: 3,
        limit: Price::from_int_dec(2, 0).expect("bad price"),
        qty: Amount64::from_int_dec(5, 0).expect("bad amount"),
        ..new_order(OrderSide::Sell)
    });
    book.add_order(Order {
        id: 4,
        limit: Price::from_int_dec(3, 0).expect("bad price"),
        qty: Amount64::from_int_dec(5, 0).expect("bad amount"),
        ..new_order(OrderSide::Sell)
    });

    let mut buy_order = Order {
        id: 5,
        limit: Price::market(),
        qty: Amount64::from_int_dec(20, 0).expect("bad amount"),
        ..new_order(OrderSide::Buy)
    };
    let out = book.add_order(buy_order.clone());
    assert_eq!(out.order, OrderOrId::Id(5));
    assert_eq!(out.affected.len(), 3);
    for o in out.affected.iter() {
        if !o.is_filled() {
            panic!("expected filled order: {o:?}");
        }
        if o.limit != o.avg_price {
            panic!("limit != avg_price: {o:?}");
        }
    }

    buy_order.filled_qty = Amount64::from_u64(15).expect("bad price");
    buy_order.avg_price = Price::from_int_dec(2, 0).expect("bad price");
    let got_order = book.get_order(5).expect("expected order with ID 5");
    assert_eq!(got_order, &buy_order);

    assert_eq!(
        book.asks(),
        &vec![Order {
            id: 1,
            limit: Price::market(),
            qty: Amount64::from_int_dec(5, 0).expect("bad amount"),
            ..new_order(OrderSide::Sell)
        }],
    );
    assert_eq!(book.bids(), &vec![buy_order.clone()]);
}

#[test]
fn consilidated_bids() {
    let mut book = OrderBook::new();
    for _ in 0..3 {
        book.add_order(Order {
            limit: Price::market(),
            qty: Amount64::from_int_dec(5, 0).expect("bad amount"),
            ..new_order(OrderSide::Buy)
        });
    }
    for _ in 0..2 {
        book.add_order(Order {
            limit: Price::from_int_dec(5, 0).expect("bad price"),
            qty: Amount64::from_int_dec(5, 0).expect("bad amount"),
            ..new_order(OrderSide::Buy)
        });
    }
    book.add_order(Order {
        limit: Price::from_int_dec(10, 0).expect("bad price"),
        qty: Amount64::from_int_dec(5, 0).expect("bad amount"),
        ..new_order(OrderSide::Buy)
    });
    let con = book.consolidated();
    assert_eq!(
        con.bids(),
        &vec![
            ConsolidatedOrder {
                symbol: new_order(OrderSide::Buy).symbol,
                side: OrderSide::Buy,
                limit: Price::market(),
                qty: Amount64::from_int_dec(15, 0).expect("bad amount"),
            },
            ConsolidatedOrder {
                symbol: new_order(OrderSide::Buy).symbol,
                side: OrderSide::Buy,
                limit: Price::from_int_dec(10, 0).expect("bad price"),
                qty: Amount64::from_int_dec(5, 0).expect("bad amount"),
            },
            ConsolidatedOrder {
                symbol: new_order(OrderSide::Buy).symbol,
                side: OrderSide::Buy,
                limit: Price::from_int_dec(5, 0).expect("bad price"),
                qty: Amount64::from_int_dec(10, 0).expect("bad amount"),
            },
        ],
    );
    assert_eq!(con.asks(), &Vec::new());
}

#[test]
fn consilidated_asks() {
    let mut book = OrderBook::new();
    for _ in 0..3 {
        book.add_order(Order {
            limit: Price::market(),
            qty: Amount64::from_int_dec(5, 0).expect("bad amount"),
            ..new_order(OrderSide::Sell)
        });
    }
    for _ in 0..2 {
        book.add_order(Order {
            limit: Price::from_int_dec(5, 0).expect("bad price"),
            qty: Amount64::from_int_dec(5, 0).expect("bad amount"),
            ..new_order(OrderSide::Sell)
        });
    }
    book.add_order(Order {
        limit: Price::from_int_dec(10, 0).expect("bad price"),
        qty: Amount64::from_int_dec(5, 0).expect("bad amount"),
        ..new_order(OrderSide::Sell)
    });
    let con = book.consolidated();
    assert_eq!(
        con.asks(),
        &vec![
            ConsolidatedOrder {
                symbol: new_order(OrderSide::Sell).symbol,
                side: OrderSide::Sell,
                limit: Price::market(),
                qty: Amount64::from_int_dec(15, 0).expect("bad amount"),
            },
            ConsolidatedOrder {
                symbol: new_order(OrderSide::Sell).symbol,
                side: OrderSide::Sell,
                limit: Price::from_int_dec(5, 0).expect("bad price"),
                qty: Amount64::from_int_dec(10, 0).expect("bad amount"),
            },
            ConsolidatedOrder {
                symbol: new_order(OrderSide::Sell).symbol,
                side: OrderSide::Sell,
                limit: Price::from_int_dec(10, 0).expect("bad price"),
                qty: Amount64::from_int_dec(5, 0).expect("bad amount"),
            },
        ],
    );
    assert_eq!(con.bids(), &Vec::new());
}

#[test]
fn consilidated_bids_asks() {
    let mut book = OrderBook::new();

    for _ in 0..2 {
        book.add_order(Order {
            limit: Price::from_int_dec(5, 0).expect("bad price"),
            qty: Amount64::from_int_dec(5, 0).expect("bad amount"),
            ..new_order(OrderSide::Buy)
        });
    }
    book.add_order(Order {
        limit: Price::from_int_dec(10, 0).expect("bad price"),
        qty: Amount64::from_int_dec(5, 0).expect("bad amount"),
        ..new_order(OrderSide::Buy)
    });

    for _ in 0..2 {
        book.add_order(Order {
            limit: Price::from_int_dec(105, 0).expect("bad price"),
            qty: Amount64::from_int_dec(5, 0).expect("bad amount"),
            ..new_order(OrderSide::Sell)
        });
    }
    book.add_order(Order {
        limit: Price::from_int_dec(110, 0).expect("bad price"),
        qty: Amount64::from_int_dec(5, 0).expect("bad amount"),
        ..new_order(OrderSide::Sell)
    });

    let con = book.consolidated();
    assert_eq!(
        con.bids(),
        &vec![
            ConsolidatedOrder {
                symbol: new_order(OrderSide::Buy).symbol,
                side: OrderSide::Buy,
                limit: Price::from_int_dec(10, 0).expect("bad price"),
                qty: Amount64::from_int_dec(5, 0).expect("bad amount"),
            },
            ConsolidatedOrder {
                symbol: new_order(OrderSide::Buy).symbol,
                side: OrderSide::Buy,
                limit: Price::from_int_dec(5, 0).expect("bad price"),
                qty: Amount64::from_int_dec(10, 0).expect("bad amount"),
            },
        ],
    );
    assert_eq!(
        con.asks(),
        &vec![
            ConsolidatedOrder {
                symbol: new_order(OrderSide::Sell).symbol,
                side: OrderSide::Sell,
                limit: Price::from_int_dec(105, 0).expect("bad price"),
                qty: Amount64::from_int_dec(10, 0).expect("bad amount"),
            },
            ConsolidatedOrder {
                symbol: new_order(OrderSide::Sell).symbol,
                side: OrderSide::Sell,
                limit: Price::from_int_dec(110, 0).expect("bad price"),
                qty: Amount64::from_int_dec(5, 0).expect("bad amount"),
            },
        ],
    );
}

#[test]
fn test_empty_order() {
    let order = Order::empty();
    let ser = order.ser();
    let dorder = Order::deser(&ser).expect("bad deser");
    assert_eq!(order, dorder);
}

#[test]
fn deser_rejects_bad_records() {
    let order = Order::empty();
    let mut ser = order.ser();
    assert_eq!(Order::deser(&ser[..10]), Err(DeserError::Io));
    ser[16] = b'Q';
    assert_eq!(Order::deser(&ser), Err(DeserError::Other));
}

#[test]
fn no_cross_limit_rests_with_empty_affected() {
    let mut book = OrderBook::new();
    book.add_order(Order {
        id: 1,
        limit: Price::from_int_dec(10, 0).expect("bad price"),
        ..new_order(OrderSide::Sell)
    });
    // a buy below the best ask does not cross
    let out = book.add_order(Order {
        id: 2,
        limit: Price::from_int_dec(9, 0).expect("bad price"),
        ..new_order(OrderSide::Buy)
    });
    assert_eq!(out.order, OrderOrId::Id(2));
    assert_eq!(out.affected, Vec::new());
    assert_eq!(book.bids().len(), 1);
    assert_eq!(book.asks().len(), 1);
}

#[test]
fn exact_sweep_retires_incoming() {
    let mut book = OrderBook::new();
    for (id, dollars) in [(1, 1), (2, 2)] {
        book.add_order(Order {
            id,
            limit: Price::from_int_dec(dollars, 0).expect("bad price"),
            qty: Amount64::from_int_dec(5, 0).expect("bad amount"),
            ..new_order(OrderSide::Sell)
        });
    }
    let out = book.add_order(Order {
        id: 3,
        limit: Price::from_int_dec(2, 0).expect("bad price"),
        qty: Amount64::from_int_dec(10, 0).expect("bad amount"),
        ..new_order(OrderSide::Buy)
    });
    match out.order {
        OrderOrId::Order(o) => {
            assert!(o.is_filled());
            assert_eq!(o.id, 3);
        }
        OrderOrId::Id(id) => panic!("expected retired order, got ID {id}"),
    }
    assert_eq!(out.affected.len(), 2);
    assert!(book.asks().is_empty());
    assert!(book.bids().is_empty());
}
