//! Orders: the side tag, the order record with its fill arithmetic, and the
//! fixed 81-byte serialized form.
use crate::amount::{
    spec_div64, spec_mul64, spec_scale_up, Amount64, Price, AMOUNT64_SCALE, PRICE_MARKET_RAW,
};
use vstd::bytes::{
    lemma_auto_spec_u64_to_from_le_bytes, spec_u64_from_le_bytes, spec_u64_to_le_bytes,
    u64_from_le_bytes, u64_to_le_bytes,
};
use vstd::prelude::*;
use vstd::slice::{slice_subrange, slice_to_vec};

verus! {

/// Which side of the book an order stands on.
#[derive(Clone, Copy, PartialEq, Eq, Debug, Structural)]
pub enum OrderSide {
    Buy,
    Sell,
}

/// The wire byte of each side: `B` or `S`.
pub open spec fn spec_side_byte(s: OrderSide) -> u8 {
    match s {
        OrderSide::Buy => 66,  // 'B'
        OrderSide::Sell => 83,  // 'S'
    }
}

impl OrderSide {
    pub fn from_u8(u: u8) -> (r: Result<OrderSide, u8>)
        ensures
            u == 66 ==> r == Ok::<OrderSide, u8>(OrderSide::Buy),
            u == 83 ==> r == Ok::<OrderSide, u8>(OrderSide::Sell),
            u != 66 && u != 83 ==> r == Err::<OrderSide, u8>(u),
    {
        if u == 66 {
            Ok(OrderSide::Buy)
        } else if u == 83 {
            Ok(OrderSide::Sell)
        } else {
            Err(u)
        }
    }

    pub fn as_u8(self) -> (r: u8)
        ensures
            r == spec_side_byte(self),
    {
        match self {
            OrderSide::Buy => 66,
            OrderSide::Sell => 83,
        }
    }
}

/// An eight-byte ticker symbol.
pub type Sym = [u8; 8];

/// One row of the consolidated book: a side's resting quantity at one price.
#[derive(Clone, Copy, PartialEq, Debug)]
pub struct ConsolidatedOrder {
    pub symbol: Sym,
    pub side: OrderSide,
    pub limit: Price,
    pub qty: Amount64,
}

/// How many bytes one serialized order occupies.
pub const ORDER_SIZE: usize = 81;

/// One order: identity, terms, and fill state. The timestamps count
/// nanoseconds.
#[derive(Clone, Copy, PartialEq, Debug)]
pub struct Order {
    pub id: u64,
    pub symbol: Sym,
    pub side: OrderSide,
    pub limit: Price,
    pub qty: Amount64,
    pub created_at: i64,
    pub updated_at: i64,
    pub filled_at: i64,
    pub canceled_at: i64,
    pub filled_qty: Amount64,
    pub avg_price: Price,
}

/// What one fill does to an order, or `None` where it must be rejected: the
/// quantity-weighted average of the old fills and this one is computed with
/// the fixed-point product and quotient rules, and the fill is rejected when
/// an intermediate value leaves the raw 64-bit range, when the new filled
/// quantity is zero (no average exists), or when the average lands on the
/// market sentinel.
pub open spec fn spec_fill(o: Order, price: Price, qty: Amount64) -> Option<Order> {
    let sum = spec_mul64(o.avg_price.0.0 as nat, o.filled_qty.0 as nat) + spec_mul64(
        price.0.0 as nat,
        qty.0 as nat,
    );
    let new_filled = o.filled_qty.0 + qty.0;
    if sum > u64::MAX || new_filled > u64::MAX || new_filled == 0 {
        None
    } else if (sum % (new_filled as nat)) * AMOUNT64_SCALE > u64::MAX {
        None
    } else {
        match spec_div64(sum as nat, new_filled as nat) {
            Some(avg) => if avg == PRICE_MARKET_RAW {
                None
            } else {
                Some(
                    Order {
                        filled_qty: Amount64(new_filled as u64),
                        avg_price: Price(Amount64(avg as u64)),
                        ..o
                    },
                )
            },
            None => None,
        }
    }
}

/// The 81 serialized bytes of an order: little-endian id, symbol, side byte,
/// then the little-endian limit, quantity, four timestamps, filled quantity
/// and average price.
pub open spec fn spec_order_bytes(o: Order) -> Seq<u8> {
    spec_u64_to_le_bytes(o.id) + o.symbol@ + seq![spec_side_byte(o.side)] + spec_u64_to_le_bytes(
        o.limit.0.0,
    ) + spec_u64_to_le_bytes(o.qty.0) + spec_u64_to_le_bytes(o.created_at as u64)
        + spec_u64_to_le_bytes(o.updated_at as u64) + spec_u64_to_le_bytes(o.filled_at as u64)
        + spec_u64_to_le_bytes(o.canceled_at as u64) + spec_u64_to_le_bytes(o.filled_qty.0)
        + spec_u64_to_le_bytes(o.avg_price.0.0)
}

impl Order {
    /// A fill never outruns the order.
    pub open spec fn wf(self) -> bool {
        self.filled_qty.0 <= self.qty.0
    }

    /// The all-zero order: market limit, zero quantity, blank symbol.
    pub fn empty() -> (r: Order)
        ensures
            r.id == 0,
            r.symbol@ =~= Seq::new(8, |i: int| 0u8),
            r.side == OrderSide::Buy,
            r.limit.0.0 == PRICE_MARKET_RAW,
            r.qty.0 == 0,
            r.created_at == 0,
            r.updated_at == 0,
            r.filled_at == 0,
            r.canceled_at == 0,
            r.filled_qty.0 == 0,
            r.avg_price.0.0 == PRICE_MARKET_RAW,
            r.wf(),
    {
        Order {
            id: 0,
            symbol: [0u8; 8],
            side: OrderSide::Buy,
            limit: Price::market(),
            qty: Amount64::zero(),
            created_at: 0,
            updated_at: 0,
            filled_at: 0,
            canceled_at: 0,
            filled_qty: Amount64::zero(),
            avg_price: Price::market(),
        }
    }

    /// This order's row of the consolidated book.
    pub fn consolidated(&self) -> (r: ConsolidatedOrder)
        ensures
            r.symbol == self.symbol,
            r.side == self.side,
            r.limit == self.limit,
            r.qty == self.qty,
    {
        ConsolidatedOrder {
            symbol: self.symbol,
            side: self.side,
            limit: self.limit,
            qty: self.qty,
        }
    }

    /// Apply one fill at `price` for `qty`; on rejection nothing changes and
    /// `false` is answered. See [`spec_fill`].
    pub fn fill_with(&mut self, price: Price, qty: Amount64) -> (r: bool)
        ensures
            match spec_fill(*old(self), price, qty) {
                Some(o2) => r && *final(self) == o2,
                None => !r && *final(self) == *old(self),
            },
    {
        proof {
            crate::amount::lemma_scale64();
        }
        let part1 = match self.avg_price.to_amount64().checked_mul(self.filled_qty) {
            Some(v) => v,
            None => {
                return false;
            },
        };
        let part2 = match price.to_amount64().checked_mul(qty) {
            Some(v) => v,
            None => {
                return false;
            },
        };
        let sum = match part1.checked_add(part2) {
            Some(v) => v,
            None => {
                return false;
            },
        };
        let new_filled = match self.filled_qty.checked_add(qty) {
            Some(v) => v,
            None => {
                return false;
            },
        };
        if new_filled.0 == 0 {
            return false;
        }
        let rem = sum.0 % new_filled.0;
        match rem.checked_mul(AMOUNT64_SCALE) {
            Some(_) => {},
            None => {
                return false;
            },
        }
        let int_part = sum.0 / new_filled.0;
        let fract = rem * AMOUNT64_SCALE / new_filled.0;
        let avg = match Amount64::from_unscaled_parts(int_part, fract) {
            Some(a) => a,
            None => {
                return false;
            },
        };
        match Price::from_amount(avg) {
            Some(p) => {
                self.filled_qty = new_filled;
                self.avg_price = p;
                true
            },
            None => false,
        }
    }

    pub fn is_filled(&self) -> (r: bool)
        ensures
            r == (self.qty.0 == self.filled_qty.0),
    {
        self.qty.0 == self.filled_qty.0
    }

    /// The quantity still open.
    pub fn qty_left(&self) -> (r: Amount64)
        requires
            self.wf(),
        ensures
            r.0 == self.qty.0 - self.filled_qty.0,
    {
        self.qty.sub(self.filled_qty)
    }

    /// The order's 73 serialized bytes; see [`spec_order_bytes`].
    pub fn ser(&self) -> (r: Vec<u8>)
        ensures
            r@ == spec_order_bytes(*self),
            r@.len() == ORDER_SIZE,
    {
        proof {
            lemma_auto_spec_u64_to_from_le_bytes();
        }
        let mut buf = u64_to_le_bytes(self.id);
        let mut part = slice_to_vec(self.symbol.as_slice());
        buf.append(&mut part);
        buf.push(self.side.as_u8());
        let mut part = u64_to_le_bytes(self.limit.0.0);
        buf.append(&mut part);
        let mut part = u64_to_le_bytes(self.qty.0);
        buf.append(&mut part);
        let mut part = u64_to_le_bytes(#[verifier::truncate] (self.created_at as u64));
        buf.append(&mut part);
        let mut part = u64_to_le_bytes(#[verifier::truncate] (self.updated_at as u64));
        buf.append(&mut part);
        let mut part = u64_to_le_bytes(#[verifier::truncate] (self.filled_at as u64));
        buf.append(&mut part);
        let mut part = u64_to_le_bytes(#[verifier::truncate] (self.canceled_at as u64));
        buf.append(&mut part);
        let mut part = u64_to_le_bytes(self.filled_qty.0);
        buf.append(&mut part);
        let mut part = u64_to_le_bytes(self.avg_price.0.0);
        buf.append(&mut part);
        proof {
            assert(buf@ =~= spec_order_bytes(*self));
        }
        buf
    }
}

/// Why deserialization failed.
#[derive(Clone, Copy, Debug, PartialEq, Eq, Structural)]
pub enum DeserError {
    /// The byte source ended before the record did.
    Io,
    /// A field held a value outside its domain: the side byte.
    Other,
}

/// Whether the byte form has room for a record and a valid side byte.
pub open spec fn spec_order_bytes_ok(bs: Seq<u8>) -> bool {
    bs.len() >= ORDER_SIZE && (bs[16] == 66 || bs[16] == 83)
}

/// Whether `o` holds exactly the fields encoded at the front of `bs`.
pub open spec fn spec_order_fields_match(o: Order, bs: Seq<u8>) -> bool {
    &&& o.id == spec_u64_from_le_bytes(bs.subrange(0, 8))
    &&& o.symbol@ == bs.subrange(8, 16)
    &&& o.side == (if bs[16] == 66 {
        OrderSide::Buy
    } else {
        OrderSide::Sell
    })
    &&& o.limit.0.0 == spec_u64_from_le_bytes(bs.subrange(17, 25))
    &&& o.qty.0 == spec_u64_from_le_bytes(bs.subrange(25, 33))
    &&& o.created_at == spec_u64_from_le_bytes(bs.subrange(33, 41)) as i64
    &&& o.updated_at == spec_u64_from_le_bytes(bs.subrange(41, 49)) as i64
    &&& o.filled_at == spec_u64_from_le_bytes(bs.subrange(49, 57)) as i64
    &&& o.canceled_at == spec_u64_from_le_bytes(bs.subrange(57, 65)) as i64
    &&& o.filled_qty.0 == spec_u64_from_le_bytes(bs.subrange(65, 73))
    &&& o.avg_price.0.0 == spec_u64_from_le_bytes(bs.subrange(73, 81))
}

impl Order {
    /// Decode one order from the front of `buf`; trailing bytes are not
    /// consumed. Too few bytes or a bad side byte are refused.
    pub fn deser(buf: &[u8]) -> (r: Result<Order, DeserError>)
        ensures
            buf@.len() < ORDER_SIZE ==> r == Err::<Order, DeserError>(DeserError::Io),
            buf@.len() >= ORDER_SIZE && !spec_order_bytes_ok(buf@) ==> r == Err::<
                Order,
                DeserError,
            >(DeserError::Other),
            spec_order_bytes_ok(buf@) ==> (r matches Ok(o) && spec_order_fields_match(o, buf@)),
    {
        if buf.len() < ORDER_SIZE {
            return Err(DeserError::Io);
        }
        let id = u64_from_le_bytes(slice_subrange(buf, 0, 8));
        let symbol: Sym = [buf[8], buf[9], buf[10], buf[11], buf[12], buf[13], buf[14], buf[15]];
        proof {
            assert(symbol@ =~= buf@.subrange(8, 16));
        }
        let side = match OrderSide::from_u8(buf[16]) {
            Ok(s) => s,
            Err(_) => {
                return Err(DeserError::Other);
            },
        };
        let limit = Price(Amount64(u64_from_le_bytes(slice_subrange(buf, 17, 25))));
        let qty = Amount64(u64_from_le_bytes(slice_subrange(buf, 25, 33)));
        let created_at = #[verifier::truncate] (u64_from_le_bytes(
            slice_subrange(buf, 33, 41),
        ) as i64);
        let updated_at = #[verifier::truncate] (u64_from_le_bytes(
            slice_subrange(buf, 41, 49),
        ) as i64);
        let filled_at = #[verifier::truncate] (u64_from_le_bytes(
            slice_subrange(buf, 49, 57),
        ) as i64);
        let canceled_at = #[verifier::truncate] (u64_from_le_bytes(
            slice_subrange(buf, 57, 65),
        ) as i64);
        let filled_qty = Amount64(u64_from_le_bytes(slice_subrange(buf, 65, 73)));
        let avg_price = Price(Amount64(u64_from_le_bytes(slice_subrange(buf, 73, 81))));
        Ok(
            Order {
                id,
                symbol,
                side,
                limit,
                qty,
                created_at,
                updated_at,
                filled_at,
                canceled_at,
                filled_qty,
                avg_price,
            },
        )
    }

    /// Decode into an existing order; see [`Order::deser`].
    pub fn deser_from_in_place(&mut self, buf: &[u8]) -> (r: Result<(), DeserError>)
        ensures
            buf@.len() < ORDER_SIZE ==> r == Err::<(), DeserError>(DeserError::Io) && *final(self)
                == *old(self),
            buf@.len() >= ORDER_SIZE && !spec_order_bytes_ok(buf@) ==> r == Err::<(), DeserError>(
                DeserError::Other,
            ) && *final(self) == *old(self),
            spec_order_bytes_ok(buf@) ==> r is Ok && spec_order_fields_match(*final(self), buf@),
    {
        match Order::deser(buf) {
            Ok(o) => {
                *self = o;
                Ok(())
            },
            Err(e) => Err(e),
        }
    }
}

/// An `i64` read back from its unsigned wire form is itself.
proof fn lemma_i64_u64_cast(x: i64)
    ensures
        (x as u64) as i64 == x,
{
    assert((x as u64) as i64 == x) by (bit_vector);
}

/// Round trip: a serialized order deserializes, and every record matching
/// those bytes holds the same field values, the timestamps read back through
/// their unsigned wire form.
pub proof fn lemma_order_roundtrip(o: Order, o2: Order)
    requires
        spec_order_fields_match(o2, spec_order_bytes(o)),
    ensures
        spec_order_bytes_ok(spec_order_bytes(o)),
        o2.id == o.id,
        o2.symbol@ == o.symbol@,
        o2.side == o.side,
        o2.limit == o.limit,
        o2.qty == o.qty,
        o2.created_at == o.created_at,
        o2.updated_at == o.updated_at,
        o2.filled_at == o.filled_at,
        o2.canceled_at == o.canceled_at,
        o2.filled_qty == o.filled_qty,
        o2.avg_price == o.avg_price,
{
    lemma_auto_spec_u64_to_from_le_bytes();
    let bs = spec_order_bytes(o);
    assert(bs.len() == 81);
    assert(bs.subrange(0, 8) =~= spec_u64_to_le_bytes(o.id));
    assert(bs.subrange(8, 16) =~= o.symbol@);
    assert(bs[16] == spec_side_byte(o.side));
    assert(bs.subrange(17, 25) =~= spec_u64_to_le_bytes(o.limit.0.0));
    assert(bs.subrange(25, 33) =~= spec_u64_to_le_bytes(o.qty.0));
    assert(bs.subrange(33, 41) =~= spec_u64_to_le_bytes(o.created_at as u64));
    assert(bs.subrange(41, 49) =~= spec_u64_to_le_bytes(o.updated_at as u64));
    assert(bs.subrange(49, 57) =~= spec_u64_to_le_bytes(o.filled_at as u64));
    assert(bs.subrange(57, 65) =~= spec_u64_to_le_bytes(o.canceled_at as u64));
    assert(bs.subrange(65, 73) =~= spec_u64_to_le_bytes(o.filled_qty.0));
    assert(bs.subrange(73, 81) =~= spec_u64_to_le_bytes(o.avg_price.0.0));
    lemma_i64_u64_cast(o.created_at);
    lemma_i64_u64_cast(o.updated_at);
    lemma_i64_u64_cast(o.filled_at);
    lemma_i64_u64_cast(o.canceled_at);
}

} // verus!
