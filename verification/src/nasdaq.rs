//! Shared NASDAQ wire scalars: the eight-byte symbol, the order-entry side
//! tag, and the four-decimal-place price scalars with their market
//! sentinels.
use vstd::prelude::*;
use vstd::slice::slice_to_vec;

verus! {

pub const SYMBOL_LEN: usize = 8;

/// Whether `s` is a valid symbol body: capitals and spaces only, with no
/// space after a capital (the letters sit right-aligned).
pub open spec fn spec_symbol_ok(s: Seq<u8>) -> bool {
    &&& s.len() == SYMBOL_LEN
    &&& forall|i: int| 0 <= i < s.len() ==> (65 <= #[trigger] s[i] <= 90 || s[i] == 32)
    &&& forall|i: int, j: int|
        0 <= i < j < s.len() ==> !(65 <= #[trigger] s[i] <= 90 && #[trigger] s[j] == 32)
}

/// An eight-byte ticker symbol: capitals, left-padded with spaces.
#[derive(Clone, Debug, PartialEq, Eq, Hash)]
pub struct Symbol {
    bytes: Vec<u8>,
}

impl View for Symbol {
    type V = Seq<u8>;

    closed spec fn view(&self) -> Seq<u8> {
        self.bytes@
    }
}

impl Symbol {
    pub open spec fn wf(self) -> bool {
        self@.len() == SYMBOL_LEN
    }

    /// Accepts exactly eight bytes of capitals and spaces with no space
    /// after a capital; anything else is refused.
    pub fn new(bytes: &[u8]) -> (r: Result<Symbol, ()>)
        ensures
            spec_symbol_ok(bytes@) ==> (r matches Ok(s) && s@ == bytes@ && s.wf()),
            !spec_symbol_ok(bytes@) ==> r is Err,
    {
        if bytes.len() != SYMBOL_LEN {
            return Err(());
        }
        let mut in_letters = false;
        let mut i: usize = 0;
        while i < SYMBOL_LEN
            invariant
                bytes@.len() == SYMBOL_LEN,
                i <= SYMBOL_LEN,
                forall|k: int| 0 <= k < i ==> (65 <= #[trigger] bytes@[k] <= 90 || bytes@[k] == 32),
                forall|k: int, j: int|
                    0 <= k < j < i ==> !(65 <= #[trigger] bytes@[k] <= 90 && #[trigger] bytes@[j]
                        == 32),
                in_letters == exists|k: int| 0 <= k < i && 65 <= #[trigger] bytes@[k] <= 90,
            decreases SYMBOL_LEN - i,
        {
            let b = bytes[i];
            if 65 <= b && b <= 90 {
                in_letters = true;
            } else if b == 32 {
                if in_letters {
                    return Err(());
                }
            } else {
                return Err(());
            }
            i += 1;
        }
        Ok(Symbol { bytes: slice_to_vec(bytes) })
    }

    /// The all-spaces symbol.
    pub fn empty() -> (r: Symbol)
        ensures
            r@ =~= Seq::new(SYMBOL_LEN as nat, |i: int| 32u8),
            r.wf(),
    {
        let mut bytes: Vec<u8> = Vec::new();
        let mut i: usize = 0;
        while i < SYMBOL_LEN
            invariant
                i <= SYMBOL_LEN,
                bytes@ =~= Seq::new(i as nat, |j: int| 32u8),
            decreases SYMBOL_LEN - i,
        {
            bytes.push(32);
            i += 1;
        }
        Symbol { bytes }
    }

    pub fn as_bytes(&self) -> (r: &[u8])
        ensures
            r@ == self@,
    {
        self.bytes.as_slice()
    }
}

/// The order-entry side tag, with the two short-sale variants.
#[derive(Clone, Copy, PartialEq, Eq, Debug, Structural)]
pub enum OrderSide {
    Buy,
    Sell,
    SellShort,
    SellShortExempt,
}

/// The wire byte of each side.
pub open spec fn spec_order_side_byte(s: OrderSide) -> u8 {
    match s {
        OrderSide::Buy => 66,  // 'B'
        OrderSide::Sell => 83,  // 'S'
        OrderSide::SellShort => 84,  // 'T'
        OrderSide::SellShortExempt => 69,  // 'E'
    }
}

impl OrderSide {
    pub fn to_u8(self) -> (r: u8)
        ensures
            r == spec_order_side_byte(self),
    {
        match self {
            OrderSide::Buy => 66,
            OrderSide::Sell => 83,
            OrderSide::SellShort => 84,
            OrderSide::SellShortExempt => 69,
        }
    }
}

/// The largest finite price: four decimal places over a u64 raw value.
pub const PRICE_MAX_RAW: u64 = 1_999_999_900;

/// The raw value that marks a market order.
pub const PRICE_MARKET_RAW: u64 = 2_000_000_000;

/// The raw value that marks a market cross order.
pub const PRICE_MARKET_CROSS_RAW: u64 = 2_147_483_647;

/// An unsigned four-decimal-place price.
#[derive(Clone, Copy, Debug, Default, PartialEq, Eq, Structural)]
pub struct Price(pub u64);

impl Price {
    /// The market sentinel.
    pub fn market() -> (r: Price)
        ensures
            r.0 == PRICE_MARKET_RAW,
    {
        Price(PRICE_MARKET_RAW)
    }

    /// The market-cross sentinel.
    pub fn market_cross() -> (r: Price)
        ensures
            r.0 == PRICE_MARKET_CROSS_RAW,
    {
        Price(PRICE_MARKET_CROSS_RAW)
    }

    /// The largest finite price.
    pub fn max_value() -> (r: Price)
        ensures
            r.0 == PRICE_MAX_RAW,
    {
        Price(PRICE_MAX_RAW)
    }

    /// A finite price from a raw value; sentinels and out-of-range values
    /// are refused.
    pub fn from_raw(raw: u64) -> (r: Option<Price>)
        ensures
            raw <= PRICE_MAX_RAW ==> r == Some(Price(raw)),
            raw > PRICE_MAX_RAW ==> r is None,
    {
        if raw <= PRICE_MAX_RAW {
            Some(Price(raw))
        } else {
            None
        }
    }

    /// The whole dollars and the four-place fraction.
    pub fn to_parts(self) -> (r: (u64, u64))
        ensures
            r.0 == self.0 / 10_000,
            r.1 == self.0 % 10_000,
    {
        (self.0 / 10_000, self.0 % 10_000)
    }

    pub fn is_market(self) -> (r: bool)
        ensures
            r == (self.0 == PRICE_MARKET_RAW || self.0 == PRICE_MARKET_CROSS_RAW || self.0
                == u64::MAX),
    {
        self.0 == PRICE_MARKET_RAW || self.0 == PRICE_MARKET_CROSS_RAW || self.0 == u64::MAX
    }

    pub fn is_market_cross(self) -> (r: bool)
        ensures
            r == (self.0 == PRICE_MARKET_CROSS_RAW),
    {
        self.0 == PRICE_MARKET_CROSS_RAW
    }

    /// The raw value's eight big-endian wire bytes.
    pub fn to_bytes(self) -> (r: Vec<u8>)
        ensures
            r@ == crate::wire::spec_u64_to_be_bytes(self.0),
    {
        crate::wire::u64_to_be_bytes(self.0)
    }
}

/// The largest finite signed price.
pub const SIGNED_PRICE_MAX_RAW: i32 = 1_999_999_900;

/// The raw value that marks a market order.
pub const SIGNED_PRICE_MARKET_RAW: i32 = 2_000_000_000;

/// The raw value that marks a market cross order.
pub const SIGNED_PRICE_MARKET_CROSS_RAW: i32 = 2_147_483_647;

/// A signed four-decimal-place price, for peg offsets.
#[derive(Clone, Copy, Debug, Default, PartialEq, Eq, Structural)]
pub struct SignedPrice(pub i32);

impl SignedPrice {
    pub fn market() -> (r: SignedPrice)
        ensures
            r.0 == SIGNED_PRICE_MARKET_RAW,
    {
        SignedPrice(SIGNED_PRICE_MARKET_RAW)
    }

    pub fn market_cross() -> (r: SignedPrice)
        ensures
            r.0 == SIGNED_PRICE_MARKET_CROSS_RAW,
    {
        SignedPrice(SIGNED_PRICE_MARKET_CROSS_RAW)
    }

    pub fn is_market(self) -> (r: bool)
        ensures
            r == (self.0 == SIGNED_PRICE_MARKET_RAW || self.0 == SIGNED_PRICE_MARKET_CROSS_RAW),
    {
        self.0 == SIGNED_PRICE_MARKET_RAW || self.0 == SIGNED_PRICE_MARKET_CROSS_RAW
    }

    pub fn is_market_cross(self) -> (r: bool)
        ensures
            r == (self.0 == SIGNED_PRICE_MARKET_CROSS_RAW),
    {
        self.0 == SIGNED_PRICE_MARKET_CROSS_RAW
    }

    /// The raw value's four big-endian wire bytes, two's complement.
    pub fn to_bytes(self) -> (r: Vec<u8>)
        ensures
            r@ == crate::wire::spec_u32_to_be_bytes(self.0 as u32),
    {
        crate::wire::u32_to_be_bytes(#[verifier::truncate] (self.0 as u32))
    }
}

} // verus!
