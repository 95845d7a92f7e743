//! OUCH v5 order-entry wire types: the tagged fields of the inbound and
//! outbound messages, the optional appendage, and the enter-order encoding.
//! Each tag-value of an appendage encodes as one length byte (one plus the
//! value's byte count, covering the tag byte), the tag byte, then the value;
//! the appendage itself is prefixed by its big-endian 16-bit byte count.
use crate::nasdaq;
use crate::wire::{spec_u32_to_be_bytes, spec_u64_to_be_bytes, u32_to_be_bytes, u64_to_be_bytes};
use vstd::prelude::*;
use vstd::slice::slice_to_vec;

verus! {

/// The protocol revision this module speaks.
pub const REVISION: u8 = 5;

/// A day-unique order reference number.
#[derive(Clone, Copy, Debug, PartialEq, Eq, PartialOrd, Ord, Hash, Structural)]
pub struct UserRefNum(pub u32);

impl UserRefNum {
    /// The next reference number.
    pub fn incr(self) -> (r: UserRefNum)
        requires
            self.0 < u32::MAX,
        ensures
            r.0 == self.0 + 1,
    {
        UserRefNum(self.0 + 1)
    }

    /// The reference number `n` past this one.
    pub fn add(self, n: u32) -> (r: UserRefNum)
        requires
            self.0 + n <= u32::MAX,
        ensures
            r.0 == self.0 + n,
    {
        UserRefNum(self.0 + n)
    }

    /// The four big-endian wire bytes.
    pub fn to_bytes(self) -> (r: Vec<u8>)
        ensures
            r@ == spec_u32_to_be_bytes(self.0),
    {
        u32_to_be_bytes(self.0)
    }
}

pub const CL_ORD_ID_LEN: usize = 14;

/// Whether a byte is ASCII alphanumeric.
pub open spec fn spec_alnum(b: u8) -> bool {
    (48 <= b <= 57) || (65 <= b <= 90) || (97 <= b <= 122)
}

/// A fourteen-byte client order id of ASCII alphanumerics.
#[derive(Clone, Debug, PartialEq, Eq, Hash)]
pub struct ClOrdId {
    bytes: Vec<u8>,
}

impl View for ClOrdId {
    type V = Seq<u8>;

    closed spec fn view(&self) -> Seq<u8> {
        self.bytes@
    }
}

impl ClOrdId {
    pub open spec fn wf(self) -> bool {
        self@.len() == CL_ORD_ID_LEN
    }

    /// Accepts exactly fourteen alphanumeric bytes; anything else is refused.
    pub fn from_bytes(bytes: &[u8]) -> (r: Option<ClOrdId>)
        ensures
            bytes@.len() == CL_ORD_ID_LEN && (forall|i: int|
                0 <= i < bytes@.len() ==> spec_alnum(#[trigger] bytes@[i])) ==> (r matches Some(c)
                && c@ == bytes@ && c.wf()),
            !(bytes@.len() == CL_ORD_ID_LEN && (forall|i: int|
                0 <= i < bytes@.len() ==> spec_alnum(#[trigger] bytes@[i]))) ==> r is None,
    {
        if bytes.len() != CL_ORD_ID_LEN {
            return None;
        }
        let mut i: usize = 0;
        while i < CL_ORD_ID_LEN
            invariant
                bytes@.len() == CL_ORD_ID_LEN,
                i <= CL_ORD_ID_LEN,
                forall|k: int| 0 <= k < i ==> spec_alnum(#[trigger] bytes@[k]),
            decreases CL_ORD_ID_LEN - i,
        {
            let b = bytes[i];
            if !((48 <= b && b <= 57) || (65 <= b && b <= 90) || (97 <= b && b <= 122)) {
                proof {
                    assert(!spec_alnum(bytes@[i as int]));
                }
                return None;
            }
            i += 1;
        }
        Some(ClOrdId { bytes: slice_to_vec(bytes) })
    }

    pub fn as_bytes(&self) -> (r: &[u8])
        ensures
            r@ == self@,
    {
        self.bytes.as_slice()
    }
}

/// How long an order lives.
#[derive(Clone, Copy, PartialEq, Eq, Debug, Structural)]
pub enum TimeInForce {
    Day,
    Ioc,
    Gtx,
    Gtt,
    AfterHours,
}

pub open spec fn spec_tif_byte(v: TimeInForce) -> u8 {
    match v {
        TimeInForce::Day => 48,  // '0'
        TimeInForce::Ioc => 51,  // '3'
        TimeInForce::Gtx => 53,  // '5'
        TimeInForce::Gtt => 54,  // '6'
        TimeInForce::AfterHours => 69,  // 'E'
    }
}

impl TimeInForce {
    pub fn to_u8(self) -> (r: u8)
        ensures
            r == spec_tif_byte(self),
    {
        match self {
            TimeInForce::Day => 48,
            TimeInForce::Ioc => 51,
            TimeInForce::Gtx => 53,
            TimeInForce::Gtt => 54,
            TimeInForce::AfterHours => 69,
        }
    }
}

/// How an order shows in the book.
#[derive(Clone, Copy, PartialEq, Eq, Debug, Structural)]
pub enum Display {
    Visible,
    Hidden,
    Attributable,
}

pub open spec fn spec_display_byte(v: Display) -> u8 {
    match v {
        Display::Visible => 89,  // 'Y'
        Display::Hidden => 78,  // 'N'
        Display::Attributable => 65,  // 'A'
    }
}

impl Display {
    pub fn to_u8(self) -> (r: u8)
        ensures
            r == spec_display_byte(self),
    {
        match self {
            Display::Visible => 89,
            Display::Hidden => 78,
            Display::Attributable => 65,
        }
    }
}

/// In what capacity the order is entered.
#[derive(Clone, Copy, PartialEq, Eq, Debug, Structural)]
pub enum Capacity {
    Agency,
    Principal,
    Riskless,
    Other,
}

pub open spec fn spec_capacity_byte(v: Capacity) -> u8 {
    match v {
        Capacity::Agency => 65,  // 'A'
        Capacity::Principal => 80,  // 'P'
        Capacity::Riskless => 82,  // 'R'
        Capacity::Other => 79,  // 'O'
    }
}

impl Capacity {
    pub fn to_u8(self) -> (r: u8)
        ensures
            r == spec_capacity_byte(self),
    {
        match self {
            Capacity::Agency => 65,
            Capacity::Principal => 80,
            Capacity::Riskless => 82,
            Capacity::Other => 79,
        }
    }
}

/// Whether the order may sweep across markets.
#[derive(Clone, Copy, PartialEq, Eq, Debug, Structural)]
pub enum InterMarketSweepEligibility {
    Eligible,
    NotEligible,
}

pub open spec fn spec_imse_byte(v: InterMarketSweepEligibility) -> u8 {
    match v {
        InterMarketSweepEligibility::Eligible => 89,  // 'Y'
        InterMarketSweepEligibility::NotEligible => 78,  // 'N'
    }
}

impl InterMarketSweepEligibility {
    pub fn to_u8(self) -> (r: u8)
        ensures
            r == spec_imse_byte(self),
    {
        match self {
            InterMarketSweepEligibility::Eligible => 89,
            InterMarketSweepEligibility::NotEligible => 78,
        }
    }
}

pub type IMSE = InterMarketSweepEligibility;

/// Which cross the order participates in.
#[derive(Clone, Copy, PartialEq, Eq, Debug, Structural)]
pub enum CrossType {
    ContinuousMarket,
    OpeningCross,
    ClosingCross,
    HaltIpo,
    Supplemental,
    Retail,
    ExtendedLife,
    AfterHoursClose,
}

pub open spec fn spec_cross_type_byte(v: CrossType) -> u8 {
    match v {
        CrossType::ContinuousMarket => 78,  // 'N'
        CrossType::OpeningCross => 79,  // 'O'
        CrossType::ClosingCross => 67,  // 'C'
        CrossType::HaltIpo => 72,  // 'H'
        CrossType::Supplemental => 83,  // 'S'
        CrossType::Retail => 82,  // 'R'
        CrossType::ExtendedLife => 69,  // 'E'
        CrossType::AfterHoursClose => 65,  // 'A'
    }
}

impl CrossType {
    pub fn to_u8(self) -> (r: u8)
        ensures
            r == spec_cross_type_byte(self),
    {
        match self {
            CrossType::ContinuousMarket => 78,
            CrossType::OpeningCross => 79,
            CrossType::ClosingCross => 67,
            CrossType::HaltIpo => 72,
            CrossType::Supplemental => 83,
            CrossType::Retail => 82,
            CrossType::ExtendedLife => 69,
            CrossType::AfterHoursClose => 65,
        }
    }
}

/// Whether the order is retail-designated.
#[derive(Clone, Copy, PartialEq, Eq, Debug, Structural)]
pub enum CustomerType {
    RetailDesignatedOrder,
    NotRetailDesignated,
    UsePortDefault,
}

pub open spec fn spec_customer_type_byte(v: CustomerType) -> u8 {
    match v {
        CustomerType::RetailDesignatedOrder => 82,  // 'R'
        CustomerType::NotRetailDesignated => 78,  // 'N'
        CustomerType::UsePortDefault => 32,  // ' '
    }
}

impl CustomerType {
    /// The value an enter-order carries unless overridden.
    pub fn default_enter_order() -> (r: CustomerType)
        ensures
            r == CustomerType::UsePortDefault,
    {
        CustomerType::UsePortDefault
    }

    pub fn to_u8(self) -> (r: u8)
        ensures
            r == spec_customer_type_byte(self),
    {
        match self {
            CustomerType::RetailDesignatedOrder => 82,
            CustomerType::NotRetailDesignated => 78,
            CustomerType::UsePortDefault => 32,
        }
    }
}

/// How the price field is to be read.
#[derive(Clone, Copy, PartialEq, Eq, Debug, Structural)]
pub enum PriceType {
    Limit,
    MarketPeg,
    MidpointPeg,
    PrimaryPeg,
    MarketMakerPeg,
    Midpoint,
}

pub open spec fn spec_price_type_byte(v: PriceType) -> u8 {
    match v {
        PriceType::Limit => 76,  // 'L'
        PriceType::MarketPeg => 80,  // 'P'
        PriceType::MidpointPeg => 77,  // 'M'
        PriceType::PrimaryPeg => 82,  // 'R'
        PriceType::MarketMakerPeg => 81,  // 'Q'
        PriceType::Midpoint => 109,  // 'm'
    }
}

impl PriceType {
    /// The value an enter-order carries unless overridden.
    pub fn default_enter_order() -> (r: PriceType)
        ensures
            r == PriceType::Limit,
    {
        PriceType::Limit
    }

    pub fn to_u8(self) -> (r: u8)
        ensures
            r == spec_price_type_byte(self),
    {
        match self {
            PriceType::Limit => 76,
            PriceType::MarketPeg => 80,
            PriceType::MidpointPeg => 77,
            PriceType::PrimaryPeg => 82,
            PriceType::MarketMakerPeg => 81,
            PriceType::Midpoint => 109,
        }
    }
}

/// Whether the order may only add liquidity.
#[derive(Clone, Copy, PartialEq, Eq, Debug, Structural)]
pub enum PostOnly {
    PostOnly,
    No,
}

pub open spec fn spec_post_only_byte(v: PostOnly) -> u8 {
    match v {
        PostOnly::PostOnly => 80,  // 'P'
        PostOnly::No => 78,  // 'N'
    }
}

impl PostOnly {
    /// The value an enter-order carries unless overridden.
    pub fn default_enter_order() -> (r: PostOnly)
        ensures
            r == PostOnly::No,
    {
        PostOnly::No
    }

    pub fn to_u8(self) -> (r: u8)
        ensures
            r == spec_post_only_byte(self),
    {
        match self {
            PostOnly::PostOnly => 80,
            PostOnly::No => 78,
        }
    }
}

/// Whether the order may trade at once on entry.
#[derive(Clone, Copy, PartialEq, Eq, Debug, Structural)]
pub enum TradeNow {
    UsePortDefault,
    Yes,
    No,
}

pub open spec fn spec_trade_now_byte(v: TradeNow) -> u8 {
    match v {
        TradeNow::UsePortDefault => 32,  // ' '
        TradeNow::Yes => 89,  // 'Y'
        TradeNow::No => 78,  // 'N'
    }
}

impl TradeNow {
    pub fn from_bool(b: bool) -> (r: TradeNow)
        ensures
            b ==> r == TradeNow::Yes,
            !b ==> r == TradeNow::No,
    {
        if b {
            TradeNow::Yes
        } else {
            TradeNow::No
        }
    }

    pub fn from_bool_opt(o: Option<bool>) -> (r: TradeNow)
        ensures
            o == Some(true) ==> r == TradeNow::Yes,
            o == Some(false) ==> r == TradeNow::No,
            o is None ==> r == TradeNow::UsePortDefault,
    {
        match o {
            Some(b) => TradeNow::from_bool(b),
            None => TradeNow::UsePortDefault,
        }
    }

    /// The value an enter-order carries unless overridden.
    pub fn default_enter_order() -> (r: TradeNow)
        ensures
            r == TradeNow::UsePortDefault,
    {
        TradeNow::UsePortDefault
    }

    pub fn to_bool_opt(self) -> (r: Option<bool>)
        ensures
            self == TradeNow::UsePortDefault ==> r is None,
            self == TradeNow::Yes ==> r == Some(true),
            self == TradeNow::No ==> r == Some(false),
    {
        match self {
            TradeNow::UsePortDefault => None,
            TradeNow::Yes => Some(true),
            TradeNow::No => Some(false),
        }
    }

    pub fn to_u8(self) -> (r: u8)
        ensures
            r == spec_trade_now_byte(self),
    {
        match self {
            TradeNow::UsePortDefault => 32,
            TradeNow::Yes => 89,
            TradeNow::No => 78,
        }
    }
}

/// Whether shares have been located for a short sale.
#[derive(Clone, Copy, PartialEq, Eq, Debug, Structural)]
pub enum SharesLocated {
    Yes,
    No,
}

pub open spec fn spec_shares_located_byte(v: SharesLocated) -> u8 {
    match v {
        SharesLocated::Yes => 89,  // 'Y'
        SharesLocated::No => 78,  // 'N'
    }
}

impl SharesLocated {
    pub fn from_bool(b: bool) -> (r: SharesLocated)
        ensures
            b ==> r == SharesLocated::Yes,
            !b ==> r == SharesLocated::No,
    {
        if b {
            SharesLocated::Yes
        } else {
            SharesLocated::No
        }
    }

    /// The value an enter-order carries unless overridden.
    pub fn default_enter_order() -> (r: SharesLocated)
        ensures
            r == SharesLocated::No,
    {
        SharesLocated::No
    }

    pub fn to_bool(self) -> (r: bool)
        ensures
            r == (self == SharesLocated::Yes),
    {
        match self {
            SharesLocated::Yes => true,
            SharesLocated::No => false,
        }
    }

    pub fn to_u8(self) -> (r: u8)
        ensures
            r == spec_shares_located_byte(self),
    {
        match self {
            SharesLocated::Yes => 89,
            SharesLocated::No => 78,
        }
    }
}

/// Special handling instructions.
#[derive(Clone, Copy, PartialEq, Eq, Debug, Structural)]
pub enum HandleInst {
    No,
    ImbalanceOnly,
    RetailOrderType1,
    RetailOrderType2,
    RetailPriceImprovement,
    ExtendedLifeContinuous,
    DirectListingCapitalRaise,
    /// Retail price improvement with the hidden price improvement indicator.
    RpiHpii,
}

pub open spec fn spec_handle_inst_byte(v: HandleInst) -> u8 {
    match v {
        HandleInst::No => 32,  // ' '
        HandleInst::ImbalanceOnly => 73,  // 'I'
        HandleInst::RetailOrderType1 => 79,  // 'O'
        HandleInst::RetailOrderType2 => 84,  // 'T'
        HandleInst::RetailPriceImprovement => 81,  // 'Q'
        HandleInst::ExtendedLifeContinuous => 66,  // 'B'
        HandleInst::DirectListingCapitalRaise => 68,  // 'D'
        HandleInst::RpiHpii => 82,  // 'R'
    }
}

impl HandleInst {
    /// The value an enter-order carries unless overridden.
    pub fn default_enter_order() -> (r: HandleInst)
        ensures
            r == HandleInst::No,
    {
        HandleInst::No
    }

    pub fn to_u8(self) -> (r: u8)
        ensures
            r == spec_handle_inst_byte(self),
    {
        match self {
            HandleInst::No => 32,
            HandleInst::ImbalanceOnly => 73,
            HandleInst::RetailOrderType1 => 79,
            HandleInst::RetailOrderType2 => 84,
            HandleInst::RetailPriceImprovement => 81,
            HandleInst::ExtendedLifeContinuous => 66,
            HandleInst::DirectListingCapitalRaise => 68,
            HandleInst::RpiHpii => 82,
        }
    }
}

/// How much weight the quote carries at the BBO.
#[derive(Clone, Copy, PartialEq, Eq, Debug, Structural)]
pub enum BboWeightIndicator {
    Unspecified,
    Pct0,
    Pct1,
    Pct2,
    Pct3,
    SetQbbo,
    ImproveNbbo,
}

pub open spec fn spec_bbo_weight_byte(v: BboWeightIndicator) -> u8 {
    match v {
        BboWeightIndicator::Unspecified => 32,  // ' '
        BboWeightIndicator::Pct0 => 48,  // '0'
        BboWeightIndicator::Pct1 => 49,  // '1'
        BboWeightIndicator::Pct2 => 50,  // '2'
        BboWeightIndicator::Pct3 => 51,  // '3'
        BboWeightIndicator::SetQbbo => 83,  // 'S'
        BboWeightIndicator::ImproveNbbo => 78,  // 'N'
    }
}

impl BboWeightIndicator {
    pub fn to_u8(self) -> (r: u8)
        ensures
            r == spec_bbo_weight_byte(self),
    {
        match self {
            BboWeightIndicator::Unspecified => 32,
            BboWeightIndicator::Pct0 => 48,
            BboWeightIndicator::Pct1 => 49,
            BboWeightIndicator::Pct2 => 50,
            BboWeightIndicator::Pct3 => 51,
            BboWeightIndicator::SetQbbo => 83,
            BboWeightIndicator::ImproveNbbo => 78,
        }
    }
}

pub const FIRM_LEN: usize = 4;

/// Whether `s` is a valid four-byte firm body: capitals and spaces only,
/// with no space after a capital.
pub open spec fn spec_firm_ok(s: Seq<u8>) -> bool {
    &&& s.len() == FIRM_LEN
    &&& forall|i: int| 0 <= i < s.len() ==> (65 <= #[trigger] s[i] <= 90 || s[i] == 32)
    &&& forall|i: int, j: int|
        0 <= i < j < s.len() ==> !(65 <= #[trigger] s[i] <= 90 && #[trigger] s[j] == 32)
}

/// A four-byte broker code.
#[derive(Clone, Debug, PartialEq, Eq, Hash)]
pub struct BrokerCode {
    bytes: Vec<u8>,
}

impl View for BrokerCode {
    type V = Seq<u8>;

    closed spec fn view(&self) -> Seq<u8> {
        self.bytes@
    }
}

impl BrokerCode {
    pub open spec fn wf(self) -> bool {
        self@.len() == FIRM_LEN
    }

    /// Accepts exactly four bytes of capitals and spaces with no space after
    /// a capital.
    pub fn new(bytes: &[u8]) -> (r: Result<BrokerCode, ()>)
        ensures
            spec_firm_ok(bytes@) ==> (r matches Ok(c) && c@ == bytes@ && c.wf()),
            !spec_firm_ok(bytes@) ==> r is Err,
    {
        match firm_bytes_checked(bytes) {
            Ok(v) => Ok(BrokerCode { bytes: v }),
            Err(_) => Err(()),
        }
    }

    /// The all-spaces code.
    pub fn empty() -> (r: BrokerCode)
        ensures
            r@ =~= Seq::new(FIRM_LEN as nat, |i: int| 32u8),
            r.wf(),
    {
        BrokerCode { bytes: firm_spaces() }
    }

    pub fn as_bytes(&self) -> (r: &[u8])
        ensures
            r@ == self@,
    {
        self.bytes.as_slice()
    }
}

/// A four-byte firm identifier.
#[derive(Clone, Debug, PartialEq, Eq, Hash)]
pub struct Firm {
    bytes: Vec<u8>,
}

impl View for Firm {
    type V = Seq<u8>;

    closed spec fn view(&self) -> Seq<u8> {
        self.bytes@
    }
}

impl Firm {
    pub open spec fn wf(self) -> bool {
        self@.len() == FIRM_LEN
    }

    /// Accepts exactly four bytes of capitals and spaces with no space after
    /// a capital.
    pub fn new(bytes: &[u8]) -> (r: Result<Firm, ()>)
        ensures
            spec_firm_ok(bytes@) ==> (r matches Ok(c) && c@ == bytes@ && c.wf()),
            !spec_firm_ok(bytes@) ==> r is Err,
    {
        match firm_bytes_checked(bytes) {
            Ok(v) => Ok(Firm { bytes: v }),
            Err(_) => Err(()),
        }
    }

    /// The all-spaces firm.
    pub fn empty() -> (r: Firm)
        ensures
            r@ =~= Seq::new(FIRM_LEN as nat, |i: int| 32u8),
            r.wf(),
    {
        Firm { bytes: firm_spaces() }
    }

    pub fn as_bytes(&self) -> (r: &[u8])
        ensures
            r@ == self@,
    {
        self.bytes.as_slice()
    }
}

/// Validate a four-byte firm body.
fn firm_bytes_checked(bytes: &[u8]) -> (r: Result<Vec<u8>, ()>)
    ensures
        spec_firm_ok(bytes@) ==> (r matches Ok(v) && v@ == bytes@),
        !spec_firm_ok(bytes@) ==> r is Err,
{
    if bytes.len() != FIRM_LEN {
        return Err(());
    }
    let mut in_letters = false;
    let mut i: usize = 0;
    while i < FIRM_LEN
        invariant
            bytes@.len() == FIRM_LEN,
            i <= FIRM_LEN,
            forall|k: int| 0 <= k < i ==> (65 <= #[trigger] bytes@[k] <= 90 || bytes@[k] == 32),
            forall|k: int, j: int|
                0 <= k < j < i ==> !(65 <= #[trigger] bytes@[k] <= 90 && #[trigger] bytes@[j]
                    == 32),
            in_letters == exists|k: int| 0 <= k < i && 65 <= #[trigger] bytes@[k] <= 90,
        decreases FIRM_LEN - i,
    {
        let b = bytes[i];
        if 65 <= b && b <= 90 {
            in_letters = true;
        } else if b == 32 {
            if in_letters {
                return Err(());
            }
        } else {
            return Err(());
        }
        i += 1;
    }
    Ok(slice_to_vec(bytes))
}

/// Four space bytes.
fn firm_spaces() -> (r: Vec<u8>)
    ensures
        r@ =~= Seq::new(FIRM_LEN as nat, |i: int| 32u8),
{
    let mut bytes: Vec<u8> = Vec::new();
    let mut i: usize = 0;
    while i < FIRM_LEN
        invariant
            i <= FIRM_LEN,
            bytes@ =~= Seq::new(i as nat, |j: int| 32u8),
        decreases FIRM_LEN - i,
    {
        bytes.push(32);
        i += 1;
    }
    bytes
}

/// One optional tagged value.
#[derive(Clone, Debug, PartialEq, Eq)]
pub enum OptionValue {
    SecondaryOrdRefNum(u64),
    Firm(Firm),
    MinQty(u32),
    CustomerType(CustomerType),
    MaxFloor(u32),
    PriceType(PriceType),
    PegOffset(nasdaq::SignedPrice),
    DiscretionPrice(nasdaq::Price),
    DiscretionPriceType(PriceType),
    DiscretionPegOffset(nasdaq::SignedPrice),
    PostOnly(PostOnly),
    RandomReserves(u32),
    Route(u32),
    ExpireTime(u32),
    TradeNow(TradeNow),
    HandleInst(HandleInst),
    BboWeightIndicator(BboWeightIndicator),
    DisplayQuantity(u32),
    DisplayPrice(nasdaq::Price),
    GroupId(u16),
    SharesLocated(SharesLocated),
    LocateBroker(BrokerCode),
    Side(nasdaq::OrderSide),
    UserRefIdx(u8),
}

/// The tag number of each optional value.
pub open spec fn spec_option_tag(v: OptionValue) -> u8 {
    match v {
        OptionValue::SecondaryOrdRefNum(_) => 1,
        OptionValue::Firm(_) => 2,
        OptionValue::MinQty(_) => 3,
        OptionValue::CustomerType(_) => 4,
        OptionValue::MaxFloor(_) => 5,
        OptionValue::PriceType(_) => 6,
        OptionValue::PegOffset(_) => 7,
        OptionValue::DiscretionPrice(_) => 9,
        OptionValue::DiscretionPriceType(_) => 10,
        OptionValue::DiscretionPegOffset(_) => 11,
        OptionValue::PostOnly(_) => 12,
        OptionValue::RandomReserves(_) => 13,
        OptionValue::Route(_) => 14,
        OptionValue::ExpireTime(_) => 15,
        OptionValue::TradeNow(_) => 16,
        OptionValue::HandleInst(_) => 17,
        OptionValue::BboWeightIndicator(_) => 18,
        OptionValue::DisplayQuantity(_) => 22,
        OptionValue::DisplayPrice(_) => 23,
        OptionValue::GroupId(_) => 24,
        OptionValue::SharesLocated(_) => 25,
        OptionValue::LocateBroker(_) => 26,
        OptionValue::Side(_) => 27,
        OptionValue::UserRefIdx(_) => 28,
    }
}

/// How many bytes each optional value occupies.
pub open spec fn spec_option_size(v: OptionValue) -> int {
    match v {
        OptionValue::SecondaryOrdRefNum(_) => 8,
        OptionValue::Firm(_) => 4,
        OptionValue::MinQty(_) => 4,
        OptionValue::CustomerType(_) => 1,
        OptionValue::MaxFloor(_) => 4,
        OptionValue::PriceType(_) => 1,
        OptionValue::PegOffset(_) => 4,
        OptionValue::DiscretionPrice(_) => 8,
        OptionValue::DiscretionPriceType(_) => 1,
        OptionValue::DiscretionPegOffset(_) => 4,
        OptionValue::PostOnly(_) => 1,
        OptionValue::RandomReserves(_) => 4,
        OptionValue::Route(_) => 4,
        OptionValue::ExpireTime(_) => 4,
        OptionValue::TradeNow(_) => 1,
        OptionValue::HandleInst(_) => 1,
        OptionValue::BboWeightIndicator(_) => 1,
        OptionValue::DisplayQuantity(_) => 4,
        OptionValue::DisplayPrice(_) => 8,
        OptionValue::GroupId(_) => 2,
        OptionValue::SharesLocated(_) => 1,
        OptionValue::LocateBroker(_) => 4,
        OptionValue::Side(_) => 1,
        OptionValue::UserRefIdx(_) => 1,
    }
}

/// An optional value whose embedded identifier (if any) has its full width.
pub open spec fn spec_option_wf(v: OptionValue) -> bool {
    match v {
        OptionValue::Firm(f) => f.wf(),
        OptionValue::LocateBroker(b) => b.wf(),
        _ => true,
    }
}

/// The wire bytes of each optional value.
pub open spec fn spec_option_value_bytes(v: OptionValue) -> Seq<u8> {
    match v {
        OptionValue::SecondaryOrdRefNum(x) => spec_u64_to_be_bytes(x),
        OptionValue::Firm(f) => f@,
        OptionValue::MinQty(x) => spec_u32_to_be_bytes(x),
        OptionValue::CustomerType(c) => seq![spec_customer_type_byte(c)],
        OptionValue::MaxFloor(x) => spec_u32_to_be_bytes(x),
        OptionValue::PriceType(t) => seq![spec_price_type_byte(t)],
        OptionValue::PegOffset(p) => spec_u32_to_be_bytes(p.0 as u32),
        OptionValue::DiscretionPrice(p) => spec_u64_to_be_bytes(p.0),
        OptionValue::DiscretionPriceType(t) => seq![spec_price_type_byte(t)],
        OptionValue::DiscretionPegOffset(p) => spec_u32_to_be_bytes(p.0 as u32),
        OptionValue::PostOnly(t) => seq![spec_post_only_byte(t)],
        OptionValue::RandomReserves(x) => spec_u32_to_be_bytes(x),
        OptionValue::Route(x) => spec_u32_to_be_bytes(x),
        OptionValue::ExpireTime(x) => spec_u32_to_be_bytes(x),
        OptionValue::TradeNow(t) => seq![spec_trade_now_byte(t)],
        OptionValue::HandleInst(t) => seq![spec_handle_inst_byte(t)],
        OptionValue::BboWeightIndicator(t) => seq![spec_bbo_weight_byte(t)],
        OptionValue::DisplayQuantity(x) => spec_u32_to_be_bytes(x),
        OptionValue::DisplayPrice(p) => spec_u64_to_be_bytes(p.0),
        OptionValue::GroupId(x) => crate::wire::spec_u16_to_be_bytes(x),
        OptionValue::SharesLocated(t) => seq![spec_shares_located_byte(t)],
        OptionValue::LocateBroker(b) => b@,
        OptionValue::Side(t) => seq![nasdaq::spec_order_side_byte(t)],
        OptionValue::UserRefIdx(x) => seq![x],
    }
}

impl OptionValue {
    /// How many bytes this value occupies on the wire.
    pub fn size(&self) -> (r: usize)
        ensures
            r == spec_option_size(*self),
    {
        match self {
            OptionValue::SecondaryOrdRefNum(_) => 8,
            OptionValue::Firm(_) => 4,
            OptionValue::MinQty(_) => 4,
            OptionValue::CustomerType(_) => 1,
            OptionValue::MaxFloor(_) => 4,
            OptionValue::PriceType(_) => 1,
            OptionValue::PegOffset(_) => 4,
            OptionValue::DiscretionPrice(_) => 8,
            OptionValue::DiscretionPriceType(_) => 1,
            OptionValue::DiscretionPegOffset(_) => 4,
            OptionValue::PostOnly(_) => 1,
            OptionValue::RandomReserves(_) => 4,
            OptionValue::Route(_) => 4,
            OptionValue::ExpireTime(_) => 4,
            OptionValue::TradeNow(_) => 1,
            OptionValue::HandleInst(_) => 1,
            OptionValue::BboWeightIndicator(_) => 1,
            OptionValue::DisplayQuantity(_) => 4,
            OptionValue::DisplayPrice(_) => 8,
            OptionValue::GroupId(_) => 2,
            OptionValue::SharesLocated(_) => 1,
            OptionValue::LocateBroker(_) => 4,
            OptionValue::Side(_) => 1,
            OptionValue::UserRefIdx(_) => 1,
        }
    }

    /// The tag number.
    pub fn tag(&self) -> (r: u8)
        ensures
            r == spec_option_tag(*self),
    {
        match self {
            OptionValue::SecondaryOrdRefNum(_) => 1,
            OptionValue::Firm(_) => 2,
            OptionValue::MinQty(_) => 3,
            OptionValue::CustomerType(_) => 4,
            OptionValue::MaxFloor(_) => 5,
            OptionValue::PriceType(_) => 6,
            OptionValue::PegOffset(_) => 7,
            OptionValue::DiscretionPrice(_) => 9,
            OptionValue::DiscretionPriceType(_) => 10,
            OptionValue::DiscretionPegOffset(_) => 11,
            OptionValue::PostOnly(_) => 12,
            OptionValue::RandomReserves(_) => 13,
            OptionValue::Route(_) => 14,
            OptionValue::ExpireTime(_) => 15,
            OptionValue::TradeNow(_) => 16,
            OptionValue::HandleInst(_) => 17,
            OptionValue::BboWeightIndicator(_) => 18,
            OptionValue::DisplayQuantity(_) => 22,
            OptionValue::DisplayPrice(_) => 23,
            OptionValue::GroupId(_) => 24,
            OptionValue::SharesLocated(_) => 25,
            OptionValue::LocateBroker(_) => 26,
            OptionValue::Side(_) => 27,
            OptionValue::UserRefIdx(_) => 28,
        }
    }

    /// The value's wire bytes.
    #[verifier::rlimit(60)]
    pub fn encode_value(&self) -> (r: Vec<u8>)
        ensures
            r@ == spec_option_value_bytes(*self),
            spec_option_wf(*self) ==> r@.len() == spec_option_size(*self),
    {
        let r = match self {
            OptionValue::SecondaryOrdRefNum(x) => u64_to_be_bytes(*x),
            OptionValue::Firm(f) => slice_to_vec(f.as_bytes()),
            OptionValue::MinQty(x) => u32_to_be_bytes(*x),
            OptionValue::CustomerType(c) => {
                let mut v: Vec<u8> = Vec::new();
                v.push(c.to_u8());
                proof {
                    assert(v@ =~= seq![spec_customer_type_byte(*c)]);
                }
                v
            },
            OptionValue::MaxFloor(x) => u32_to_be_bytes(*x),
            OptionValue::PriceType(t) => {
                let mut v: Vec<u8> = Vec::new();
                v.push(t.to_u8());
                proof {
                    assert(v@ =~= seq![spec_price_type_byte(*t)]);
                }
                v
            },
            OptionValue::PegOffset(p) => u32_to_be_bytes(#[verifier::truncate] (p.0 as u32)),
            OptionValue::DiscretionPrice(p) => u64_to_be_bytes(p.0),
            OptionValue::DiscretionPriceType(t) => {
                let mut v: Vec<u8> = Vec::new();
                v.push(t.to_u8());
                proof {
                    assert(v@ =~= seq![spec_price_type_byte(*t)]);
                }
                v
            },
            OptionValue::DiscretionPegOffset(p) => u32_to_be_bytes(
                #[verifier::truncate] (p.0 as u32),
            ),
            OptionValue::PostOnly(t) => {
                let mut v: Vec<u8> = Vec::new();
                v.push(t.to_u8());
                proof {
                    assert(v@ =~= seq![spec_post_only_byte(*t)]);
                }
                v
            },
            OptionValue::RandomReserves(x) => u32_to_be_bytes(*x),
            OptionValue::Route(x) => u32_to_be_bytes(*x),
            OptionValue::ExpireTime(x) => u32_to_be_bytes(*x),
            OptionValue::TradeNow(t) => {
                let mut v: Vec<u8> = Vec::new();
                v.push(t.to_u8());
                proof {
                    assert(v@ =~= seq![spec_trade_now_byte(*t)]);
                }
                v
            },
            OptionValue::HandleInst(t) => {
                let mut v: Vec<u8> = Vec::new();
                v.push(t.to_u8());
                proof {
                    assert(v@ =~= seq![spec_handle_inst_byte(*t)]);
                }
                v
            },
            OptionValue::BboWeightIndicator(t) => {
                let mut v: Vec<u8> = Vec::new();
                v.push(t.to_u8());
                proof {
                    assert(v@ =~= seq![spec_bbo_weight_byte(*t)]);
                }
                v
            },
            OptionValue::DisplayQuantity(x) => u32_to_be_bytes(*x),
            OptionValue::DisplayPrice(p) => u64_to_be_bytes(p.0),
            OptionValue::GroupId(x) => crate::wire::u16_to_be_bytes(*x),
            OptionValue::SharesLocated(t) => {
                let mut v: Vec<u8> = Vec::new();
                v.push(t.to_u8());
                proof {
                    assert(v@ =~= seq![spec_shares_located_byte(*t)]);
                }
                v
            },
            OptionValue::LocateBroker(b) => slice_to_vec(b.as_bytes()),
            OptionValue::Side(t) => {
                let mut v: Vec<u8> = Vec::new();
                v.push(t.to_u8());
                proof {
                    assert(v@ =~= seq![nasdaq::spec_order_side_byte(*t)]);
                }
                v
            },
            OptionValue::UserRefIdx(x) => {
                let mut v: Vec<u8> = Vec::new();
                v.push(*x);
                proof {
                    assert(v@ =~= seq![*x]);
                }
                v
            },
        };
        r
    }
}

/// One tag-value pairing of the optional appendage.
#[derive(Clone, Debug, PartialEq, Eq)]
pub struct TagValue {
    pub option_value: OptionValue,
}

/// The wire bytes of one tag-value: a length byte (one plus the value's
/// size, covering the tag byte), the tag byte, then the value.
pub open spec fn spec_tag_value_bytes(tv: TagValue) -> Seq<u8> {
    seq![(1 + spec_option_size(tv.option_value)) as u8, spec_option_tag(tv.option_value)]
        + spec_option_value_bytes(tv.option_value)
}

impl TagValue {
    /// The length byte: one plus the value's size, covering the tag byte.
    pub fn length(&self) -> (r: u8)
        ensures
            r == 1 + spec_option_size(self.option_value),
    {
        1 + (self.option_value.size() as u8)
    }

    /// This tag-value's wire bytes.
    pub fn encode(&self) -> (r: Vec<u8>)
        ensures
            r@ == spec_tag_value_bytes(*self),
            spec_option_wf(self.option_value) ==> r@.len() == 2 + spec_option_size(
                self.option_value,
            ),
    {
        let mut r: Vec<u8> = Vec::new();
        r.push(self.length());
        r.push(self.option_value.tag());
        let mut value = self.option_value.encode_value();
        r.append(&mut value);
        proof {
            assert(r@ =~= spec_tag_value_bytes(*self));
        }
        r
    }
}

/// How many tag-values an appendage can carry.
pub const APPENDAGE_MAX_LEN: usize = 65_535;

/// The concatenated tag-value bytes of an appendage.
pub open spec fn spec_appendage_body(tvs: Seq<TagValue>) -> Seq<u8>
    decreases tvs.len(),
{
    if tvs.len() == 0 {
        Seq::empty()
    } else {
        spec_appendage_body(tvs.drop_last()) + spec_tag_value_bytes(tvs.last())
    }
}

/// The optional appendage: a short run of tag-values.
#[derive(Clone, Debug, PartialEq, Eq)]
pub struct OptionalAppendage {
    tag_values: Vec<TagValue>,
}

impl View for OptionalAppendage {
    type V = Seq<TagValue>;

    closed spec fn view(&self) -> Seq<TagValue> {
        self.tag_values@
    }
}

impl OptionalAppendage {
    pub open spec fn wf(self) -> bool {
        self@.len() <= APPENDAGE_MAX_LEN
    }

    /// Accepts at most [`APPENDAGE_MAX_LEN`] tag-values; a longer vector is
    /// handed back.
    pub fn new(v: Vec<TagValue>) -> (r: Result<OptionalAppendage, Vec<TagValue>>)
        ensures
            v@.len() <= APPENDAGE_MAX_LEN ==> (r matches Ok(a) && a@ == v@ && a.wf()),
            v@.len() > APPENDAGE_MAX_LEN ==> (r matches Err(w) && w@ == v@),
    {
        if v.len() > APPENDAGE_MAX_LEN {
            return Err(v);
        }
        Ok(OptionalAppendage { tag_values: v })
    }

    /// The empty appendage.
    pub fn empty() -> (r: OptionalAppendage)
        ensures
            r@ == Seq::<TagValue>::empty(),
            r.wf(),
    {
        OptionalAppendage { tag_values: Vec::new() }
    }

    /// Append one tag-value; a full appendage hands it back.
    pub fn push(&mut self, tv: TagValue) -> (r: Result<(), TagValue>)
        ensures
            old(self)@.len() >= APPENDAGE_MAX_LEN ==> (r matches Err(t) && t == tv && final(self)@
                == old(self)@),
            old(self)@.len() < APPENDAGE_MAX_LEN ==> r is Ok && final(self)@ == old(self)@.push(tv),
    {
        if self.tag_values.len() >= APPENDAGE_MAX_LEN {
            return Err(tv);
        }
        self.tag_values.push(tv);
        Ok(())
    }

    /// Insert one tag-value at `index`; a full appendage hands it back.
    pub fn insert(&mut self, index: usize, tv: TagValue) -> (r: Result<(), TagValue>)
        requires
            index <= old(self)@.len(),
        ensures
            old(self)@.len() >= APPENDAGE_MAX_LEN ==> (r matches Err(t) && t == tv && final(self)@
                == old(self)@),
            old(self)@.len() < APPENDAGE_MAX_LEN ==> r is Ok && final(self)@ == old(
                self,
            )@.insert(index as int, tv),
    {
        if self.tag_values.len() >= APPENDAGE_MAX_LEN {
            return Err(tv);
        }
        self.tag_values.insert(index, tv);
        Ok(())
    }

    /// Remove and hand back the last tag-value.
    pub fn pop(&mut self) -> (r: Option<TagValue>)
        ensures
            old(self)@.len() == 0 ==> r is None && final(self)@ == old(self)@,
            old(self)@.len() > 0 ==> r == Some(old(self)@.last()) && final(self)@ == old(
                self,
            )@.drop_last(),
    {
        self.tag_values.pop()
    }

    /// Remove and hand back the tag-value at `index`.
    pub fn remove(&mut self, index: usize) -> (r: TagValue)
        requires
            index < old(self)@.len(),
        ensures
            r == old(self)@[index as int],
            final(self)@ == old(self)@.remove(index as int),
    {
        self.tag_values.remove(index)
    }

    pub fn into_inner(self) -> (r: Vec<TagValue>)
        ensures
            r@ == self@,
    {
        self.tag_values
    }

    pub fn len(&self) -> (r: usize)
        ensures
            r == self@.len(),
    {
        self.tag_values.len()
    }

    /// The tag-value at `index`.
    pub fn get(&self, index: usize) -> (r: &TagValue)
        requires
            index < self@.len(),
        ensures
            *r == self@[index as int],
    {
        &self.tag_values[index]
    }

    /// The appendage's wire bytes: the big-endian byte count of the
    /// tag-value run, then the run itself. The caller keeps the run's byte
    /// count within sixteen bits.
    pub fn encode(&self) -> (r: Vec<u8>)
        requires
            spec_appendage_body(self@).len() <= u16::MAX,
        ensures
            r@ == crate::wire::spec_u16_to_be_bytes(spec_appendage_body(self@).len() as u16)
                + spec_appendage_body(self@),
    {
        let mut body: Vec<u8> = Vec::new();
        let mut k: usize = 0;
        proof {
            assert(self@.subrange(0, 0) =~= Seq::<TagValue>::empty());
            assert(body@ =~= spec_appendage_body(self@.subrange(0, 0)));
        }
        while k < self.tag_values.len()
            invariant
                k <= self@.len(),
                body@ == spec_appendage_body(self@.subrange(0, k as int)),
                spec_appendage_body(self@.subrange(0, k as int)).len() <= spec_appendage_body(
                    self@,
                ).len(),
            decreases self@.len() - k,
        {
            proof {
                lemma_appendage_body_prefix(self@, (k + 1) as int);
                assert(self@.subrange(0, k + 1).drop_last() =~= self@.subrange(0, k as int));
                assert(self@.subrange(0, k + 1).last() == self@[k as int]);
            }
            let mut tv_bytes = self.tag_values[k].encode();
            body.append(&mut tv_bytes);
            k += 1;
        }
        proof {
            assert(self@.subrange(0, self@.len() as int) =~= self@);
        }
        let mut r = crate::wire::u16_to_be_bytes(body.len() as u16);
        r.append(&mut body);
        r
    }
}

/// Each prefix of the appendage body stays within the whole.
proof fn lemma_appendage_body_prefix(tvs: Seq<TagValue>, k: int)
    requires
        0 <= k <= tvs.len(),
    ensures
        spec_appendage_body(tvs.subrange(0, k)).len() <= spec_appendage_body(tvs).len(),
    decreases tvs.len() - k,
{
    if k == tvs.len() {
        assert(tvs.subrange(0, k) =~= tvs);
    } else {
        lemma_appendage_body_prefix(tvs, k + 1);
        assert(tvs.subrange(0, k + 1).drop_last() =~= tvs.subrange(0, k));
    }
}

/// A system-wide event marker.
#[derive(Clone, Copy, PartialEq, Eq, Debug, Structural)]
pub enum EventCode {
    StartOfDay,
    EndOfDay,
}

pub open spec fn spec_event_code_byte(v: EventCode) -> u8 {
    match v {
        EventCode::StartOfDay => 83,  // 'S'
        EventCode::EndOfDay => 69,  // 'E'
    }
}

impl EventCode {
    pub fn to_u8(self) -> (r: u8)
        ensures
            r == spec_event_code_byte(self),
    {
        match self {
            EventCode::StartOfDay => 83,
            EventCode::EndOfDay => 69,
        }
    }
}

/// Whether an order remains workable.
#[derive(Clone, Copy, PartialEq, Eq, Debug, Structural)]
pub enum OrderState {
    Live,
    Dead,
}

pub open spec fn spec_order_state_byte(v: OrderState) -> u8 {
    match v {
        OrderState::Live => 76,  // 'L'
        OrderState::Dead => 68,  // 'D'
    }
}

impl OrderState {
    pub fn to_u8(self) -> (r: u8)
        ensures
            r == spec_order_state_byte(self),
    {
        match self {
            OrderState::Live => 76,
            OrderState::Dead => 68,
        }
    }
}

/// Why an order was canceled.
#[derive(Clone, Copy, PartialEq, Eq, Debug, Structural)]
pub enum OrderCancelReason {
    RegulatoryRestriction,
    Closed,
    PostOnlyNms,
    PostOnlyContra,
    Halted,
    ImmediateOrCancel,
    MarketCollars,
    SelfMatchPrevention,
    Supervisory,
    Timeout,
    UserRequested,
    OpenProtection,
    SystemCancel,
    Exceeds,
}

pub open spec fn spec_cancel_reason_byte(v: OrderCancelReason) -> u8 {
    match v {
        OrderCancelReason::RegulatoryRestriction => 68,  // 'D'
        OrderCancelReason::Closed => 69,  // 'E'
        OrderCancelReason::PostOnlyNms => 70,  // 'F'
        OrderCancelReason::PostOnlyContra => 71,  // 'G'
        OrderCancelReason::Halted => 72,  // 'H'
        OrderCancelReason::ImmediateOrCancel => 73,  // 'I'
        OrderCancelReason::MarketCollars => 75,  // 'K'
        OrderCancelReason::SelfMatchPrevention => 81,  // 'Q'
        OrderCancelReason::Supervisory => 83,  // 'S'
        OrderCancelReason::Timeout => 84,  // 'T'
        OrderCancelReason::UserRequested => 85,  // 'U'
        OrderCancelReason::OpenProtection => 88,  // 'X'
        OrderCancelReason::SystemCancel => 90,  // 'Z'
        OrderCancelReason::Exceeds => 101,  // 'e'
    }
}

impl OrderCancelReason {
    pub fn to_u8(self) -> (r: u8)
        ensures
            r == spec_cancel_reason_byte(self),
    {
        match self {
            OrderCancelReason::RegulatoryRestriction => 68,
            OrderCancelReason::Closed => 69,
            OrderCancelReason::PostOnlyNms => 70,
            OrderCancelReason::PostOnlyContra => 71,
            OrderCancelReason::Halted => 72,
            OrderCancelReason::ImmediateOrCancel => 73,
            OrderCancelReason::MarketCollars => 75,
            OrderCancelReason::SelfMatchPrevention => 81,
            OrderCancelReason::Supervisory => 83,
            OrderCancelReason::Timeout => 84,
            OrderCancelReason::UserRequested => 85,
            OrderCancelReason::OpenProtection => 88,
            OrderCancelReason::SystemCancel => 90,
            OrderCancelReason::Exceeds => 101,
        }
    }
}

/// How an execution provided or took liquidity.
#[derive(Clone, Copy, PartialEq, Eq, Debug, Structural)]
pub enum LiquidityFlag {
    Added,
    ClosingCross,
    RetailDesigExec,
    HaltIpoCross,
    AfterHoursClosingCross,
    NonDisplayed,
    RpiOrder,
    HaltCross,
    ClosingCrossImbalanceOnly,
    OpeningCrossImbalanceOnly,
    RemovedLiquidity,
    PassiveMidpointExecution,
    MidpointExtended,
    OpeningCross,
    RemovedPrice,
    RmoRetailOrder,
    Removed,
    RetailOrderRpi,
    RetailOrderPrice,
    ReserveOrder,
    SupplementalOrderExecution,
    DisplayedNbbo,
    DisplayedQbbo,
    RpiOrderNoRpii,
}

/// The wire byte of each liquidity flag; the two displayed-quote flags share
/// a byte on the wire.
pub open spec fn spec_liquidity_flag_byte(v: LiquidityFlag) -> u8 {
    match v {
        LiquidityFlag::Added => 65,  // 'A'
        LiquidityFlag::ClosingCross => 67,  // 'C'
        LiquidityFlag::RetailDesigExec => 101,  // 'e'
        LiquidityFlag::HaltIpoCross => 72,  // 'H'
        LiquidityFlag::AfterHoursClosingCross => 105,  // 'i'
        LiquidityFlag::NonDisplayed => 74,  // 'J'
        LiquidityFlag::RpiOrder => 106,  // 'j'
        LiquidityFlag::HaltCross => 75,  // 'K'
        LiquidityFlag::ClosingCrossImbalanceOnly => 76,  // 'L'
        LiquidityFlag::OpeningCrossImbalanceOnly => 77,  // 'M'
        LiquidityFlag::RemovedLiquidity => 109,  // 'm'
        LiquidityFlag::PassiveMidpointExecution => 78,  // 'N'
        LiquidityFlag::MidpointExtended => 110,  // 'n'
        LiquidityFlag::OpeningCross => 79,  // 'O'
        LiquidityFlag::RemovedPrice => 112,  // 'p'
        LiquidityFlag::RmoRetailOrder => 113,  // 'q'
        LiquidityFlag::Removed => 82,  // 'R'
        LiquidityFlag::RetailOrderRpi => 114,  // 'r'
        LiquidityFlag::RetailOrderPrice => 116,  // 't'
        LiquidityFlag::ReserveOrder => 117,  // 'u'
        LiquidityFlag::SupplementalOrderExecution => 48,  // '0'
        LiquidityFlag::DisplayedNbbo => 55,  // '7'
        LiquidityFlag::DisplayedQbbo => 55,  // '7'
        LiquidityFlag::RpiOrderNoRpii => 49,  // '1'
    }
}

impl LiquidityFlag {
    pub fn to_u8(self) -> (r: u8)
        ensures
            r == spec_liquidity_flag_byte(self),
    {
        match self {
            LiquidityFlag::Added => 65,
            LiquidityFlag::ClosingCross => 67,
            LiquidityFlag::RetailDesigExec => 101,
            LiquidityFlag::HaltIpoCross => 72,
            LiquidityFlag::AfterHoursClosingCross => 105,
            LiquidityFlag::NonDisplayed => 74,
            LiquidityFlag::RpiOrder => 106,
            LiquidityFlag::HaltCross => 75,
            LiquidityFlag::ClosingCrossImbalanceOnly => 76,
            LiquidityFlag::OpeningCrossImbalanceOnly => 77,
            LiquidityFlag::RemovedLiquidity => 109,
            LiquidityFlag::PassiveMidpointExecution => 78,
            LiquidityFlag::MidpointExtended => 110,
            LiquidityFlag::OpeningCross => 79,
            LiquidityFlag::RemovedPrice => 112,
            LiquidityFlag::RmoRetailOrder => 113,
            LiquidityFlag::Removed => 82,
            LiquidityFlag::RetailOrderRpi => 114,
            LiquidityFlag::RetailOrderPrice => 116,
            LiquidityFlag::ReserveOrder => 117,
            LiquidityFlag::SupplementalOrderExecution => 48,
            LiquidityFlag::DisplayedNbbo => 55,
            LiquidityFlag::DisplayedQbbo => 55,
            LiquidityFlag::RpiOrderNoRpii => 49,
        }
    }
}

/// Why a broken trade was broken.
#[derive(Clone, Copy, PartialEq, Eq, Debug, Structural)]
pub enum BrokenReason {
    Erroneous,
    Consent,
    Supervisory,
    External,
}

pub open spec fn spec_broken_reason_byte(v: BrokenReason) -> u8 {
    match v {
        BrokenReason::Erroneous => 69,  // 'E'
        BrokenReason::Consent => 67,  // 'C'
        BrokenReason::Supervisory => 83,  // 'S'
        BrokenReason::External => 88,  // 'X'
    }
}

impl BrokenReason {
    pub fn to_u8(self) -> (r: u8)
        ensures
            r == spec_broken_reason_byte(self),
    {
        match self {
            BrokenReason::Erroneous => 69,
            BrokenReason::Consent => 67,
            BrokenReason::Supervisory => 83,
            BrokenReason::External => 88,
        }
    }
}

/// Why an order restated.
#[derive(Clone, Copy, PartialEq, Eq, Debug, Structural)]
pub enum RestateReason {
    RefreshOfDisplay,
    UpdateOfDisplayedPrice,
}

pub open spec fn spec_restate_reason_byte(v: RestateReason) -> u8 {
    match v {
        RestateReason::RefreshOfDisplay => 82,  // 'R'
        RestateReason::UpdateOfDisplayedPrice => 80,  // 'P'
    }
}

impl RestateReason {
    pub fn to_u8(self) -> (r: u8)
        ensures
            r == spec_restate_reason_byte(self),
    {
        match self {
            RestateReason::RefreshOfDisplay => 82,
            RestateReason::UpdateOfDisplayedPrice => 80,
        }
    }
}

/// Why an order was rejected, as the wire's 16-bit code.
#[derive(Clone, Copy, PartialEq, Eq, Debug, Structural)]
pub struct RejectReason(pub u16);

/// Enter a new order.
pub struct EnterOrder {
    pub user_ref_num: UserRefNum,
    pub side: nasdaq::OrderSide,
    pub quantity: u32,
    pub symbol: nasdaq::Symbol,
    pub price: nasdaq::Price,
    pub time_in_force: TimeInForce,
    pub display: Display,
    pub capacity: Capacity,
    pub inter_market_sweep_eligibility: InterMarketSweepEligibility,
    pub cross_type: CrossType,
    pub cl_ord_id: ClOrdId,
    pub optional_appendage: OptionalAppendage,
}

/// The message-type byte of an enter-order.
pub const ENTER_ORDER_TYPE: u8 = 79;

/// The fixed head of an enter-order's wire bytes: the type byte, reference
/// number, side, quantity, symbol, price, the five one-byte fields, and the
/// client order id.
pub open spec fn spec_enter_order_head(o: EnterOrder) -> Seq<u8> {
    seq![ENTER_ORDER_TYPE] + spec_u32_to_be_bytes(o.user_ref_num.0) + seq![
        nasdaq::spec_order_side_byte(o.side),
    ] + spec_u32_to_be_bytes(o.quantity) + o.symbol@ + spec_u64_to_be_bytes(o.price.0) + seq![
        spec_tif_byte(o.time_in_force),
        spec_display_byte(o.display),
        spec_capacity_byte(o.capacity),
        spec_imse_byte(o.inter_market_sweep_eligibility),
        spec_cross_type_byte(o.cross_type),
    ] + o.cl_ord_id@
}

impl EnterOrder {
    pub fn message_type() -> (r: u8)
        ensures
            r == ENTER_ORDER_TYPE,
    {
        ENTER_ORDER_TYPE
    }

    /// The full wire bytes: the fixed head, then the appendage with its
    /// length prefix.
    pub fn encode(&self) -> (r: Vec<u8>)
        requires
            spec_appendage_body(self.optional_appendage@).len() <= u16::MAX,
        ensures
            r@ == spec_enter_order_head(*self) + crate::wire::spec_u16_to_be_bytes(
                spec_appendage_body(self.optional_appendage@).len() as u16,
            ) + spec_appendage_body(self.optional_appendage@),
    {
        let mut buf: Vec<u8> = Vec::new();
        buf.push(ENTER_ORDER_TYPE);
        let mut part = self.user_ref_num.to_bytes();
        buf.append(&mut part);
        buf.push(self.side.to_u8());
        let mut part = u32_to_be_bytes(self.quantity);
        buf.append(&mut part);
        let mut part = slice_to_vec(self.symbol.as_bytes());
        buf.append(&mut part);
        let mut part = self.price.to_bytes();
        buf.append(&mut part);
        buf.push(self.time_in_force.to_u8());
        buf.push(self.display.to_u8());
        buf.push(self.capacity.to_u8());
        buf.push(self.inter_market_sweep_eligibility.to_u8());
        buf.push(self.cross_type.to_u8());
        let mut part = slice_to_vec(self.cl_ord_id.as_bytes());
        buf.append(&mut part);
        proof {
            assert(buf@ =~= spec_enter_order_head(*self));
        }
        let mut part = self.optional_appendage.encode();
        buf.append(&mut part);
        proof {
            assert(buf@ =~= spec_enter_order_head(*self) + crate::wire::spec_u16_to_be_bytes(
                spec_appendage_body(self.optional_appendage@).len() as u16,
            ) + spec_appendage_body(self.optional_appendage@));
        }
        buf
    }
}

/// Replace an open order.
pub struct ReplaceOrderRequest {
    pub orig_user_ref_num: UserRefNum,
    pub user_ref_num: UserRefNum,
    pub quantity: u32,
    pub price: nasdaq::Price,
    pub time_in_force: TimeInForce,
    pub display: Display,
    pub inter_market_sweep_eligibility: InterMarketSweepEligibility,
    pub cl_ord_id: ClOrdId,
    pub optional_appendage: OptionalAppendage,
}

/// The message-type byte of a replace request.
pub const REPLACE_ORDER_TYPE: u8 = 85;

/// Cancel an open order down to a quantity.
pub struct CancelOrderRequest {
    pub user_ref_num: UserRefNum,
    pub quantity: u32,
    pub optional_appendage: OptionalAppendage,
}

/// The message-type byte of a cancel request.
pub const CANCEL_ORDER_TYPE: u8 = 88;

/// Modify an open order's side or quantity.
pub struct ModifyOrderRequest {
    pub user_ref_num: UserRefNum,
    pub side: nasdaq::OrderSide,
    pub quantity: u32,
    pub optional_appendage: OptionalAppendage,
}

/// The message-type byte of a modify request.
pub const MODIFY_ORDER_TYPE: u8 = 77;

/// Cancel every open order of a firm in a symbol.
pub struct MassCancelRequest {
    pub user_ref_num: UserRefNum,
    pub firm: Firm,
    pub symbol: nasdaq::Symbol,
    pub optional_appendage: OptionalAppendage,
}

/// The message-type byte of a mass-cancel request.
pub const MASS_CANCEL_TYPE: u8 = 67;

/// Ask the port to stop accepting orders from a firm.
pub struct DisableOrderEntryRequest {
    pub user_ref_num: UserRefNum,
    pub firm: Firm,
    pub optional_appendage: OptionalAppendage,
}

/// The message-type byte of a disable request.
pub const DISABLE_ORDER_ENTRY_TYPE: u8 = 68;

/// Ask the port to accept orders from a firm again.
pub struct EnableOrderEntryRequest {
    pub user_ref_num: UserRefNum,
    pub firm: Firm,
    pub optional_appendage: OptionalAppendage,
}

/// The message-type byte of an enable request.
pub const ENABLE_ORDER_ENTRY_TYPE: u8 = 69;

/// Ask for the next available reference number.
pub struct AccountQueryRequest {
    pub optional_appendage: OptionalAppendage,
}

/// The message-type byte of an account query.
pub const ACCOUNT_QUERY_TYPE: u8 = 81;

/// A system event notification.
pub struct SystemEvent {
    pub timestamp: i64,
    pub event_code: EventCode,
}

/// The message-type byte of a system event.
pub const SYSTEM_EVENT_TYPE: u8 = 83;

/// An order was accepted onto the book.
pub struct OrderAccepted {
    pub timestamp: i64,
    pub user_ref_num: UserRefNum,
    pub side: nasdaq::OrderSide,
    pub quantity: u64,
    pub symbol: nasdaq::Symbol,
    pub price: nasdaq::Price,
    pub time_in_force: TimeInForce,
    pub display: Display,
    pub order_reference_number: u64,
    pub capacity: Capacity,
    pub inter_market_sweep_eligibility: InterMarketSweepEligibility,
    pub cross_type: CrossType,
    pub order_state: OrderState,
    pub cl_ord_id: ClOrdId,
    pub optional_appendage: OptionalAppendage,
}

/// The message-type byte of an order-accepted report.
pub const ORDER_ACCEPTED_TYPE: u8 = 65;

/// An order was replaced.
pub struct OrderReplaced {
    pub timestamp: i64,
    pub orig_user_ref_num: UserRefNum,
    pub user_ref_num: UserRefNum,
    pub side: nasdaq::OrderSide,
    pub quantity: u64,
    pub symbol: nasdaq::Symbol,
    pub price: nasdaq::Price,
    pub time_in_force: TimeInForce,
    pub display: Display,
    pub order_reference_number: u64,
    pub capacity: Capacity,
    pub inter_market_sweep_eligibility: InterMarketSweepEligibility,
    pub cross_type: CrossType,
    pub order_state: OrderState,
    pub cl_ord_id: ClOrdId,
    pub optional_appendage: OptionalAppendage,
}

/// The message-type byte of an order-replaced report.
pub const ORDER_REPLACED_TYPE: u8 = 85;

/// An order was canceled.
pub struct OrderCanceled {
    pub timestamp: i64,
    pub user_ref_num: UserRefNum,
    pub side: nasdaq::OrderSide,
    pub reason: OrderCancelReason,
    pub optional_appendage: OptionalAppendage,
}

/// The message-type byte of an order-canceled report.
pub const ORDER_CANCELED_TYPE: u8 = 67;

/// An order was canceled to prevent a self-match.
pub struct AiqCanceled {
    pub timestamp: i64,
    pub user_ref_num: UserRefNum,
    pub decrement_shares: u32,
    pub quantity_prevented_from_trading: u32,
    pub execution_price: nasdaq::Price,
    pub aiq_strategy: u8,
    pub optional_appendage: OptionalAppendage,
}

/// The message-type byte of a self-match-prevention report.
pub const AIQ_CANCELED_TYPE: u8 = 68;

/// An order traded.
pub struct OrderExecuted {
    pub timestamp: i64,
    pub user_ref_num: UserRefNum,
    pub quantity: u64,
    pub price: nasdaq::Price,
    pub liquidity_flag: LiquidityFlag,
    pub match_number: u64,
    pub optional_appendage: OptionalAppendage,
}

/// The message-type byte of an execution report.
pub const ORDER_EXECUTED_TYPE: u8 = 69;

/// A prior execution was broken.
pub struct BrokenTrade {
    pub timestamp: i64,
    pub user_ref_num: UserRefNum,
    pub match_number: u64,
    pub reason: BrokenReason,
    pub cl_ord_id: ClOrdId,
    pub optional_appendage: OptionalAppendage,
}

/// The message-type byte of a broken-trade report.
pub const BROKEN_TRADE_TYPE: u8 = 66;

/// An inbound request was rejected.
pub struct Rejected {
    pub timestamp: i64,
    pub user_ref_num: UserRefNum,
    pub reason: RejectReason,
    pub cl_ord_id: ClOrdId,
    pub optional_appendage: OptionalAppendage,
}

/// The message-type byte of a reject report.
pub const REJECTED_TYPE: u8 = 74;

/// A cancel is pending on a cross order.
pub struct CancelPending {
    pub timestamp: i64,
    pub user_ref_num: UserRefNum,
    pub optional_appendage: OptionalAppendage,
}

/// The message-type byte of a cancel-pending report.
pub const CANCEL_PENDING_TYPE: u8 = 80;

/// A cancel request was refused.
pub struct CancelReject {
    pub user_ref_num: UserRefNum,
    pub optional_appendage: OptionalAppendage,
}

/// The message-type byte of a cancel-reject report.
pub const CANCEL_REJECT_TYPE: u8 = 73;

/// An order's priority changed.
pub struct OrderPriorityUpdate {
    pub timestamp: i64,
    pub user_ref_num: UserRefNum,
    pub price: nasdaq::Price,
    pub display: Display,
    pub order_reference_number: u64,
    pub optional_appendage: OptionalAppendage,
}

/// The message-type byte of a priority-update report.
pub const ORDER_PRIORITY_UPDATE_TYPE: u8 = 84;

/// An order was modified.
pub struct OrderModified {
    pub timestamp: i64,
    pub user_ref_num: UserRefNum,
    pub side: nasdaq::OrderSide,
    pub quantity: u32,
    pub optional_appendage: OptionalAppendage,
}

/// The message-type byte of an order-modified report.
pub const ORDER_MODIFIED_TYPE: u8 = 77;

/// An order was restated.
pub struct OrderRestated {
    pub timestamp: i64,
    pub user_ref_num: UserRefNum,
    pub reason: RestateReason,
    pub optional_appendage: OptionalAppendage,
}

/// The message-type byte of a restatement report.
pub const ORDER_RESTATED_TYPE: u8 = 82;

/// A mass cancel completed.
pub struct MassCancelResponse {
    pub timestamp: i64,
    pub user_ref_num: UserRefNum,
    pub firm: Firm,
    pub symbol: nasdaq::Symbol,
    pub optional_appendage: OptionalAppendage,
}

/// The message-type byte of a mass-cancel response.
pub const MASS_CANCEL_RESPONSE_TYPE: u8 = 88;

/// Order entry was disabled for a firm.
pub struct DisableOrderEntryResponse {
    pub timestamp: i64,
    pub user_ref_num: UserRefNum,
    pub firm: Firm,
    pub optional_appendage: OptionalAppendage,
}

/// The message-type byte of a disable response.
pub const DISABLE_ORDER_ENTRY_RESPONSE_TYPE: u8 = 71;

/// Order entry was enabled for a firm.
pub struct EnableOrderEntryResponse {
    pub timestamp: i64,
    pub user_ref_num: UserRefNum,
    pub firm: Firm,
    pub optional_appendage: OptionalAppendage,
}

/// The message-type byte of an enable response.
pub const ENABLE_ORDER_ENTRY_RESPONSE_TYPE: u8 = 75;

/// The answer to an account query.
pub struct AccountQueryResponse {
    pub timestamp: i64,
    pub next_user_ref_num: UserRefNum,
    pub optional_appendage: OptionalAppendage,
}

/// The message-type byte of an account-query response.
pub const ACCOUNT_QUERY_RESPONSE_TYPE: u8 = 81;

} // verus!
