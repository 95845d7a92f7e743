//! SoupBinTCP v4 wire types: the fixed-width identifiers, the packet-type
//! table, and length-prefixed frames with bit-exact encode and decode.
use crate::digits::{
    lemma_dec_digits_len, lemma_dec_digits_ok, lemma_num_digits_le_20, push_dec_digits,
    spec_dec_digits, spec_pow10,
};
use crate::wire::{
    lemma_u16_be_bytes_inverse, lemma_u16_be_bytes_roundtrip, spec_u16_from_be_bytes,
    spec_u16_to_be_bytes, u16_from_be_bytes, u16_to_be_bytes,
};
use vstd::prelude::*;
use vstd::slice::{slice_subrange, slice_to_vec};

verus! {

/// The longest payload a frame can carry: the length field holds
/// `1 + payload_len` and is at most `0xFFFF`.
pub const MAX_PAYLOAD_LEN: usize = 0xFFFE;

pub const USERNAME_LEN: usize = 6;

pub const PASSWORD_LEN: usize = 10;

pub const SESSION_ID_LEN: usize = 10;

pub const SEQUENCE_NUMBER_LEN: usize = 20;

pub const SPACE: u8 = 32;

/// `s` padded with trailing spaces up to `len` bytes.
pub open spec fn spec_pad_right(s: Seq<u8>, len: nat) -> Seq<u8>
    recommends
        s.len() <= len,
{
    s + Seq::new((len - s.len()) as nat, |i: int| SPACE)
}

/// `s` padded with leading spaces up to `len` bytes.
pub open spec fn spec_pad_left(s: Seq<u8>, len: nat) -> Seq<u8>
    recommends
        s.len() <= len,
{
    Seq::new((len - s.len()) as nat, |i: int| SPACE) + s
}

/// A byte vector of `n` spaces.
fn spaces(n: usize) -> (r: Vec<u8>)
    ensures
        r@ =~= Seq::new(n as nat, |i: int| SPACE),
{
    let mut r: Vec<u8> = Vec::new();
    let mut i: usize = 0;
    while i < n
        invariant
            i <= n,
            r@ =~= Seq::new(i as nat, |j: int| SPACE),
        decreases n - i,
    {
        r.push(SPACE);
        i += 1;
    }
    r
}

/// `bytes` padded on the right with spaces up to `len`; `bytes` must fit.
fn pad_right(bytes: &[u8], len: usize) -> (r: Vec<u8>)
    requires
        bytes@.len() <= len,
    ensures
        r@ == spec_pad_right(bytes@, len as nat),
{
    let mut r = slice_to_vec(bytes);
    let mut pad = spaces(len - bytes.len());
    r.append(&mut pad);
    proof {
        assert(r@ =~= spec_pad_right(bytes@, len as nat));
    }
    r
}

/// `bytes` padded on the left with spaces up to `len`; `bytes` must fit.
fn pad_left(bytes: &[u8], len: usize) -> (r: Vec<u8>)
    requires
        bytes@.len() <= len,
    ensures
        r@ == spec_pad_left(bytes@, len as nat),
{
    let mut r = spaces(len - bytes.len());
    let mut tail = slice_to_vec(bytes);
    r.append(&mut tail);
    proof {
        assert(r@ =~= spec_pad_left(bytes@, len as nat));
    }
    r
}

/// An arbitrary-length frame payload of at most [`MAX_PAYLOAD_LEN`] bytes.
#[derive(Clone, Debug, PartialEq, Eq)]
pub struct Payload {
    bytes: Vec<u8>,
}

impl View for Payload {
    type V = Seq<u8>;

    closed spec fn view(&self) -> Seq<u8> {
        self.bytes@
    }
}

impl Payload {
    pub open spec fn wf(self) -> bool {
        self@.len() <= MAX_PAYLOAD_LEN
    }

    /// Accepts at most [`MAX_PAYLOAD_LEN`] bytes; a longer vector is handed
    /// back unchanged.
    pub fn new(bytes: Vec<u8>) -> (r: Result<Payload, Vec<u8>>)
        ensures
            bytes@.len() <= MAX_PAYLOAD_LEN ==> (r matches Ok(p) && p@ == bytes@ && p.wf()),
            bytes@.len() > MAX_PAYLOAD_LEN ==> (r matches Err(b) && b@ == bytes@),
    {
        if bytes.len() > MAX_PAYLOAD_LEN {
            return Err(bytes);
        }
        Ok(Payload { bytes })
    }

    /// The empty payload.
    pub fn empty() -> (r: Payload)
        ensures
            r@ == Seq::<u8>::empty(),
            r.wf(),
    {
        Payload { bytes: Vec::new() }
    }

    pub fn len(&self) -> (r: usize)
        ensures
            r == self@.len(),
    {
        self.bytes.len()
    }

    pub fn as_slice(&self) -> (r: &[u8])
        ensures
            r@ == self@,
    {
        self.bytes.as_slice()
    }

    pub fn into_inner(self) -> (r: Vec<u8>)
        ensures
            r@ == self@,
    {
        self.bytes
    }
}

/// A 6-byte username, right-padded with spaces.
#[derive(Clone, Debug, PartialEq, Eq, Hash)]
pub struct Username {
    bytes: Vec<u8>,
}

impl View for Username {
    type V = Seq<u8>;

    closed spec fn view(&self) -> Seq<u8> {
        self.bytes@
    }
}

impl Username {
    pub open spec fn wf(self) -> bool {
        self@.len() == USERNAME_LEN
    }

    /// Fails on over-length input; shorter input is right-padded with spaces.
    pub fn new(bytes: &[u8]) -> (r: Result<Username, ()>)
        ensures
            bytes@.len() <= USERNAME_LEN ==> (r matches Ok(u) && u@ == spec_pad_right(
                bytes@,
                USERNAME_LEN as nat,
            ) && u.wf()),
            bytes@.len() > USERNAME_LEN ==> r is Err,
    {
        if bytes.len() > USERNAME_LEN {
            return Err(());
        }
        Ok(Username { bytes: pad_right(bytes, USERNAME_LEN) })
    }

    /// As [`Username::new`], but over-length input is silently truncated.
    pub fn new_trunc(bytes: &[u8]) -> (r: Username)
        ensures
            bytes@.len() <= USERNAME_LEN ==> r@ == spec_pad_right(bytes@, USERNAME_LEN as nat),
            bytes@.len() > USERNAME_LEN ==> r@ == bytes@.subrange(0, USERNAME_LEN as int),
            r.wf(),
    {
        if bytes.len() <= USERNAME_LEN {
            Username { bytes: pad_right(bytes, USERNAME_LEN) }
        } else {
            Username { bytes: slice_to_vec(slice_subrange(bytes, 0, USERNAME_LEN)) }
        }
    }

    pub fn blank() -> (r: Username)
        ensures
            r@ == spec_pad_right(Seq::<u8>::empty(), USERNAME_LEN as nat),
            r.wf(),
    {
        Username { bytes: spaces(USERNAME_LEN) }
    }

    pub fn as_slice(&self) -> (r: &[u8])
        ensures
            r@ == self@,
    {
        self.bytes.as_slice()
    }

    pub fn into_inner(self) -> (r: Vec<u8>)
        ensures
            r@ == self@,
    {
        self.bytes
    }
}

/// A 10-byte password, right-padded with spaces.
#[derive(Clone, Debug, PartialEq, Eq, Hash)]
pub struct Password {
    bytes: Vec<u8>,
}

impl View for Password {
    type V = Seq<u8>;

    closed spec fn view(&self) -> Seq<u8> {
        self.bytes@
    }
}

impl Password {
    pub open spec fn wf(self) -> bool {
        self@.len() == PASSWORD_LEN
    }

    /// Fails on over-length input; shorter input is right-padded with spaces.
    pub fn new(bytes: &[u8]) -> (r: Result<Password, ()>)
        ensures
            bytes@.len() <= PASSWORD_LEN ==> (r matches Ok(p) && p@ == spec_pad_right(
                bytes@,
                PASSWORD_LEN as nat,
            ) && p.wf()),
            bytes@.len() > PASSWORD_LEN ==> r is Err,
    {
        if bytes.len() > PASSWORD_LEN {
            return Err(());
        }
        Ok(Password { bytes: pad_right(bytes, PASSWORD_LEN) })
    }

    /// As [`Password::new`], but over-length input is silently truncated.
    pub fn new_trunc(bytes: &[u8]) -> (r: Password)
        ensures
            bytes@.len() <= PASSWORD_LEN ==> r@ == spec_pad_right(bytes@, PASSWORD_LEN as nat),
            bytes@.len() > PASSWORD_LEN ==> r@ == bytes@.subrange(0, PASSWORD_LEN as int),
            r.wf(),
    {
        if bytes.len() <= PASSWORD_LEN {
            Password { bytes: pad_right(bytes, PASSWORD_LEN) }
        } else {
            Password { bytes: slice_to_vec(slice_subrange(bytes, 0, PASSWORD_LEN)) }
        }
    }

    pub fn blank() -> (r: Password)
        ensures
            r@ == spec_pad_right(Seq::<u8>::empty(), PASSWORD_LEN as nat),
            r.wf(),
    {
        Password { bytes: spaces(PASSWORD_LEN) }
    }

    pub fn as_slice(&self) -> (r: &[u8])
        ensures
            r@ == self@,
    {
        self.bytes.as_slice()
    }

    pub fn into_inner(self) -> (r: Vec<u8>)
        ensures
            r@ == self@,
    {
        self.bytes
    }
}

/// A 10-byte session id, left-padded with spaces. The all-spaces value is the
/// distinguished "blank" session meaning "current".
#[derive(Clone, Debug, PartialEq, Eq, Hash)]
pub struct SessionId {
    bytes: Vec<u8>,
}

impl View for SessionId {
    type V = Seq<u8>;

    closed spec fn view(&self) -> Seq<u8> {
        self.bytes@
    }
}

/// The all-spaces session id.
pub open spec fn spec_blank_session() -> Seq<u8> {
    Seq::new(SESSION_ID_LEN as nat, |i: int| SPACE)
}

impl SessionId {
    pub open spec fn wf(self) -> bool {
        self@.len() == SESSION_ID_LEN
    }

    /// Fails on over-length input; shorter input is left-padded with spaces.
    pub fn new(bytes: &[u8]) -> (r: Result<SessionId, ()>)
        ensures
            bytes@.len() <= SESSION_ID_LEN ==> (r matches Ok(s) && s@ == spec_pad_left(
                bytes@,
                SESSION_ID_LEN as nat,
            ) && s.wf()),
            bytes@.len() > SESSION_ID_LEN ==> r is Err,
    {
        if bytes.len() > SESSION_ID_LEN {
            return Err(());
        }
        Ok(SessionId { bytes: pad_left(bytes, SESSION_ID_LEN) })
    }

    /// As [`SessionId::new`], but over-length input is silently truncated.
    pub fn new_trunc(bytes: &[u8]) -> (r: SessionId)
        ensures
            bytes@.len() <= SESSION_ID_LEN ==> r@ == spec_pad_left(bytes@, SESSION_ID_LEN as nat),
            bytes@.len() > SESSION_ID_LEN ==> r@ == bytes@.subrange(0, SESSION_ID_LEN as int),
            r.wf(),
    {
        if bytes.len() <= SESSION_ID_LEN {
            SessionId { bytes: pad_left(bytes, SESSION_ID_LEN) }
        } else {
            SessionId { bytes: slice_to_vec(slice_subrange(bytes, 0, SESSION_ID_LEN)) }
        }
    }

    /// The blank ("current") session id.
    pub fn blank() -> (r: SessionId)
        ensures
            r@ == spec_blank_session(),
            r.wf(),
    {
        SessionId { bytes: spaces(SESSION_ID_LEN) }
    }

    /// Whether two ids hold the same bytes.
    pub fn matches(&self, other: &SessionId) -> (r: bool)
        requires
            self.wf(),
            other.wf(),
        ensures
            r == (self@ == other@),
    {
        let mut i: usize = 0;
        while i < SESSION_ID_LEN
            invariant
                self.wf(),
                other.wf(),
                i <= SESSION_ID_LEN,
                forall|j: int| 0 <= j < i ==> self@[j] == other@[j],
            decreases SESSION_ID_LEN - i,
        {
            if self.bytes[i] != other.bytes[i] {
                proof {
                    assert(self@[i as int] != other@[i as int]);
                }
                return false;
            }
            i += 1;
        }
        proof {
            assert(self@ =~= other@);
        }
        true
    }

    pub fn is_blank(&self) -> (r: bool)
        requires
            self.wf(),
        ensures
            r == (self@ == spec_blank_session()),
    {
        let mut i: usize = 0;
        while i < SESSION_ID_LEN
            invariant
                self.wf(),
                i <= SESSION_ID_LEN,
                forall|j: int| 0 <= j < i ==> self@[j] == SPACE,
            decreases SESSION_ID_LEN - i,
        {
            if self.bytes[i] != SPACE {
                proof {
                    assert(self@[i as int] != spec_blank_session()[i as int]);
                }
                return false;
            }
            i += 1;
        }
        proof {
            assert(self@ =~= spec_blank_session());
        }
        true
    }

    pub fn as_slice(&self) -> (r: &[u8])
        ensures
            r@ == self@,
    {
        self.bytes.as_slice()
    }

    pub fn into_inner(self) -> (r: Vec<u8>)
        ensures
            r@ == self@,
    {
        self.bytes
    }
}

/// A 20-byte sequence number: left-padded with spaces, ASCII decimal digits.
#[derive(Clone, Debug, PartialEq, Eq, Hash)]
pub struct SequenceNumber {
    bytes: Vec<u8>,
}

impl View for SequenceNumber {
    type V = Seq<u8>;

    closed spec fn view(&self) -> Seq<u8> {
        self.bytes@
    }
}

/// The 20-byte wire form of `n`: its decimal digits, left-padded with spaces.
pub open spec fn spec_seq_num_bytes(n: nat) -> Seq<u8> {
    spec_pad_left(spec_dec_digits(n), SEQUENCE_NUMBER_LEN as nat)
}

/// The strict scan of a sequence-number field, mirrored by
/// [`SequenceNumber::to_u64_opt`]: spaces may only precede the digits, every
/// other byte is rejected, and a field with no digits reads as zero.
/// The value is unbounded here; the executable scan also rejects values that
/// do not fit in a `u64`.
pub open spec fn spec_seq_num_scan(s: Seq<u8>, i: int, in_num: bool, acc: nat) -> Option<nat>
    decreases s.len() - i,
{
    if i < 0 || i > s.len() {
        None
    } else if i == s.len() {
        Some(acc)
    } else if 48 <= s[i] <= 57 {
        spec_seq_num_scan(s, i + 1, true, acc * 10 + (s[i] - 48) as nat)
    } else if s[i] == SPACE {
        if in_num {
            None
        } else {
            spec_seq_num_scan(s, i + 1, in_num, acc)
        }
    } else {
        None
    }
}

/// The numeric value of a sequence-number field under the strict scan.
pub open spec fn spec_seq_num_value(s: Seq<u8>) -> Option<nat> {
    spec_seq_num_scan(s, 0, false, 0)
}

/// The strict scan never shrinks its accumulator.
proof fn lemma_scan_monotone(s: Seq<u8>, i: int, in_num: bool, acc: nat)
    ensures
        spec_seq_num_scan(s, i, in_num, acc) matches Some(v) ==> v >= acc,
    decreases s.len() - i,
{
    if 0 <= i < s.len() {
        if 48 <= s[i] <= 57 {
            lemma_scan_monotone(s, i + 1, true, acc * 10 + (s[i] - 48) as nat);
        } else if s[i] == SPACE && !in_num {
            lemma_scan_monotone(s, i + 1, in_num, acc);
        }
    }
}

/// The loose read mirrored by [`SequenceNumber::to_u64`]: every digit byte
/// contributes, every other byte is skipped.
pub open spec fn spec_loose_value(s: Seq<u8>) -> nat
    decreases s.len(),
{
    if s.len() == 0 {
        0
    } else if 48 <= s[s.len() - 1] <= 57 {
        spec_loose_value(s.drop_last()) * 10 + (s[s.len() - 1] - 48) as nat
    } else {
        spec_loose_value(s.drop_last())
    }
}

impl SequenceNumber {
    pub open spec fn wf(self) -> bool {
        self@.len() == SEQUENCE_NUMBER_LEN
    }

    /// The zero sequence number: nineteen spaces and a trailing `0`.
    pub fn zero() -> (r: SequenceNumber)
        ensures
            r@ == spec_seq_num_bytes(0),
            r.wf(),
    {
        let mut bytes = spaces(SEQUENCE_NUMBER_LEN - 1);
        bytes.push(48);
        proof {
            assert(bytes@ =~= spec_seq_num_bytes(0));
        }
        SequenceNumber { bytes }
    }

    /// Fails on over-length input; shorter input is left-padded with spaces.
    pub fn new(bytes: &[u8]) -> (r: Result<SequenceNumber, ()>)
        ensures
            bytes@.len() <= SEQUENCE_NUMBER_LEN ==> (r matches Ok(s) && s@ == spec_pad_left(
                bytes@,
                SEQUENCE_NUMBER_LEN as nat,
            ) && s.wf()),
            bytes@.len() > SEQUENCE_NUMBER_LEN ==> r is Err,
    {
        if bytes.len() > SEQUENCE_NUMBER_LEN {
            return Err(());
        }
        Ok(SequenceNumber { bytes: pad_left(bytes, SEQUENCE_NUMBER_LEN) })
    }

    /// As [`SequenceNumber::new`], but over-length input is silently truncated.
    pub fn new_trunc(bytes: &[u8]) -> (r: SequenceNumber)
        ensures
            bytes@.len() <= SEQUENCE_NUMBER_LEN ==> r@ == spec_pad_left(
                bytes@,
                SEQUENCE_NUMBER_LEN as nat,
            ),
            bytes@.len() > SEQUENCE_NUMBER_LEN ==> r@ == bytes@.subrange(
                0,
                SEQUENCE_NUMBER_LEN as int,
            ),
            r.wf(),
    {
        if bytes.len() <= SEQUENCE_NUMBER_LEN {
            SequenceNumber { bytes: pad_left(bytes, SEQUENCE_NUMBER_LEN) }
        } else {
            SequenceNumber { bytes: slice_to_vec(slice_subrange(bytes, 0, SEQUENCE_NUMBER_LEN)) }
        }
    }

    /// The wire form of `n`: decimal digits, left-padded with spaces.
    pub fn from_u64(n: u64) -> (r: SequenceNumber)
        ensures
            r@ == spec_seq_num_bytes(n as nat),
            r.wf(),
    {
        if n == 0 {
            return SequenceNumber::zero();
        }
        let mut digits: Vec<u8> = Vec::new();
        push_dec_digits(&mut digits, n);
        proof {
            lemma_dec_digits_len(n as nat);
            lemma_num_digits_le_20(n as nat);
        }
        SequenceNumber { bytes: pad_left(digits.as_slice(), SEQUENCE_NUMBER_LEN) }
    }

    /// The loose numeric read: every digit byte contributes, all other bytes
    /// are skipped. Values that would not fit in a `u64` saturate the scan and
    /// are reported as `u64::MAX`.
    pub fn to_u64(&self) -> (r: u64)
        ensures
            spec_loose_value(self@) <= u64::MAX ==> r == spec_loose_value(self@),
    {
        let mut n: u64 = 0;
        let mut i: usize = 0;
        while i < self.bytes.len()
            invariant
                i <= self@.len(),
                spec_loose_value(self@.subrange(0, i as int)) <= u64::MAX ==> n == spec_loose_value(
                    self@.subrange(0, i as int),
                ),
                spec_loose_value(self@.subrange(0, i as int)) > u64::MAX ==> n == u64::MAX,
            decreases self@.len() - i,
        {
            let b = self.bytes[i];
            proof {
                assert(self@.subrange(0, i + 1).drop_last() =~= self@.subrange(0, i as int));
            }
            if 48 <= b && b <= 57 {
                let d = (b - 48) as u64;
                match n.checked_mul(10) {
                    Some(m) => match m.checked_add(d) {
                        Some(s) => {
                            n = s;
                        },
                        None => {
                            n = u64::MAX;
                        },
                    },
                    None => {
                        n = u64::MAX;
                    },
                }
            }
            i += 1;
        }
        proof {
            assert(self@.subrange(0, self@.len() as int) =~= self@);
        }
        n
    }

    /// The strict numeric read: leading spaces, then digits, nothing else;
    /// `None` on any other shape and on values that do not fit in a `u64`.
    pub fn to_u64_opt(&self) -> (r: Option<u64>)
        ensures
            match spec_seq_num_value(self@) {
                Some(v) => if v <= u64::MAX {
                    r == Some(v as u64)
                } else {
                    r is None
                },
                None => r is None,
            },
    {
        let mut n: u64 = 0;
        let mut in_num = false;
        let mut i: usize = 0;
        while i < self.bytes.len()
            invariant
                i <= self@.len(),
                n <= u64::MAX,
                spec_seq_num_value(self@) == spec_seq_num_scan(self@, i as int, in_num, n as nat),
            decreases self@.len() - i,
        {
            let b = self.bytes[i];
            if 48 <= b && b <= 57 {
                let d = (b - 48) as u64;
                proof {
                    lemma_scan_monotone(self@, i + 1, true, (n * 10 + d) as nat);
                }
                let m = match n.checked_mul(10) {
                    Some(m) => m,
                    None => {
                        return None;
                    },
                };
                n = match m.checked_add(d) {
                    Some(s) => s,
                    None => {
                        return None;
                    },
                };
                in_num = true;
            } else if b == SPACE {
                if in_num {
                    return None;
                }
            } else {
                return None;
            }
            i += 1;
        }
        Some(n)
    }

    /// Whether the field has the valid shape (and a value that fits).
    pub fn is_valid(&self) -> (r: bool)
        ensures
            r == (spec_seq_num_value(self@) matches Some(v) && v <= u64::MAX),
    {
        self.to_u64_opt().is_some()
    }

    pub fn as_slice(&self) -> (r: &[u8])
        ensures
            r@ == self@,
    {
        self.bytes.as_slice()
    }

    pub fn into_inner(self) -> (r: Vec<u8>)
        ensures
            r@ == self@,
    {
        self.bytes
    }
}

/// `from_u64` and the strict read are inverses: the wire form of `n` scans
/// back to exactly `n`, so `from_u64(n).to_u64_opt() == Some(n)` and
/// `from_u64(n).to_u64() == n` for every `n`.
pub proof fn lemma_seq_num_roundtrip(n: u64)
    ensures
        spec_seq_num_value(spec_seq_num_bytes(n as nat)) == Some(n as nat),
        spec_loose_value(spec_seq_num_bytes(n as nat)) == n as nat,
{
    lemma_dec_digits_len(n as nat);
    lemma_num_digits_le_20(n as nat);
    let digits = spec_dec_digits(n as nat);
    let s = spec_seq_num_bytes(n as nat);
    let pad = (SEQUENCE_NUMBER_LEN - digits.len()) as int;
    lemma_scan_spaces_prefix(s, 0, pad);
    assert(s.subrange(pad, s.len() as int) =~= digits);
    lemma_dec_digits_ok(n as nat);
    lemma_scan_digits(s, pad, digits, 0);
    lemma_digits_value(n as nat, 0);
    assert(0 * spec_pow10(digits.len()) == 0) by (nonlinear_arith);
    lemma_loose_pad(s, digits, pad);
    lemma_loose_digits(n as nat);
}

/// The strict scan walks over leading spaces without effect.
proof fn lemma_scan_spaces_prefix(s: Seq<u8>, i: int, j: int)
    requires
        0 <= i <= j <= s.len(),
        forall|k: int| i <= k < j ==> s[k] == SPACE,
    ensures
        spec_seq_num_scan(s, i, false, 0) == spec_seq_num_scan(s, j, false, 0),
    decreases j - i,
{
    if i < j {
        lemma_scan_spaces_prefix(s, i + 1, j);
    }
}

/// The strict scan of an all-digit suffix accumulates its decimal value.
proof fn lemma_scan_digits(s: Seq<u8>, i: int, digits: Seq<u8>, acc: nat)
    requires
        0 <= i <= s.len(),
        s.subrange(i, s.len() as int) == digits,
        forall|k: int| 0 <= k < digits.len() ==> 48 <= #[trigger] digits[k] <= 57,
    ensures
        spec_seq_num_scan(s, i, true, acc) == Some(spec_digits_acc(digits, acc)),
        spec_seq_num_scan(s, i, false, acc) == Some(spec_digits_acc(digits, acc)),
    decreases digits.len(),
{
    if digits.len() == 0 {
    } else {
        assert(s[i] == digits[0]);
        assert(s.subrange(i + 1, s.len() as int) =~= digits.subrange(1, digits.len() as int));
        lemma_scan_digits(
            s,
            i + 1,
            digits.subrange(1, digits.len() as int),
            acc * 10 + (digits[0] - 48) as nat,
        );
    }
}

/// The value of a digit string continued from an accumulator.
pub open spec fn spec_digits_acc(digits: Seq<u8>, acc: nat) -> nat
    decreases digits.len(),
{
    if digits.len() == 0 {
        acc
    } else {
        spec_digits_acc(digits.subrange(1, digits.len() as int), acc * 10 + (digits[0] - 48) as nat)
    }
}

/// `spec_dec_digits(n)` accumulates back to `n`.
proof fn lemma_digits_value(n: nat, acc: nat)
    ensures
        spec_digits_acc(spec_dec_digits(n), acc) == acc * spec_pow10(spec_dec_digits(n).len()) + n,
    decreases n,
{
    let digits = spec_dec_digits(n);
    if n < 10 {
        reveal_with_fuel(spec_digits_acc, 3);
        reveal_with_fuel(spec_pow10, 3);
        assert(digits.subrange(1, 1) =~= Seq::<u8>::empty());
        assert(digits[0] == (48 + n) as u8);
        assert(spec_digits_acc(digits, acc) == acc * 10 + n);
        assert(spec_pow10(1) == 10);
    } else {
        let hi = spec_dec_digits(n / 10);
        assert(digits =~= hi + seq![(48 + n % 10) as u8]);
        lemma_digits_split(hi, seq![(48 + n % 10) as u8], acc);
        lemma_digits_value(n / 10, acc);
        let p = spec_pow10(hi.len());
        assert(spec_digits_acc(seq![(48 + n % 10) as u8], (acc * p + n / 10) as nat) == (acc * p + n
            / 10) * 10 + n % 10) by {
            reveal_with_fuel(spec_digits_acc, 3);
            let t = seq![(48 + n % 10) as u8];
            assert(t.subrange(1, 1) =~= Seq::<u8>::empty());
            assert(t[0] == (48 + n % 10) as u8);
        }
        assert((acc * p + n / 10) * 10 + n % 10 == acc * (p * 10) + ((n / 10) * 10 + n % 10))
            by (nonlinear_arith);
        assert(spec_pow10(hi.len() + 1) == 10 * p);
        assert(p * 10 == 10 * p) by (nonlinear_arith);
        assert((n / 10) * 10 + n % 10 == n) by (nonlinear_arith);
    }
}

/// Accumulation splits across concatenation.
proof fn lemma_digits_split(a: Seq<u8>, b: Seq<u8>, acc: nat)
    ensures
        spec_digits_acc(a + b, acc) == spec_digits_acc(b, spec_digits_acc(a, acc)),
    decreases a.len(),
{
    if a.len() == 0 {
        assert(a + b =~= b);
    } else {
        assert((a + b).subrange(1, (a + b).len() as int) =~= a.subrange(1, a.len() as int) + b);
        lemma_digits_split(a.subrange(1, a.len() as int), b, acc * 10 + (a[0] - 48) as nat);
    }
}

/// The loose read ignores the space padding.
proof fn lemma_loose_pad(s: Seq<u8>, digits: Seq<u8>, pad: int)
    requires
        0 <= pad <= s.len(),
        forall|k: int| 0 <= k < pad ==> s[k] == SPACE,
        s.subrange(pad, s.len() as int) == digits,
        forall|k: int| 0 <= k < digits.len() ==> 48 <= #[trigger] digits[k] <= 57,
    ensures
        spec_loose_value(s) == spec_loose_value(digits),
    decreases s.len(),
{
    if digits.len() > 0 {
        assert(s[s.len() - 1] == digits[digits.len() - 1]);
        assert(s.drop_last().subrange(pad, s.drop_last().len() as int) =~= digits.drop_last());
        lemma_loose_pad(s.drop_last(), digits.drop_last(), pad);
    } else {
        assert(pad == s.len());
        if s.len() > 0 {
            assert(s[s.len() - 1] == SPACE);
            assert(s.drop_last().subrange(pad - 1, s.drop_last().len() as int) =~= digits);
            lemma_loose_pad(s.drop_last(), digits, pad - 1);
        }
    }
}

/// The loose read of a pure digit string is its decimal value.
proof fn lemma_loose_digits(n: nat)
    ensures
        spec_loose_value(spec_dec_digits(n)) == n,
    decreases n,
{
    let digits = spec_dec_digits(n);
    if n < 10 {
        reveal_with_fuel(spec_loose_value, 3);
        assert(digits.drop_last() =~= Seq::<u8>::empty());
        assert(digits[0] == (48 + n) as u8);
    } else {
        assert(digits.drop_last() =~= spec_dec_digits(n / 10));
        assert(digits[digits.len() - 1] == (48 + n % 10) as u8);
        lemma_loose_digits(n / 10);
    }
}

/// The packet-type byte table.
#[derive(Clone, Copy, Debug, PartialEq, Eq, Structural)]
pub enum PacketType {
    Debug,
    LoginAccepted,
    LoginReject,
    SequencedData,
    UnsequencedData,
    ServerHeartbeat,
    EndOfSession,
    LoginRequest,
    ClientHeartbeat,
    LogoutRequest,
}

/// The wire byte of each packet type.
pub open spec fn spec_packet_type_byte(t: PacketType) -> u8 {
    match t {
        PacketType::Debug => 43,  // '+'
        PacketType::LoginAccepted => 65,  // 'A'
        PacketType::LoginReject => 74,  // 'J'
        PacketType::SequencedData => 83,  // 'S'
        PacketType::UnsequencedData => 85,  // 'U'
        PacketType::ServerHeartbeat => 72,  // 'H'
        PacketType::EndOfSession => 90,  // 'Z'
        PacketType::LoginRequest => 76,  // 'L'
        PacketType::ClientHeartbeat => 82,  // 'R'
        PacketType::LogoutRequest => 79,  // 'O'
    }
}

/// The packet type a wire byte denotes, if any.
pub open spec fn spec_packet_type_of_byte(b: u8) -> Option<PacketType> {
    if b == 43 {
        Some(PacketType::Debug)
    } else if b == 65 {
        Some(PacketType::LoginAccepted)
    } else if b == 74 {
        Some(PacketType::LoginReject)
    } else if b == 83 {
        Some(PacketType::SequencedData)
    } else if b == 85 {
        Some(PacketType::UnsequencedData)
    } else if b == 72 {
        Some(PacketType::ServerHeartbeat)
    } else if b == 90 {
        Some(PacketType::EndOfSession)
    } else if b == 76 {
        Some(PacketType::LoginRequest)
    } else if b == 82 {
        Some(PacketType::ClientHeartbeat)
    } else if b == 79 {
        Some(PacketType::LogoutRequest)
    } else {
        None
    }
}

/// The payload length each packet type demands on the wire; `None` means any
/// length is allowed.
pub open spec fn spec_payload_len(t: PacketType) -> Option<usize> {
    match t {
        PacketType::ServerHeartbeat => Some(0usize),
        PacketType::EndOfSession => Some(0usize),
        PacketType::ClientHeartbeat => Some(0usize),
        PacketType::LogoutRequest => Some(0usize),
        PacketType::LoginReject => Some(1usize),
        PacketType::LoginAccepted => Some(30usize),
        PacketType::LoginRequest => Some(46usize),
        PacketType::Debug => None,
        PacketType::SequencedData => None,
        PacketType::UnsequencedData => None,
    }
}

impl PacketType {
    /// The packet type of a wire byte; the byte is handed back if it denotes
    /// no packet type.
    pub fn from_u8(b: u8) -> (r: Result<PacketType, u8>)
        ensures
            match spec_packet_type_of_byte(b) {
                Some(t) => r == Ok::<PacketType, u8>(t),
                None => r == Err::<PacketType, u8>(b),
            },
    {
        if b == 43 {
            Ok(PacketType::Debug)
        } else if b == 65 {
            Ok(PacketType::LoginAccepted)
        } else if b == 74 {
            Ok(PacketType::LoginReject)
        } else if b == 83 {
            Ok(PacketType::SequencedData)
        } else if b == 85 {
            Ok(PacketType::UnsequencedData)
        } else if b == 72 {
            Ok(PacketType::ServerHeartbeat)
        } else if b == 90 {
            Ok(PacketType::EndOfSession)
        } else if b == 76 {
            Ok(PacketType::LoginRequest)
        } else if b == 82 {
            Ok(PacketType::ClientHeartbeat)
        } else if b == 79 {
            Ok(PacketType::LogoutRequest)
        } else {
            Err(b)
        }
    }

    pub fn as_u8(self) -> (r: u8)
        ensures
            r == spec_packet_type_byte(self),
    {
        match self {
            PacketType::Debug => 43,
            PacketType::LoginAccepted => 65,
            PacketType::LoginReject => 74,
            PacketType::SequencedData => 83,
            PacketType::UnsequencedData => 85,
            PacketType::ServerHeartbeat => 72,
            PacketType::EndOfSession => 90,
            PacketType::LoginRequest => 76,
            PacketType::ClientHeartbeat => 82,
            PacketType::LogoutRequest => 79,
        }
    }

    pub fn as_char(self) -> (r: char)
        ensures
            r == spec_packet_type_byte(self) as char,
    {
        self.as_u8() as char
    }

    /// The payload length this type demands; `None` means any length.
    pub fn payload_len(self) -> (r: Option<usize>)
        ensures
            r == spec_payload_len(self),
    {
        match self {
            PacketType::ServerHeartbeat
            | PacketType::EndOfSession
            | PacketType::ClientHeartbeat
            | PacketType::LogoutRequest => Some(0),
            PacketType::LoginReject => Some(1),
            PacketType::LoginAccepted => Some(SESSION_ID_LEN + SEQUENCE_NUMBER_LEN),
            PacketType::LoginRequest => Some(
                USERNAME_LEN + PASSWORD_LEN + SESSION_ID_LEN + SEQUENCE_NUMBER_LEN,
            ),
            PacketType::Debug | PacketType::SequencedData | PacketType::UnsequencedData => None,
        }
    }
}

/// A byte names a type exactly when that type's byte is it.
pub proof fn lemma_packet_type_byte_roundtrip(t: PacketType)
    ensures
        spec_packet_type_of_byte(spec_packet_type_byte(t)) == Some(t),
{
}

/// The login-reject reason byte.
#[derive(Clone, Copy, Debug, PartialEq, Eq, Structural)]
pub enum LoginReject {
    /// The login request carried invalid credentials.
    NotAuthorized,
    /// The login request named an invalid session.
    SessionNotAvail,
}

/// The wire byte of each reject reason: `A` or `S`.
pub open spec fn spec_login_reject_byte(c: LoginReject) -> u8 {
    match c {
        LoginReject::NotAuthorized => 65,  // 'A'
        LoginReject::SessionNotAvail => 83,  // 'S'
    }
}

impl LoginReject {
    pub fn from_u8(b: u8) -> (r: Result<LoginReject, u8>)
        ensures
            b == 65 ==> r == Ok::<LoginReject, u8>(LoginReject::NotAuthorized),
            b == 83 ==> r == Ok::<LoginReject, u8>(LoginReject::SessionNotAvail),
            b != 65 && b != 83 ==> r == Err::<LoginReject, u8>(b),
    {
        if b == 65 {
            Ok(LoginReject::NotAuthorized)
        } else if b == 83 {
            Ok(LoginReject::SessionNotAvail)
        } else {
            Err(b)
        }
    }

    pub fn as_u8(self) -> (r: u8)
        ensures
            r == spec_login_reject_byte(self),
    {
        match self {
            LoginReject::NotAuthorized => 65,
            LoginReject::SessionNotAvail => 83,
        }
    }
}

/// Why a frame failed to parse.
#[derive(Clone, Copy, Debug, PartialEq, Eq, Structural)]
pub enum PacketParseError {
    /// The packet-type byte denotes no packet type.
    InvalidPacketType(u8),
    /// The frame is well formed but not of the demanded type.
    UnexpectedPacketType { want: PacketType, got: PacketType, payload_len: usize },
    /// The payload length does not match what the packet type demands.
    MismatchLen { want: usize, got: usize },
    /// The payload was over-long.
    BadPayload,
    /// The byte source ended before the frame did.
    Io,
}

/// The full frame for a packet type and payload: big-endian length
/// (`1 + payload` bytes), the type byte, then the payload.
pub open spec fn spec_frame(t: PacketType, payload: Seq<u8>) -> Seq<u8>
    recommends
        payload.len() <= MAX_PAYLOAD_LEN,
{
    spec_u16_to_be_bytes((1 + payload.len()) as u16) + seq![spec_packet_type_byte(t)] + payload
}

/// The frame decoder: every error case, in the order the decoder tests them.
/// `want` demands a packet type, as the login handshake does.
/// On success the result holds exactly the frame's bytes; trailing input is
/// not consumed.
pub open spec fn spec_parse(bs: Seq<u8>, want: Option<PacketType>) -> Result<
    Seq<u8>,
    PacketParseError,
> {
    if bs.len() < 3 {
        Err(PacketParseError::Io)
    } else {
        let pkt_len = spec_u16_from_be_bytes(bs.subrange(0, 2)) as int;
        if pkt_len == 0 {
            Err(PacketParseError::MismatchLen { want: 1usize, got: 0usize })
        } else {
            let payload_len = pkt_len - 1;
            match spec_packet_type_of_byte(bs[2]) {
                None => Err(PacketParseError::InvalidPacketType(bs[2])),
                Some(t) => {
                    let mismatch = match want {
                        Some(w) => w != t,
                        None => false,
                    };
                    if mismatch {
                        Err(
                            PacketParseError::UnexpectedPacketType {
                                want: want.unwrap(),
                                got: t,
                                payload_len: payload_len as usize,
                            },
                        )
                    } else {
                        let want_len = match spec_payload_len(t) {
                            Some(l) => l as int,
                            None => payload_len,
                        };
                        if payload_len != want_len {
                            Err(
                                PacketParseError::MismatchLen {
                                    want: want_len as usize,
                                    got: payload_len as usize,
                                },
                            )
                        } else if bs.len() < 3 + payload_len {
                            Err(PacketParseError::Io)
                        } else {
                            Ok(bs.subrange(0, 3 + payload_len))
                        }
                    }
                },
            }
        }
    }
}

/// A complete SoupBinTCP frame: length prefix, type byte, payload.
#[derive(Clone, Debug, PartialEq, Eq)]
pub struct Packet {
    bytes: Vec<u8>,
}

impl View for Packet {
    type V = Seq<u8>;

    closed spec fn view(&self) -> Seq<u8> {
        self.bytes@
    }
}

impl Packet {
    /// A well-formed frame: consistent length field, a valid type byte, and
    /// the payload length the type demands.
    pub open spec fn wf(self) -> bool {
        &&& self@.len() >= 3
        &&& self@.len() <= 3 + MAX_PAYLOAD_LEN
        &&& spec_u16_from_be_bytes(self@.subrange(0, 2)) == self@.len() - 2
        &&& spec_packet_type_of_byte(self@[2]) is Some
        &&& match spec_payload_len(spec_packet_type_of_byte(self@[2]).unwrap()) {
            Some(l) => self@.len() - 3 == l,
            None => true,
        }
    }

    /// The type this frame's type byte denotes.
    pub open spec fn spec_packet_type(self) -> PacketType
        recommends
            self.wf(),
    {
        spec_packet_type_of_byte(self@[2]).unwrap()
    }

    /// The frame's payload: everything after the first three bytes.
    pub open spec fn spec_payload(self) -> Seq<u8> {
        self@.subrange(3, self@.len() as int)
    }

    /// Frames a payload under a packet type. The payload must have the length
    /// the type demands.
    pub(crate) fn new(packet_type: PacketType, payload: Payload) -> (r: Packet)
        requires
            payload.wf(),
            match spec_payload_len(packet_type) {
                Some(l) => payload@.len() == l,
                None => true,
            },
        ensures
            r@ == spec_frame(packet_type, payload@),
            r.wf(),
            r.spec_packet_type() == packet_type,
            r.spec_payload() == payload@,
    {
        let payload_len = payload.len();
        let mut bytes = u16_to_be_bytes((1 + payload_len) as u16);
        bytes.push(packet_type.as_u8());
        let mut rest = payload.into_inner();
        bytes.append(&mut rest);
        proof {
            assert(bytes@ =~= spec_frame(packet_type, payload@));
            lemma_u16_be_bytes_roundtrip((1 + payload@.len()) as u16);
            assert(bytes@.subrange(0, 2) =~= spec_u16_to_be_bytes((1 + payload@.len()) as u16));
            lemma_packet_type_byte_roundtrip(packet_type);
            assert(bytes@.subrange(3, bytes@.len() as int) =~= payload@);
        }
        Packet { bytes }
    }

    pub fn debug(payload: Payload) -> (r: Packet)
        requires
            payload.wf(),
        ensures
            r@ == spec_frame(PacketType::Debug, payload@),
            r.wf(),
    {
        Packet::new(PacketType::Debug, payload)
    }

    pub fn login_accepted(session: SessionId, seq_num: SequenceNumber) -> (r: Packet)
        requires
            session.wf(),
            seq_num.wf(),
        ensures
            r@ == spec_frame(PacketType::LoginAccepted, session@ + seq_num@),
            r.wf(),
    {
        let mut bytes = session.into_inner();
        let mut tail = seq_num.into_inner();
        bytes.append(&mut tail);
        let payload = Payload { bytes };
        Packet::new(PacketType::LoginAccepted, payload)
    }

    pub fn login_reject(code: LoginReject) -> (r: Packet)
        ensures
            r@ == spec_frame(PacketType::LoginReject, seq![spec_login_reject_byte(code)]),
            r.wf(),
    {
        let mut bytes: Vec<u8> = Vec::new();
        bytes.push(code.as_u8());
        proof {
            assert(bytes@ =~= seq![spec_login_reject_byte(code)]);
        }
        Packet::new(PacketType::LoginReject, Payload { bytes })
    }

    pub fn sequenced_data(payload: Payload) -> (r: Packet)
        requires
            payload.wf(),
        ensures
            r@ == spec_frame(PacketType::SequencedData, payload@),
            r.wf(),
    {
        Packet::new(PacketType::SequencedData, payload)
    }

    pub fn unsequenced_data(payload: Payload) -> (r: Packet)
        requires
            payload.wf(),
        ensures
            r@ == spec_frame(PacketType::UnsequencedData, payload@),
            r.wf(),
    {
        Packet::new(PacketType::UnsequencedData, payload)
    }

    pub fn server_heartbeat() -> (r: Packet)
        ensures
            r@ == spec_frame(PacketType::ServerHeartbeat, Seq::<u8>::empty()),
            r.wf(),
    {
        Packet::new(PacketType::ServerHeartbeat, Payload::empty())
    }

    pub fn end_of_session() -> (r: Packet)
        ensures
            r@ == spec_frame(PacketType::EndOfSession, Seq::<u8>::empty()),
            r.wf(),
    {
        Packet::new(PacketType::EndOfSession, Payload::empty())
    }

    /// The login request: username, password, session, then sequence number,
    /// each in its padded wire form.
    pub fn login_request(
        username: Username,
        password: Password,
        session: SessionId,
        seq_num: SequenceNumber,
    ) -> (r: Packet)
        requires
            username.wf(),
            password.wf(),
            session.wf(),
            seq_num.wf(),
        ensures
            r@ == spec_frame(PacketType::LoginRequest, username@ + password@ + session@ + seq_num@),
            r.wf(),
    {
        let mut bytes = username.into_inner();
        let mut t1 = password.into_inner();
        bytes.append(&mut t1);
        let mut t2 = session.into_inner();
        bytes.append(&mut t2);
        let mut t3 = seq_num.into_inner();
        bytes.append(&mut t3);
        Packet::new(PacketType::LoginRequest, Payload { bytes })
    }

    pub fn client_heartbeat() -> (r: Packet)
        ensures
            r@ == spec_frame(PacketType::ClientHeartbeat, Seq::<u8>::empty()),
            r.wf(),
    {
        Packet::new(PacketType::ClientHeartbeat, Payload::empty())
    }

    pub fn logout_request() -> (r: Packet)
        ensures
            r@ == spec_frame(PacketType::LogoutRequest, Seq::<u8>::empty()),
            r.wf(),
    {
        Packet::new(PacketType::LogoutRequest, Payload::empty())
    }

    /// Decode one frame from the front of `b`; bytes beyond the frame are not
    /// consumed. The contract is exactly [`spec_parse`] without a demanded
    /// type.
    pub fn parse(b: &[u8]) -> (r: Result<Packet, PacketParseError>)
        ensures
            match spec_parse(b@, None) {
                Ok(bytes) => r matches Ok(p) && p@ == bytes && p.wf(),
                Err(e) => r == Err::<Packet, PacketParseError>(e),
            },
    {
        Packet::parse_inner(b, None)
    }

    /// As [`Packet::parse`], but demand the frame be of type `want_pt`.
    pub fn parse_as(want_pt: PacketType, b: &[u8]) -> (r: Result<Packet, PacketParseError>)
        ensures
            match spec_parse(b@, Some(want_pt)) {
                Ok(bytes) => r matches Ok(p) && p@ == bytes && p.wf(),
                Err(e) => r == Err::<Packet, PacketParseError>(e),
            },
    {
        Packet::parse_inner(b, Some(want_pt))
    }

    fn parse_inner(b: &[u8], want: Option<PacketType>) -> (r: Result<Packet, PacketParseError>)
        ensures
            match spec_parse(b@, want) {
                Ok(bytes) => r matches Ok(p) && p@ == bytes && p.wf(),
                Err(e) => r == Err::<Packet, PacketParseError>(e),
            },
    {
        if b.len() < 3 {
            return Err(PacketParseError::Io);
        }
        let pkt_len = u16_from_be_bytes(slice_subrange(b, 0, 2)) as usize;
        if pkt_len == 0 {
            return Err(PacketParseError::MismatchLen { want: 1, got: 0 });
        }
        let payload_len = pkt_len - 1;
        let packet_type = match PacketType::from_u8(b[2]) {
            Ok(t) => t,
            Err(x) => {
                return Err(PacketParseError::InvalidPacketType(x));
            },
        };
        match want {
            Some(w) if w != packet_type => {
                return Err(
                    PacketParseError::UnexpectedPacketType {
                        want: w,
                        got: packet_type,
                        payload_len,
                    },
                );
            },
            _ => {},
        }
        let want_len = match packet_type.payload_len() {
            Some(l) => l,
            None => payload_len,
        };
        if payload_len != want_len {
            return Err(PacketParseError::MismatchLen { want: want_len, got: payload_len });
        }
        if b.len() < 3 + payload_len {
            return Err(PacketParseError::Io);
        }
        let frame = slice_to_vec(slice_subrange(b, 0, 3 + payload_len));
        proof {
            lemma_u16_be_bytes_inverse(b@.subrange(0, 2));
            assert(frame@.subrange(0, 2) =~= b@.subrange(0, 2));
            assert(frame@[2] == b@[2]);
            assert(frame@ == b@.subrange(0, 3 + payload_len as int));
        }
        Ok(Packet { bytes: frame })
    }

    /// The frame's packet type.
    pub fn packet_type(&self) -> (r: PacketType)
        requires
            self.wf(),
        ensures
            r == self.spec_packet_type(),
    {
        match PacketType::from_u8(self.bytes[2]) {
            Ok(t) => t,
            Err(_) => {
                proof {
                    assert(false);
                }
                PacketType::Debug
            },
        }
    }

    /// The payload bytes, after the three header bytes.
    pub fn payload(&self) -> (r: &[u8])
        requires
            self.wf(),
        ensures
            r@ == self.spec_payload(),
    {
        slice_subrange(self.bytes.as_slice(), 3, self.bytes.len())
    }

    /// The username field of a login request, or `None` on any other type.
    pub fn username_slice(&self) -> (r: Option<&[u8]>)
        requires
            self.wf(),
        ensures
            self.spec_packet_type() == PacketType::LoginRequest ==> (r matches Some(s) && s@
                == self.spec_payload().subrange(0, USERNAME_LEN as int)),
            self.spec_packet_type() != PacketType::LoginRequest ==> r is None,
    {
        if self.packet_type() == PacketType::LoginRequest {
            Some(slice_subrange(self.payload(), 0, USERNAME_LEN))
        } else {
            None
        }
    }

    /// The password field of a login request, or `None` on any other type.
    pub fn password_slice(&self) -> (r: Option<&[u8]>)
        requires
            self.wf(),
        ensures
            self.spec_packet_type() == PacketType::LoginRequest ==> (r matches Some(s) && s@
                == self.spec_payload().subrange(
                USERNAME_LEN as int,
                (USERNAME_LEN + PASSWORD_LEN) as int,
            )),
            self.spec_packet_type() != PacketType::LoginRequest ==> r is None,
    {
        if self.packet_type() == PacketType::LoginRequest {
            Some(slice_subrange(self.payload(), USERNAME_LEN, USERNAME_LEN + PASSWORD_LEN))
        } else {
            None
        }
    }

    /// The session field of a login request or login-accepted frame.
    pub fn session_slice(&self) -> (r: Option<&[u8]>)
        requires
            self.wf(),
        ensures
            self.spec_packet_type() == PacketType::LoginRequest ==> (r matches Some(s) && s@
                == self.spec_payload().subrange(16, 26)),
            self.spec_packet_type() == PacketType::LoginAccepted ==> (r matches Some(s) && s@
                == self.spec_payload().subrange(0, 10)),
            self.spec_packet_type() != PacketType::LoginRequest && self.spec_packet_type()
                != PacketType::LoginAccepted ==> r is None,
    {
        let t = self.packet_type();
        if t == PacketType::LoginRequest {
            Some(slice_subrange(self.payload(), 16, 26))
        } else if t == PacketType::LoginAccepted {
            Some(slice_subrange(self.payload(), 0, 10))
        } else {
            None
        }
    }

    /// The sequence-number field of a login request or login-accepted frame.
    pub fn sequence_number_slice(&self) -> (r: Option<&[u8]>)
        requires
            self.wf(),
        ensures
            self.spec_packet_type() == PacketType::LoginRequest ==> (r matches Some(s) && s@
                == self.spec_payload().subrange(26, 46)),
            self.spec_packet_type() == PacketType::LoginAccepted ==> (r matches Some(s) && s@
                == self.spec_payload().subrange(10, 30)),
            self.spec_packet_type() != PacketType::LoginRequest && self.spec_packet_type()
                != PacketType::LoginAccepted ==> r is None,
    {
        let t = self.packet_type();
        if t == PacketType::LoginRequest {
            Some(slice_subrange(self.payload(), 26, 46))
        } else if t == PacketType::LoginAccepted {
            Some(slice_subrange(self.payload(), 10, 30))
        } else {
            None
        }
    }

    /// The username of a login request as an identifier.
    pub fn username(&self) -> (r: Option<Username>)
        requires
            self.wf(),
        ensures
            self.spec_packet_type() == PacketType::LoginRequest ==> (r matches Some(u) && u@
                == self.spec_payload().subrange(0, USERNAME_LEN as int) && u.wf()),
            self.spec_packet_type() != PacketType::LoginRequest ==> r is None,
    {
        match self.username_slice() {
            Some(s) => Some(Username::new_trunc(s)),
            None => None,
        }
    }

    /// The password of a login request as an identifier.
    pub fn password(&self) -> (r: Option<Password>)
        requires
            self.wf(),
        ensures
            self.spec_packet_type() == PacketType::LoginRequest ==> (r matches Some(p) && p@
                == self.spec_payload().subrange(
                USERNAME_LEN as int,
                (USERNAME_LEN + PASSWORD_LEN) as int,
            ) && p.wf()),
            self.spec_packet_type() != PacketType::LoginRequest ==> r is None,
    {
        match self.password_slice() {
            Some(s) => Some(Password::new_trunc(s)),
            None => None,
        }
    }

    /// Both credential fields of a login request as raw slices.
    pub fn credentials_slices(&self) -> (r: Option<(&[u8], &[u8])>)
        requires
            self.wf(),
        ensures
            self.spec_packet_type() == PacketType::LoginRequest ==> (r matches Some(c) && c.0@
                == self.spec_payload().subrange(0, USERNAME_LEN as int) && c.1@
                == self.spec_payload().subrange(
                USERNAME_LEN as int,
                (USERNAME_LEN + PASSWORD_LEN) as int,
            )),
            self.spec_packet_type() != PacketType::LoginRequest ==> r is None,
    {
        match self.username_slice() {
            Some(u) => match self.password_slice() {
                Some(p) => Some((u, p)),
                None => None,
            },
            None => None,
        }
    }

    /// Both credentials of a login request.
    pub fn credentials(&self) -> (r: Option<(Username, Password)>)
        requires
            self.wf(),
        ensures
            self.spec_packet_type() == PacketType::LoginRequest ==> (r matches Some(c) && c.0@
                == self.spec_payload().subrange(0, USERNAME_LEN as int) && c.1@
                == self.spec_payload().subrange(
                USERNAME_LEN as int,
                (USERNAME_LEN + PASSWORD_LEN) as int,
            ) && c.0.wf() && c.1.wf()),
            self.spec_packet_type() != PacketType::LoginRequest ==> r is None,
    {
        match self.username() {
            Some(u) => match self.password() {
                Some(p) => Some((u, p)),
                None => None,
            },
            None => None,
        }
    }

    /// The session id field as an identifier.
    pub fn session(&self) -> (r: Option<SessionId>)
        requires
            self.wf(),
        ensures
            self.spec_packet_type() == PacketType::LoginRequest ==> (r matches Some(s) && s@
                == self.spec_payload().subrange(16, 26) && s.wf()),
            self.spec_packet_type() == PacketType::LoginAccepted ==> (r matches Some(s) && s@
                == self.spec_payload().subrange(0, 10) && s.wf()),
            self.spec_packet_type() != PacketType::LoginRequest && self.spec_packet_type()
                != PacketType::LoginAccepted ==> r is None,
    {
        match self.session_slice() {
            Some(s) => Some(SessionId::new_trunc(s)),
            None => None,
        }
    }

    /// The sequence-number field as an identifier.
    pub fn sequence_number(&self) -> (r: Option<SequenceNumber>)
        requires
            self.wf(),
        ensures
            self.spec_packet_type() == PacketType::LoginRequest ==> (r matches Some(s) && s@
                == self.spec_payload().subrange(26, 46) && s.wf()),
            self.spec_packet_type() == PacketType::LoginAccepted ==> (r matches Some(s) && s@
                == self.spec_payload().subrange(10, 30) && s.wf()),
            self.spec_packet_type() != PacketType::LoginRequest && self.spec_packet_type()
                != PacketType::LoginAccepted ==> r is None,
    {
        match self.sequence_number_slice() {
            Some(s) => Some(SequenceNumber::new_trunc(s)),
            None => None,
        }
    }

    /// The reject reason of a login-reject frame, if its byte is valid.
    pub fn reject_reason(&self) -> (r: Option<LoginReject>)
        requires
            self.wf(),
        ensures
            self.spec_packet_type() == PacketType::LoginReject && self.spec_payload()[0]
                == spec_login_reject_byte(LoginReject::NotAuthorized) ==> r == Some(
                LoginReject::NotAuthorized,
            ),
            self.spec_packet_type() == PacketType::LoginReject && self.spec_payload()[0]
                == spec_login_reject_byte(LoginReject::SessionNotAvail) ==> r == Some(
                LoginReject::SessionNotAvail,
            ),
            self.spec_packet_type() == PacketType::LoginReject && self.spec_payload()[0] != 65
                && self.spec_payload()[0] != 83 ==> r is None,
            self.spec_packet_type() != PacketType::LoginReject ==> r is None,
    {
        if self.packet_type() != PacketType::LoginReject {
            return None;
        }
        let payload = self.payload();
        match LoginReject::from_u8(payload[0]) {
            Ok(c) => Some(c),
            Err(_) => None,
        }
    }

    /// The whole frame, length prefix included.
    pub fn as_slice(&self) -> (r: &[u8])
        ensures
            r@ == self@,
    {
        self.bytes.as_slice()
    }

    /// The packet type and the payload.
    pub fn parts(&self) -> (r: (PacketType, &[u8]))
        requires
            self.wf(),
        ensures
            r.0 == self.spec_packet_type(),
            r.1@ == self.spec_payload(),
    {
        (self.packet_type(), self.payload())
    }

    /// The packet type and an owned payload.
    pub fn into_parts(self) -> (r: (PacketType, Payload))
        requires
            self.wf(),
        ensures
            r.0 == self.spec_packet_type(),
            r.1@ == self.spec_payload(),
            r.1.wf(),
    {
        let t = self.packet_type();
        let payload = slice_to_vec(slice_subrange(self.bytes.as_slice(), 3, self.bytes.len()));
        (t, Payload { bytes: payload })
    }
}

/// Round trip: a frame built from any packet type and any payload of the
/// length that type allows parses back to exactly that frame, so
/// `parse` after an encode returns the same type and payload.
pub proof fn lemma_frame_roundtrip(t: PacketType, payload: Seq<u8>)
    requires
        payload.len() <= MAX_PAYLOAD_LEN,
        match spec_payload_len(t) {
            Some(l) => payload.len() == l,
            None => true,
        },
    ensures
        spec_parse(spec_frame(t, payload), None) == Ok::<Seq<u8>, PacketParseError>(
            spec_frame(t, payload),
        ),
        spec_packet_type_of_byte(spec_frame(t, payload)[2]) == Some(t),
        spec_frame(t, payload).subrange(3, spec_frame(t, payload).len() as int) == payload,
{
    let bs = spec_frame(t, payload);
    lemma_u16_be_bytes_roundtrip((1 + payload.len()) as u16);
    assert(bs.subrange(0, 2) =~= spec_u16_to_be_bytes((1 + payload.len()) as u16));
    lemma_packet_type_byte_roundtrip(t);
    assert(bs.subrange(3, bs.len() as int) =~= payload);
    assert(bs.subrange(0, 3 + payload.len() as int) =~= bs);
}

/// A fixed-length packet type rejects every payload of the wrong length:
/// the decoder answers `MismatchLen`.
pub proof fn lemma_frame_wrong_len_rejected(t: PacketType, payload: Seq<u8>, l: usize)
    requires
        payload.len() <= MAX_PAYLOAD_LEN,
        spec_payload_len(t) == Some(l),
        payload.len() != l,
    ensures
        spec_parse(spec_frame(t, payload), None) == Err::<Seq<u8>, PacketParseError>(
            PacketParseError::MismatchLen { want: l, got: payload.len() as usize },
        ),
{
    let bs = spec_frame(t, payload);
    lemma_u16_be_bytes_roundtrip((1 + payload.len()) as u16);
    assert(bs.subrange(0, 2) =~= spec_u16_to_be_bytes((1 + payload.len()) as u16));
    lemma_packet_type_byte_roundtrip(t);
}

} // verus!
