//! Properties of MQTT 5 packets, and the values some of them hold.
//!
//! Ref: 2.2.2.2 Property
use vstd::prelude::*;

use crate::buffer_pool::accumulators::{try_put_u16_be, try_put_u32_be, try_put_u8};
use crate::buffer_pool::{self, be_u16, be_u32, u16_be_bytes, u32_be_bytes, BytesAccumulator, Owned, Shared};
use crate::mqtt_proto::binary_data::{length_prefixed, spec_split_length_prefixed, BinaryData};
use crate::mqtt_proto::byte_str::{spec_decode_byte_str, ByteStr};
use crate::mqtt_proto::codes::QoS;
use crate::mqtt_proto::topic::{spec_decode_topic, Topic};
use crate::mqtt_proto::{
    decode_varint, encode_varint, parts_total, parts_written, put_outcome, spec_decode_varint,
    spec_encode_varint, try_get_u16_be, try_get_u32_be, try_get_u8, DecodeError, DecodeErrorView,
    EncodeError, VARINT_MAX,
};

verus! {

/// A `u16` that is never 0.
#[derive(Clone, Copy, Debug, PartialEq, Eq, Structural, PartialOrd, Ord, Hash)]
pub struct NonZeroU16(u16);

impl View for NonZeroU16 {
    type V = u16;

    closed spec fn view(&self) -> u16 {
        self.0
    }
}

impl NonZeroU16 {
    /// The value is never 0.
    #[verifier::type_invariant]
    pub open spec fn inv(self) -> bool {
        self@ != 0
    }

    /// The value `v`, which should not be 0, as a `NonZeroU16`.
    pub closed spec fn spec_new(v: u16) -> NonZeroU16 {
        NonZeroU16(v)
    }

    /// `v` as a `NonZeroU16`, if it is not 0.
    pub fn new(v: u16) -> (r: Option<NonZeroU16>)
        ensures
            v == 0 ==> r is None,
            v != 0 ==> r == Some(NonZeroU16::spec_new(v)),
    {
        if v == 0 {
            None
        } else {
            Some(NonZeroU16(v))
        }
    }

    /// The largest value.
    pub fn max_value() -> (r: NonZeroU16)
        ensures
            r@ == u16::MAX,
    {
        NonZeroU16(u16::MAX)
    }

    /// The value.
    pub fn get(self) -> (r: u16)
        ensures
            r == self@,
            r != 0,
    {
        proof {
            use_type_invariant(&self);
        }
        self.0
    }
}

/// A `u32` that is never 0.
#[derive(Clone, Copy, Debug, PartialEq, Eq, Structural, PartialOrd, Ord, Hash)]
pub struct NonZeroU32(u32);

impl View for NonZeroU32 {
    type V = u32;

    closed spec fn view(&self) -> u32 {
        self.0
    }
}

impl NonZeroU32 {
    /// The value is never 0.
    #[verifier::type_invariant]
    pub open spec fn inv(self) -> bool {
        self@ != 0
    }

    /// The value `v`, which should not be 0, as a `NonZeroU32`.
    pub closed spec fn spec_new(v: u32) -> NonZeroU32 {
        NonZeroU32(v)
    }

    /// `v` as a `NonZeroU32`, if it is not 0.
    pub fn new(v: u32) -> (r: Option<NonZeroU32>)
        ensures
            v == 0 ==> r is None,
            v != 0 ==> r == Some(NonZeroU32::spec_new(v)),
    {
        if v == 0 {
            None
        } else {
            Some(NonZeroU32(v))
        }
    }

    /// The largest value.
    pub fn max_value() -> (r: NonZeroU32)
        ensures
            r@ == u32::MAX,
    {
        NonZeroU32(u32::MAX)
    }

    /// The value.
    pub fn get(self) -> (r: u32)
        ensures
            r == self@,
            r != 0,
    {
        proof {
            use_type_invariant(&self);
        }
        self.0
    }
}

/// A non-zero value made from `v` holds `v`.
pub broadcast proof fn lemma_nonzero_u16_new(v: u16)
    ensures
        #[trigger] NonZeroU16::spec_new(v)@ == v,
{
}

/// A non-zero value is the one made from what it holds.
pub broadcast proof fn lemma_nonzero_u16_view(n: NonZeroU16)
    ensures
        #[trigger] NonZeroU16::spec_new(n@) == n,
{
}

/// A non-zero value made from `v` holds `v`.
pub broadcast proof fn lemma_nonzero_u32_new(v: u32)
    ensures
        #[trigger] NonZeroU32::spec_new(v)@ == v,
{
}

/// A non-zero value is the one made from what it holds.
pub broadcast proof fn lemma_nonzero_u32_view(n: NonZeroU32)
    ensures
        #[trigger] NonZeroU32::spec_new(n@) == n,
{
}

pub broadcast group group_nonzero {
    lemma_nonzero_u16_new,
    lemma_nonzero_u16_view,
    lemma_nonzero_u32_new,
    lemma_nonzero_u32_view,
}

/// Ref: 3.1.2.10 Keep Alive. A Keep Alive value of 0 turns the mechanism off.
#[derive(Clone, Copy, Debug, PartialEq, Eq, Structural)]
pub enum KeepAlive {
    Infinite,
    /// Duration in seconds.
    Duration(NonZeroU16),
}

impl KeepAlive {
    pub open spec fn spec_from_u16(value: u16) -> KeepAlive {
        if value == 0 {
            KeepAlive::Infinite
        } else {
            KeepAlive::Duration(NonZeroU16::spec_new(value))
        }
    }

    pub open spec fn spec_to_u16(self) -> u16 {
        match self {
            KeepAlive::Infinite => 0,
            KeepAlive::Duration(v) => v@,
        }
    }

    /// The keep alive that a value of the wire format stands for.
    pub fn from_u16(value: u16) -> (r: KeepAlive)
        ensures
            r == KeepAlive::spec_from_u16(value),
    {
        match NonZeroU16::new(value) {
            Some(v) => KeepAlive::Duration(v),
            None => KeepAlive::Infinite,
        }
    }

    /// The value of the wire format.
    pub fn to_u16(self) -> (r: u16)
        ensures
            r == self.spec_to_u16(),
    {
        match self {
            KeepAlive::Infinite => 0,
            KeepAlive::Duration(v) => v.get(),
        }
    }

    /// The timeout, in milliseconds, after which a silent peer is considered gone: one and a half
    /// times the keep alive, or about a hundred years for `Infinite`.
    ///
    /// Ref: [MQTT-3.1.2-22]
    pub fn timeout_millis(self) -> (r: u64)
        ensures
            r == match self {
                KeepAlive::Infinite => 3153600000000u64,
                KeepAlive::Duration(v) => (v@ * 1500) as u64,
            },
    {
        match self {
            KeepAlive::Infinite => 3153600000000u64,
            KeepAlive::Duration(v) => (v.get() as u64) * 1500,
        }
    }

    /// `Infinite` is larger than any duration; durations compare by their value.
    pub open spec fn spec_lt(self, other: KeepAlive) -> bool {
        match (self, other) {
            (KeepAlive::Duration(a), KeepAlive::Duration(b)) => a@ < b@,
            (KeepAlive::Duration(_), KeepAlive::Infinite) => true,
            _ => false,
        }
    }

    /// Whether this keep alive is shorter than `other`.
    pub fn lt(&self, other: &KeepAlive) -> (r: bool)
        ensures
            r == self.spec_lt(*other),
    {
        match (self, other) {
            (KeepAlive::Duration(a), KeepAlive::Duration(b)) => a.get() < b.get(),
            (KeepAlive::Duration(_), KeepAlive::Infinite) => true,
            _ => false,
        }
    }
}

/// Every wire value gives back the keep alive it was made from.
pub proof fn lemma_keep_alive_roundtrip(value: u16, k: KeepAlive)
    requires
        k matches KeepAlive::Duration(d) ==> d@ != 0,
    ensures
        KeepAlive::spec_from_u16(value).spec_to_u16() == value,
        KeepAlive::spec_from_u16(k.spec_to_u16()) == k,
{
    broadcast use group_nonzero;

}

/// Ref: 3.1.2.11.2 Session Expiry Interval. `0xFFFFFFFF` means that the session does not expire.
#[derive(Clone, Copy, Debug, PartialEq, Eq, Structural)]
pub enum SessionExpiryInterval {
    Infinite,
    Duration(u32),
}

impl SessionExpiryInterval {
    pub open spec fn spec_from_u32(value: u32) -> SessionExpiryInterval {
        if value == u32::MAX {
            SessionExpiryInterval::Infinite
        } else {
            SessionExpiryInterval::Duration(value)
        }
    }

    pub open spec fn spec_to_u32(self) -> u32 {
        match self {
            SessionExpiryInterval::Infinite => u32::MAX,
            SessionExpiryInterval::Duration(v) => v,
        }
    }

    pub fn from_u32(value: u32) -> (r: SessionExpiryInterval)
        ensures
            r == SessionExpiryInterval::spec_from_u32(value),
    {
        if value == u32::MAX {
            SessionExpiryInterval::Infinite
        } else {
            SessionExpiryInterval::Duration(value)
        }
    }

    pub fn to_u32(self) -> (r: u32)
        ensures
            r == self.spec_to_u32(),
    {
        match self {
            SessionExpiryInterval::Infinite => u32::MAX,
            SessionExpiryInterval::Duration(v) => v,
        }
    }

    /// Intervals compare by their wire value, so `Infinite` is the largest.
    pub fn lt(&self, other: &SessionExpiryInterval) -> (r: bool)
        ensures
            r == (self.spec_to_u32() < other.spec_to_u32()),
    {
        self.to_u32() < other.to_u32()
    }
}

/// Every wire value gives back the interval it was made from.
pub proof fn lemma_session_expiry_roundtrip(value: u32, i: SessionExpiryInterval)
    requires
        i matches SessionExpiryInterval::Duration(d) ==> d != u32::MAX,
    ensures
        SessionExpiryInterval::spec_from_u32(value).spec_to_u32() == value,
        SessionExpiryInterval::spec_from_u32(i.spec_to_u32()) == i,
{
}

/// Ref: 3.1.3.2.7 Correlation Data
#[derive(Debug)]
pub enum CorrelationData {
    /// Correlation data of any length.
    Variable(BinaryData),
    /// Correlation data of exactly 8 bytes.
    Fixed8([u8; 8]),
}

impl View for CorrelationData {
    /// The bytes of the correlation data, without a length prefix.
    type V = Seq<u8>;

    open spec fn view(&self) -> Seq<u8> {
        match self {
            CorrelationData::Variable(b) => b@.skip(2),
            CorrelationData::Fixed8(a) => a@,
        }
    }
}

/// Two correlation data are equal when they hold the same bytes, however each is stored.
impl PartialEq for CorrelationData {
    fn eq(&self, other: &Self) -> (r: bool) {
        buffer_pool::bytes_eq(self.as_bytes(), other.as_bytes())
    }
}

impl vstd::std_specs::cmp::PartialEqSpecImpl for CorrelationData {
    open spec fn obeys_eq_spec() -> bool {
        true
    }

    open spec fn eq_spec(&self, other: &Self) -> bool {
        self@ == other@
    }
}

impl Eq for CorrelationData {
}

impl Clone for CorrelationData {
    fn clone(&self) -> (r: Self)
        ensures
            r@ == self@,
    {
        match self {
            CorrelationData::Variable(b) => CorrelationData::Variable(b.clone()),
            CorrelationData::Fixed8(a) => CorrelationData::Fixed8(*a),
        }
    }
}

impl CorrelationData {
    /// Decodes correlation data from the start of `src`. Returns `None`, leaving `src` as it was,
    /// if `src` holds only part of it.
    pub fn decode(src: &mut Shared) -> (r: Option<Self>)
        ensures
            match spec_split_length_prefixed(old(src)@) {
                Some(raw) => r matches Some(c) && c@ == raw.skip(2) && final(src)@ == old(src)@.skip(
                    raw.len() as int,
                ),
                None => r is None && final(src)@ == old(src)@,
            },
    {
        match BinaryData::decode(src) {
            Some(b) => Some(CorrelationData::Variable(b)),
            None => None,
        }
    }

    /// The sizes of the leading parts of the encoding that `encode` copies, each all or
    /// nothing: the length and the eight bytes of fixed correlation data. Variable correlation
    /// data is handed over whole, without copying.
    pub open spec fn copied_parts(&self) -> Seq<nat> {
        match self {
            CorrelationData::Variable(_) => Seq::empty(),
            CorrelationData::Fixed8(_) => seq![2nat, 8nat],
        }
    }

    /// Appends the length prefix and the bytes to `dst`. Fixed correlation data is copied and
    /// fails with `InsufficientBuffer` where it does not fit; the bytes written before stay.
    pub fn encode<B: BytesAccumulator>(&self, dst: &mut B) -> (r: Result<(), EncodeError>)
        requires
            old(dst).wf(),
            length_prefixed(self@).len() <= old(dst).room(),
        ensures
            final(dst).wf(),
            put_outcome(
                old(dst).contents(),
                old(dst).spare(),
                final(dst).contents(),
                final(dst).spare(),
                length_prefixed(self@),
                self.copied_parts(),
                Ok(()),
                r,
            ),
    {
        proof {
            reveal_with_fuel(parts_total, 3);
            reveal_with_fuel(parts_written, 3);
        }
        match self {
            CorrelationData::Variable(b) => {
                proof {
                    use_type_invariant(b);
                    crate::mqtt_proto::binary_data::lemma_is_length_prefixed(b@);
                }
                let _ = b.encode(dst);
                Ok(())
            },
            CorrelationData::Fixed8(a) => {
                proof {
                    assert(length_prefixed(self@) =~= u16_be_bytes(8) + a@);
                }
                if try_put_u16_be(dst, 8).is_none() {
                    proof {
                        assert(length_prefixed(self@).take(0) =~= Seq::<u8>::empty());
                        assert(old(dst).contents() + Seq::<u8>::empty() =~= old(dst).contents());
                    }
                    return Err(EncodeError::InsufficientBuffer);
                }
                if dst.try_put_slice(a.as_slice()).is_none() {
                    proof {
                        assert(length_prefixed(self@).take(2) =~= u16_be_bytes(8));
                    }
                    return Err(EncodeError::InsufficientBuffer);
                }
                proof {
                    assert(old(dst).contents() + u16_be_bytes(8) + a@ =~= old(dst).contents()
                        + length_prefixed(self@));
                }
                Ok(())
            },
        }
    }

    /// The bytes of the correlation data.
    pub fn as_bytes(&self) -> (r: &[u8])
        ensures
            r@ == self@,
    {
        match self {
            CorrelationData::Variable(b) => b.as_bytes(),
            CorrelationData::Fixed8(a) => a.as_slice(),
        }
    }

    /// Copies this correlation data into a new buffer taken from `owned`.
    pub fn to_shared(&self, owned: &mut Owned) -> (r: Result<Self, buffer_pool::Error>)
        requires
            old(owned)@.0.len() == 0,
        ensures
            r matches Ok(c) && c@ == self@,
            final(owned)@.0.len() == 0,
    {
        match self {
            CorrelationData::Variable(b) => match b.to_shared(owned) {
                Ok(b2) => Ok(CorrelationData::Variable(b2)),
                Err(e) => Err(e),
            },
            CorrelationData::Fixed8(a) => Ok(CorrelationData::Fixed8(*a)),
        }
    }
}

/// Authentication method and data, as carried by CONNECT, CONNACK and AUTH.
#[derive(Debug, PartialEq, Eq)]
pub struct Authentication {
    pub method: ByteStr,
    pub data: Option<BinaryData>,
}

/// The view of an optional value.
pub open spec fn opt_view<T: View>(o: Option<T>) -> Option<T::V> {
    match o {
        Some(v) => Some(v@),
        None => None,
    }
}

impl View for Authentication {
    /// The length-prefixed method, and the length-prefixed data if there is any.
    type V = (Seq<u8>, Option<Seq<u8>>);

    open spec fn view(&self) -> (Seq<u8>, Option<Seq<u8>>) {
        (self.method@, opt_view(self.data))
    }
}

impl Clone for Authentication {
    fn clone(&self) -> (r: Self)
        ensures
            r@ == self@,
    {
        let data = match &self.data {
            Some(d) => Some(d.clone()),
            None => None,
        };
        Authentication { method: self.method.clone(), data }
    }
}

impl Authentication {
    /// Authentication from the method and data properties of a packet: data without a method is
    /// an error.
    pub fn of(method: Option<ByteStr>, data: Option<BinaryData>) -> (r: Result<
        Option<Self>,
        DecodeError,
    >)
        ensures
            match (method, data) {
                (Some(m), d) => r matches Ok(Some(a)) && a@ == (m@, opt_view(d)),
                (None, Some(_)) => r matches Err(e) && e@ == DecodeErrorView::MissingRequiredProperty(
                    "authentication method"@,
                ),
                (None, None) => r matches Ok(None),
            },
    {
        match (method, data) {
            (Some(method), data) => Ok(Some(Authentication { method, data })),
            (None, Some(_)) => Err(DecodeError::MissingRequiredProperty("authentication method")),
            (None, None) => Ok(None),
        }
    }

    /// Copies this authentication into new buffers taken from `owned`.
    pub fn to_shared(&self, owned: &mut Owned) -> (r: Result<Self, buffer_pool::Error>)
        requires
            old(owned)@.0.len() == 0,
        ensures
            r matches Ok(a) && a@ == self@,
            final(owned)@.0.len() == 0,
    {
        let data = match &self.data {
            Some(d) => Some(d.to_shared(owned)?),
            None => None,
        };
        let method = self.method.to_shared(owned)?;
        Ok(Authentication { method, data })
    }

    /// The method and data of an optional authentication, as the properties that carry them.
    pub fn into_parts(this: Option<&Self>) -> (r: (Option<ByteStr>, Option<BinaryData>))
        ensures
            match this {
                Some(a) => opt_view(r.0) == Some(a.method@) && opt_view(r.1) == opt_view(a.data),
                None => r.0 is None && r.1 is None,
            },
    {
        match this {
            Some(a) => {
                let data = match &a.data {
                    Some(d) => Some(d.clone()),
                    None => None,
                };
                (Some(a.method.clone()), data)
            },
            None => (None, None),
        }
    }
}

/// Correlation data of any length holding `s`.
pub fn correlation_data(s: &[u8]) -> (r: CorrelationData)
    requires
        s@.len() <= 65535,
    ensures
        r is Variable,
        r@ == s@,
{
    let b = crate::mqtt_proto::binary_data::binary_data(s);
    proof {
        assert(length_prefixed(s@).skip(2) =~= s@);
    }
    CorrelationData::Variable(b)
}

/// On the wire a keep alive of 0 means no keep alive and any other value is that many seconds;
/// a session expiry interval of `0xFFFFFFFF` means that the session never expires and any other
/// value is that many seconds.
///
/// Ref: 3.1.2.10 Keep Alive; 3.1.2.11.2 Session Expiry Interval
pub proof fn lemma_wire_durations(k: u16, e: u32)
    ensures
        KeepAlive::spec_from_u16(k) is Infinite <==> k == 0,
        KeepAlive::spec_from_u16(k) matches KeepAlive::Duration(d) ==> d@ == k,
        KeepAlive::spec_from_u16(k).spec_to_u16() == k,
        KeepAlive::Infinite.spec_to_u16() == 0,
        SessionExpiryInterval::spec_from_u32(e) is Infinite <==> e == 0xFFFF_FFFFu32,
        SessionExpiryInterval::spec_from_u32(e) matches SessionExpiryInterval::Duration(d) ==> d == e,
        SessionExpiryInterval::Infinite.spec_to_u32() == 0xFFFF_FFFFu32,
{
    broadcast use group_nonzero;
}

} // verus!
