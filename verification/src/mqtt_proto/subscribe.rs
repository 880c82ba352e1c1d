//! Ref: 3.8 SUBSCRIBE - Subscribe request
use vstd::prelude::*;

use crate::buffer_pool::accumulators::{try_put_u16_be, try_put_u8};
use crate::buffer_pool::{self, u16_be_bytes, BytesAccumulator, Owned, Shared};
use crate::mqtt_proto::byte_str::ByteStr;
use crate::mqtt_proto::codes::{QoS, RetainHandling};
use crate::mqtt_proto::filter::{spec_decode_filter, Filter, FilterKind};
use crate::mqtt_proto::packet_fields::{
    clone_user_properties, find_int, no_user_properties, take_int_property,
    user_properties_to_shared,
};
use crate::mqtt_proto::properties::{
    check_properties, decode_properties, encode_properties, props_view, push_user_properties,
    spec_decode_properties, spec_encode_properties, spec_encode_property_list, spec_user_properties,
    user_properties_as_props, user_properties_of, user_properties_repeat, user_properties_view,
    Property, PropertyView,
};
use crate::mqtt_proto::{
    spec_get_packet_identifier, try_get_packet_identifier, try_get_u8, DecodeError, DecodeErrorView,
    EncodeError, PacketIdentifier, ProtocolVersion,
};

verus! {

/// The subscription options of a topic filter besides its maximum QoS.
#[derive(Clone, Copy, Debug, PartialEq, Eq, Structural)]
pub struct SubscribeOptionsOtherProperties {
    pub no_local: bool,
    pub retain_as_published: bool,
    pub retain_handling: RetainHandling,
}

/// The options that v3, which has only the maximum QoS, stands for.
pub open spec fn subscribe_options_default() -> SubscribeOptionsOtherProperties {
    SubscribeOptionsOtherProperties {
        no_local: false,
        retain_as_published: true,
        retain_handling: RetainHandling::Send,
    }
}

impl Default for SubscribeOptionsOtherProperties {
    fn default() -> (r: Self)
        ensures
            r == subscribe_options_default(),
    {
        SubscribeOptionsOtherProperties {
            no_local: false,
            retain_as_published: true,
            retain_handling: RetainHandling::Send,
        }
    }
}

/// Ref: 3.8.3.1 Subscription Options
#[derive(Clone, Copy, Debug, PartialEq, Eq, Structural)]
pub struct SubscribeOptions {
    pub maximum_qos: QoS,
    pub other_properties: SubscribeOptionsOtherProperties,
}

/// Decodes the subscription options byte at the start of `s`.
pub open spec fn spec_decode_subscribe_options(s: Seq<u8>, version: ProtocolVersion) -> Result<
    SubscribeOptions,
    DecodeErrorView,
> {
    if s.len() < 1 {
        Err(DecodeErrorView::IncompletePacket)
    } else {
        let b = s[0];
        if version == ProtocolVersion::V3 {
            match QoS::spec_from_code(b) {
                Some(q) => Ok(
                    SubscribeOptions { maximum_qos: q, other_properties: subscribe_options_default() },
                ),
                None => Err(DecodeErrorView::UnrecognizedQoS(b)),
            }
        } else {
            match QoS::spec_from_code(b & 0x03) {
                None => Err(DecodeErrorView::UnrecognizedQoS(b & 0x03)),
                Some(q) => match RetainHandling::spec_from_code((b & 0x30) >> 4) {
                    None => Err(DecodeErrorView::UnrecognizedRetainHandling((b & 0x30) >> 4)),
                    Some(rh) => if b & 0xC0 != 0 {
                        Err(DecodeErrorView::SubscriptionOptionsReservedSet)
                    } else {
                        Ok(
                            SubscribeOptions {
                                maximum_qos: q,
                                other_properties: SubscribeOptionsOtherProperties {
                                    no_local: b & 0x04 != 0,
                                    retain_as_published: b & 0x08 != 0,
                                    retain_handling: rh,
                                },
                            },
                        )
                    },
                },
            }
        }
    }
}

/// The subscription options byte: in v3 only the maximum QoS.
pub open spec fn spec_subscribe_options_byte(o: SubscribeOptions, version: ProtocolVersion) -> u8 {
    if version == ProtocolVersion::V3 {
        o.maximum_qos.spec_code()
    } else {
        (o.maximum_qos.spec_code() + (if o.other_properties.no_local {
            4u8
        } else {
            0u8
        }) + (if o.other_properties.retain_as_published {
            8u8
        } else {
            0u8
        }) + o.other_properties.retain_handling.spec_code() * 16) as u8
    }
}

impl SubscribeOptions {
    /// Decodes subscription options from `src`.
    pub fn decode(src: &mut Shared, version: ProtocolVersion) -> (r: Result<SubscribeOptions, DecodeError>)
        ensures
            match (r, spec_decode_subscribe_options(old(src)@, version)) {
                (Ok(o), Ok(so)) => o == so && final(src)@ == old(src)@.skip(1),
                (Err(e), Err(se)) => e@ == se,
                _ => false,
            },
    {
        let b = try_get_u8(src)?;
        if version.is_v3() {
            let maximum_qos = QoS::from_code(b)?;
            return Ok(
                SubscribeOptions {
                    maximum_qos,
                    other_properties: SubscribeOptionsOtherProperties::default(),
                },
            );
        }
        let maximum_qos = QoS::from_code(b & 0x03)?;
        let no_local = (b & 0x04) != 0;
        let retain_as_published = (b & 0x08) != 0;
        let retain_handling = RetainHandling::from_code((b & 0x30) >> 4)?;
        if (b & 0xC0) != 0 {
            return Err(DecodeError::SubscriptionOptionsReservedSet);
        }
        Ok(
            SubscribeOptions {
                maximum_qos,
                other_properties: SubscribeOptionsOtherProperties {
                    no_local,
                    retain_as_published,
                    retain_handling,
                },
            },
        )
    }

    /// The subscription options byte.
    pub fn to_u8(&self, version: ProtocolVersion) -> (r: u8)
        ensures
            r == spec_subscribe_options_byte(*self, version),
    {
        if version.is_v3() {
            return self.maximum_qos.to_code();
        }
        let mut b: u8 = self.maximum_qos.to_code();
        if self.other_properties.no_local {
            b = b + 4;
        }
        if self.other_properties.retain_as_published {
            b = b + 8;
        }
        b + self.other_properties.retain_handling.to_code() * 16
    }

    /// Appends the subscription options byte to `dst`.
    pub fn encode<B: BytesAccumulator>(&self, dst: &mut B, version: ProtocolVersion) -> (r: Result<
        (),
        EncodeError,
    >)
        requires
            old(dst).wf(),
        ensures
            final(dst).wf(),
            r is Ok <==> 1 <= old(dst).spare(),
            r is Ok ==> final(dst).contents() == old(dst).contents().push(
                spec_subscribe_options_byte(*self, version),
            ) && final(dst).spare() == old(dst).spare() - 1,
            r is Err ==> r == Err::<(), EncodeError>(EncodeError::InsufficientBuffer)
                && final(dst).contents() == old(dst).contents(),
    {
        match try_put_u8(dst, self.to_u8(version)) {
            Some(()) => Ok(()),
            None => Err(EncodeError::InsufficientBuffer),
        }
    }
}

/// Decoding a subscription options byte gives back the options it was made from: in v5 exactly,
/// in v3 the maximum QoS with the default other options.
pub proof fn lemma_subscribe_options_roundtrip(o: SubscribeOptions, version: ProtocolVersion, rest: Seq<u8>)
    ensures
        spec_decode_subscribe_options(seq![spec_subscribe_options_byte(o, version)] + rest, version)
            == Ok::<SubscribeOptions, DecodeErrorView>(
            if version == ProtocolVersion::V5 {
                o
            } else {
                SubscribeOptions { maximum_qos: o.maximum_qos, other_properties: subscribe_options_default() }
            },
        ),
{
    let b = spec_subscribe_options_byte(o, version);
    let s = seq![b] + rest;
    assert(s[0] == b);
    o.maximum_qos.lemma_code_roundtrip(0);
    o.other_properties.retain_handling.lemma_code_roundtrip(0);
    if version == ProtocolVersion::V5 {
        let q = o.maximum_qos.spec_code();
        let nl: u8 = if o.other_properties.no_local {
            4u8
        } else {
            0u8
        };
        let rap: u8 = if o.other_properties.retain_as_published {
            8u8
        } else {
            0u8
        };
        let rh = o.other_properties.retain_handling.spec_code();
        assert(q <= 2 && rh <= 2);
        assert(b == (q + nl + rap + rh * 16) as u8);
        assert(b & 0x03 == q && (b & 0x30) >> 4 == rh && b & 0xC0 == 0 && ((b & 0x04) != 0) == (nl
            == 4) && ((b & 0x08) != 0) == (rap == 8)) by (bit_vector)
            requires
                b == (q + nl + rap + rh * 16) as u8,
                q <= 2,
                rh <= 2,
                nl == 0 || nl == 4,
                rap == 0 || rap == 8,
        ;
    }
}

/// A subscription options byte that decodes is the byte that its options encode to, in v5 and in
/// v3 alike; decoding it takes exactly one byte. In v5 the byte fails, in this order, with
/// `UnrecognizedQoS(3)` when its two low bits are both set, with `UnrecognizedRetainHandling(3)`
/// when its bits 4 and 5 are both set, and with `SubscriptionOptionsReservedSet` when one of its two
/// high bits is set; in v3 it decodes exactly when it is at most 2.
pub proof fn lemma_subscribe_options_byte(s: Seq<u8>, version: ProtocolVersion)
    requires
        s.len() >= 1,
    ensures
        spec_decode_subscribe_options(s, version) matches Ok(o) ==> spec_subscribe_options_byte(
            o,
            version,
        ) == s[0],
        version == ProtocolVersion::V3 ==> (spec_decode_subscribe_options(s, version) is Ok <==> s[0]
            <= 2),
        version == ProtocolVersion::V5 ==> {
            let b = s[0];
            &&& b & 0x03 == 0x03 ==> spec_decode_subscribe_options(s, version) == Err::<
                SubscribeOptions,
                DecodeErrorView,
            >(DecodeErrorView::UnrecognizedQoS(3))
            &&& b & 0x03 != 0x03 && b & 0x30 == 0x30 ==> spec_decode_subscribe_options(s, version)
                == Err::<SubscribeOptions, DecodeErrorView>(
                DecodeErrorView::UnrecognizedRetainHandling(3),
            )
            &&& b & 0x03 != 0x03 && b & 0x30 != 0x30 && b & 0xC0 != 0 ==> spec_decode_subscribe_options(
                s,
                version,
            ) == Err::<SubscribeOptions, DecodeErrorView>(DecodeErrorView::SubscriptionOptionsReservedSet)
            &&& (spec_decode_subscribe_options(s, version) is Ok <==> (b & 0x03 != 0x03 && b & 0x30
                != 0x30 && b & 0xC0 == 0))
        },
{
    let b = s[0];
    if version == ProtocolVersion::V5 {
        assert(b & 0x03 <= 3 && (b & 0x30) >> 4 <= 3 && ((b & 0x03 == 0x03) == (b & 0x03 == 3)) && ((
        b & 0x30 == 0x30) == ((b & 0x30) >> 4 == 3))) by (bit_vector);
        if let Ok(o) = spec_decode_subscribe_options(s, version) {
            let q = b & 0x03;
            let rh = (b & 0x30) >> 4;
            o.maximum_qos.lemma_code_roundtrip(q);
            o.other_properties.retain_handling.lemma_code_roundtrip(rh);
            let nl: u8 = if b & 0x04 != 0 {
                4u8
            } else {
                0u8
            };
            let rap: u8 = if b & 0x08 != 0 {
                8u8
            } else {
                0u8
            };
            assert(b == (q + nl + rap + rh * 16) as u8) by (bit_vector)
                requires
                    q == b & 0x03,
                    rh == (b & 0x30) >> 4,
                    b & 0xC0 == 0,
                    nl == (if b & 0x04 != 0 {
                        4u8
                    } else {
                        0u8
                    }),
                    rap == (if b & 0x08 != 0 {
                        8u8
                    } else {
                        0u8
                    }),
            ;
        }
    } else {
        if let Ok(o) = spec_decode_subscribe_options(s, version) {
            o.maximum_qos.lemma_code_roundtrip(b);
        }
    }
}

/// Where each option sits in a v5 subscription options byte: the maximum QoS in bits 0 and 1, no
/// local in bit 2, retain as published in bit 3, and the retain handling in bits 4 and 5. A v3
/// byte is the maximum QoS alone.
///
/// Ref: 3.8.3.1 Subscription Options
pub proof fn lemma_subscribe_options_bits(o: SubscribeOptions, s: Seq<u8>)
    requires
        s.len() >= 1,
    ensures
        ({
            let b = spec_subscribe_options_byte(o, ProtocolVersion::V5);
            &&& b & 0x03 == o.maximum_qos.spec_code()
            &&& (b & 0x04 != 0) == o.other_properties.no_local
            &&& (b & 0x08 != 0) == o.other_properties.retain_as_published
            &&& (b >> 4) & 0x03 == o.other_properties.retain_handling.spec_code()
            &&& b & 0xC0 == 0
        }),
        spec_subscribe_options_byte(o, ProtocolVersion::V3) == o.maximum_qos.spec_code(),
        spec_decode_subscribe_options(s, ProtocolVersion::V5) matches Ok(d) ==> {
            &&& d.maximum_qos.spec_code() == s[0] & 0x03
            &&& d.other_properties.no_local == (s[0] & 0x04 != 0)
            &&& d.other_properties.retain_as_published == (s[0] & 0x08 != 0)
            &&& d.other_properties.retain_handling.spec_code() == (s[0] >> 4) & 0x03
        },
{
    let b = spec_subscribe_options_byte(o, ProtocolVersion::V5);
    let q = o.maximum_qos.spec_code();
    let nl: u8 = if o.other_properties.no_local {
        4u8
    } else {
        0u8
    };
    let rap: u8 = if o.other_properties.retain_as_published {
        8u8
    } else {
        0u8
    };
    let rh = o.other_properties.retain_handling.spec_code();
    assert(q <= 2 && rh <= 2);
    assert(b == (q + nl + rap + rh * 16) as u8);
    assert(b & 0x03 == q && (b >> 4) & 0x03 == rh && b & 0xC0 == 0 && ((b & 0x04) != 0) == (nl == 4)
        && ((b & 0x08) != 0) == (rap == 8)) by (bit_vector)
        requires
            b == (q + nl + rap + rh * 16) as u8,
            q <= 2,
            rh <= 2,
            nl == 0 || nl == 4,
            rap == 0 || rap == 8,
    ;
    let c = s[0];
    if let Ok(d) = spec_decode_subscribe_options(s, ProtocolVersion::V5) {
        d.maximum_qos.lemma_code_roundtrip(c & 0x03);
        d.other_properties.retain_handling.lemma_code_roundtrip((c & 0x30) >> 4);
        assert((c & 0x30) >> 4 == (c >> 4) & 0x03) by (bit_vector);
    }
}

/// A topic filter and the options to subscribe to it with.
#[derive(Debug, PartialEq, Eq)]
pub struct SubscribeTo {
    pub topic_filter: Filter,
    pub options: SubscribeOptions,
}

impl View for SubscribeTo {
    type V = ((Seq<u8>, FilterKind), SubscribeOptions);

    open spec fn view(&self) -> ((Seq<u8>, FilterKind), SubscribeOptions) {
        (self.topic_filter@, self.options)
    }
}

impl Clone for SubscribeTo {
    fn clone(&self) -> (r: Self)
        ensures
            r@ == self@,
    {
        SubscribeTo { topic_filter: self.topic_filter.clone(), options: self.options }
    }
}

/// Decodes a topic filter and its options at the start of `s`: them and the number of bytes they
/// take. A shared subscription cannot ask for no local messages.
///
/// Ref: [MQTT-3.8.3-4]
#[verifier::opaque]
pub open spec fn spec_decode_subscribe_to(s: Seq<u8>, version: ProtocolVersion) -> Result<
    (((Seq<u8>, FilterKind), SubscribeOptions), nat),
    DecodeErrorView,
> {
    match spec_decode_filter(s) {
        Err(e) => Err(e),
        Ok(None) => Err(DecodeErrorView::IncompletePacket),
        Ok(Some((raw, k))) => match spec_decode_subscribe_options(s.skip(raw.len() as int), version) {
            Err(e) => Err(e),
            Ok(o) => if k is Shared && o.other_properties.no_local {
                Err(DecodeErrorView::NoLocalWithSharedSubscription)
            } else {
                Ok((((raw, k), o), raw.len() + 1))
            },
        },
    }
}

/// A topic filter followed by an options byte, both of which decode, is refused with
/// `NoLocalWithSharedSubscription` exactly when the filter is a shared subscription and the
/// options ask for no local messages, which only a v5 byte can ask for, by its bit 2; otherwise it
/// decodes to the filter and the options, taking the filter's bytes and one more.
pub proof fn lemma_subscribe_to_no_local(s: Seq<u8>, version: ProtocolVersion)
    requires
        spec_decode_filter(s) is Ok,
        spec_decode_filter(s)->Ok_0 is Some,
        spec_decode_subscribe_options(
            s.skip(spec_decode_filter(s)->Ok_0->Some_0.0.len() as int),
            version,
        ) is Ok,
    ensures
        ({
            let raw = spec_decode_filter(s)->Ok_0->Some_0.0;
            let k = spec_decode_filter(s)->Ok_0->Some_0.1;
            let o = spec_decode_subscribe_options(s.skip(raw.len() as int), version)->Ok_0;
            &&& raw.len() < s.len()
            &&& o.other_properties.no_local <==> (version == ProtocolVersion::V5 && s[raw.len() as int]
                & 0x04 != 0)
            &&& spec_decode_subscribe_to(s, version) == Err::<
                (((Seq<u8>, FilterKind), SubscribeOptions), nat),
                DecodeErrorView,
            >(DecodeErrorView::NoLocalWithSharedSubscription) <==> (k is Shared
                && o.other_properties.no_local)
            &&& !(k is Shared && o.other_properties.no_local) ==> spec_decode_subscribe_to(s, version)
                == Ok::<(((Seq<u8>, FilterKind), SubscribeOptions), nat), DecodeErrorView>(
                (((raw, k), o), raw.len() + 1),
            )
        }),
{
    reveal(spec_decode_subscribe_to);
    let raw = spec_decode_filter(s)->Ok_0->Some_0.0;
    let rest = s.skip(raw.len() as int);
    assert(rest.len() >= 1);
    assert(rest[0] == s[raw.len() as int]);
}

impl SubscribeTo {
    /// Decodes a topic filter and its options from `src`.
    pub fn decode(src: &mut Shared, version: ProtocolVersion) -> (r: Result<SubscribeTo, DecodeError>)
        ensures
            match (r, spec_decode_subscribe_to(old(src)@, version)) {
                (Ok(t), Ok((v, n))) => t@ == v && final(src)@ == old(src)@.skip(n as int),
                (Err(e), Err(se)) => e@ == se,
                _ => false,
            },
    {
        reveal(spec_decode_subscribe_to);
        let ghost s = src@;
        let topic_filter = match Filter::decode(src) {
            Ok(Some(f)) => f,
            Ok(None) => {
                return Err(DecodeError::IncompletePacket);
            },
            Err(e) => {
                return Err(e);
            },
        };
        let options = SubscribeOptions::decode(src, version)?;
        proof {
            assert(src@ =~= s.skip((topic_filter@.0.len() + 1) as int));
        }
        if topic_filter.is_shared() && options.other_properties.no_local {
            return Err(DecodeError::NoLocalWithSharedSubscription);
        }
        Ok(SubscribeTo { topic_filter, options })
    }

    /// Appends the topic filter and its options to `dst`.
    pub fn encode<B: BytesAccumulator>(&self, dst: &mut B, version: ProtocolVersion) -> (r: Result<
        (),
        EncodeError,
    >)
        requires
            old(dst).wf(),
            self@.0.0.len() + 1 <= old(dst).room(),
        ensures
            final(dst).wf(),
            r is Ok <==> 1 <= old(dst).spare(),
            r is Ok ==> final(dst).contents() == old(dst).contents() + spec_encode_subscribe_to(
                self@,
                version,
            ) && final(dst).spare() >= old(dst).spare() - (self@.0.0.len() + 1),
            r is Err ==> r == Err::<(), EncodeError>(EncodeError::InsufficientBuffer)
                && final(dst).contents() == old(dst).contents() + self@.0.0,
    {
        proof {
            dst.lemma_room();
        }
        let _ = self.topic_filter.encode(dst);
        let r = self.options.encode(dst, version);
        proof {
            assert(old(dst).contents() + self@.0.0 + seq![spec_subscribe_options_byte(self.options, version)]
                =~= old(dst).contents() + spec_encode_subscribe_to(self@, version));
        }
        r
    }

    /// Copies this topic filter into a new buffer taken from `owned`.
    pub fn to_shared(&self, owned: &mut Owned) -> (r: Result<SubscribeTo, buffer_pool::Error>)
        requires
            old(owned)@.0.len() == 0,
        ensures
            r matches Ok(t) && t@ == self@,
            final(owned)@.0.len() == 0,
    {
        Ok(SubscribeTo { topic_filter: self.topic_filter.to_shared(owned)?, options: self.options })
    }
}

/// The encoding of a topic filter and its options.
pub open spec fn spec_encode_subscribe_to(t: ((Seq<u8>, FilterKind), SubscribeOptions), version: ProtocolVersion) -> Seq<u8> {
    t.0.0 + seq![spec_subscribe_options_byte(t.1, version)]
}

/// The properties of a SUBSCRIBE besides its packet identifier and topic filters.
#[derive(Debug, PartialEq, Eq)]
pub struct SubscribeOtherProperties {
    pub subscription_identifier: Option<u32>,
    pub user_properties: Vec<(ByteStr, ByteStr)>,
}

/// The properties of a SUBSCRIBE with their strings taken as bytes.
pub struct SubscribeOtherPropertiesView {
    pub subscription_identifier: Option<u32>,
    pub user_properties: Seq<(Seq<u8>, Seq<u8>)>,
}

impl View for SubscribeOtherProperties {
    type V = SubscribeOtherPropertiesView;

    open spec fn view(&self) -> SubscribeOtherPropertiesView {
        SubscribeOtherPropertiesView {
            subscription_identifier: self.subscription_identifier,
            user_properties: user_properties_view(self.user_properties@),
        }
    }
}

/// The identifiers of the properties a SUBSCRIBE takes.
pub open spec fn subscribe_allowed() -> Seq<u8> {
    seq![0x0Bu8, 0x26u8]
}

/// Decodes the properties of a SUBSCRIBE (none in v3): them and the number of bytes they took.
pub open spec fn spec_decode_subscribe_properties(s: Seq<u8>, version: ProtocolVersion) -> Result<
    (SubscribeOtherPropertiesView, nat),
    DecodeErrorView,
> {
    if version == ProtocolVersion::V3 {
        Ok((SubscribeOtherPropertiesView { subscription_identifier: None, user_properties: Seq::empty() }, 0))
    } else {
        match spec_decode_properties(s, subscribe_allowed(), user_properties_repeat()) {
            Err(e) => Err(e),
            Ok((ps, n)) => Ok(
                (
                    SubscribeOtherPropertiesView {
                        subscription_identifier: find_int(ps, 0x0B),
                        user_properties: spec_user_properties(ps),
                    },
                    n,
                ),
            ),
        }
    }
}

/// The properties a SUBSCRIBE encodes, in order.
pub open spec fn subscribe_properties(v: SubscribeOtherPropertiesView) -> Seq<PropertyView> {
    (match v.subscription_identifier {
        Some(id) => seq![PropertyView::SubscriptionIdentifier(id)],
        None => Seq::empty(),
    }) + user_properties_as_props(v.user_properties)
}

impl SubscribeOtherProperties {
    /// Decodes the properties of a SUBSCRIBE from `src`.
    pub fn decode(src: &mut Shared, version: ProtocolVersion) -> (r: Result<
        SubscribeOtherProperties,
        DecodeError,
    >)
        ensures
            match (r, spec_decode_subscribe_properties(old(src)@, version)) {
                (Ok(p), Ok((v, n))) => p@ == v && final(src)@ == old(src)@.skip(n as int),
                (Err(e), Err(se)) => e@ == se,
                _ => false,
            },
    {
        let ghost s = src@;
        if version.is_v3() {
            proof {
                assert(src@ =~= s.skip(0));
            }
            return Ok(
                SubscribeOtherProperties {
                    subscription_identifier: None,
                    user_properties: no_user_properties(),
                },
            );
        }
        let allowed: [u8; 2] = [0x0B, 0x26];
        let repeatable: [u8; 1] = [0x26];
        proof {
            assert(allowed@ =~= subscribe_allowed());
            assert(repeatable@ =~= user_properties_repeat());
        }
        let ps = decode_properties(src, allowed.as_slice(), repeatable.as_slice())?;
        Ok(
            SubscribeOtherProperties {
                subscription_identifier: take_int_property(&ps, 0x0B),
                user_properties: user_properties_of(&ps),
            },
        )
    }

    /// The properties these encode to, in order.
    pub fn to_properties(&self) -> (r: Vec<Property>)
        ensures
            props_view(r@) == subscribe_properties(self@),
    {
        let mut ps: Vec<Property> = Vec::new();
        if let Some(id) = self.subscription_identifier {
            ps.push(Property::SubscriptionIdentifier(id));
        }
        let ghost p1 = props_view(ps@);
        push_user_properties(&mut ps, &self.user_properties);
        proof {
            assert(props_view(ps@) =~= subscribe_properties(self@));
        }
        ps
    }

    /// Appends the property section these stand for to `dst`; v3 has none and appends nothing.
    pub fn encode<B: BytesAccumulator>(&self, dst: &mut B, version: ProtocolVersion) -> (r: Result<
        (),
        EncodeError,
    >)
        requires
            old(dst).wf(),
            spec_encode_property_list(subscribe_properties(self@)).len() <= usize::MAX,
            spec_encode_properties(subscribe_properties(self@)) matches Ok(bytes) ==> bytes.len()
                <= old(dst).spare(),
        ensures
            final(dst).wf(),
            version == ProtocolVersion::V3 ==> r is Ok && final(dst).contents() == old(dst).contents(),
            version == ProtocolVersion::V5 ==> match spec_encode_properties(subscribe_properties(self@)) {
                Ok(bytes) => r is Ok && final(dst).contents() == old(dst).contents() + bytes,
                Err(e) => r == Err::<(), EncodeError>(e) && final(dst).contents() == old(dst).contents(),
            },
    {
        if version.is_v5() {
            let ps = self.to_properties();
            encode_properties(&ps, dst)
        } else {
            Ok(())
        }
    }

    /// Copies these properties into new buffers taken from `owned`.
    pub fn to_shared(&self, owned: &mut Owned) -> (r: Result<SubscribeOtherProperties, buffer_pool::Error>)
        requires
            old(owned)@.0.len() == 0,
        ensures
            r matches Ok(p) && p@ == self@,
            final(owned)@.0.len() == 0,
    {
        let user_properties = user_properties_to_shared(&self.user_properties, owned)?;
        Ok(SubscribeOtherProperties { subscription_identifier: self.subscription_identifier, user_properties })
    }
}

/// Ref: 3.8 SUBSCRIBE - Subscribe request
#[derive(Debug, PartialEq, Eq)]
pub struct Subscribe {
    pub packet_identifier: PacketIdentifier,
    pub subscribe_to: Vec<SubscribeTo>,
    pub other_properties: SubscribeOtherProperties,
}

/// A SUBSCRIBE with its topic filters and properties taken as their views.
pub struct SubscribeView {
    pub packet_identifier: u16,
    pub subscribe_to: Seq<((Seq<u8>, FilterKind), SubscribeOptions)>,
    pub other_properties: SubscribeOtherPropertiesView,
}

/// The views of topic filters with their options.
pub open spec fn subscribe_to_view(v: Seq<SubscribeTo>) -> Seq<((Seq<u8>, FilterKind), SubscribeOptions)> {
    v.map_values(|t: SubscribeTo| t@)
}

impl View for Subscribe {
    type V = SubscribeView;

    open spec fn view(&self) -> SubscribeView {
        SubscribeView {
            packet_identifier: self.packet_identifier@,
            subscribe_to: subscribe_to_view(self.subscribe_to@),
            other_properties: self.other_properties@,
        }
    }
}

/// Decodes the topic filters with their options that fill `s`, after those in `acc`.
pub open spec fn spec_decode_subscribe_to_list(
    s: Seq<u8>,
    version: ProtocolVersion,
    acc: Seq<((Seq<u8>, FilterKind), SubscribeOptions)>,
) -> Result<Seq<((Seq<u8>, FilterKind), SubscribeOptions)>, DecodeErrorView>
    decreases s.len(),
{
    if s.len() == 0 {
        Ok(acc)
    } else {
        match spec_decode_subscribe_to(s, version) {
            Err(e) => Err(e),
            Ok((t, n)) => if 1 <= n <= s.len() {
                spec_decode_subscribe_to_list(s.skip(n as int), version, acc.push(t))
            } else {
                Err(DecodeErrorView::IncompletePacket)
            },
        }
    }
}

/// Decodes the body of a SUBSCRIBE: the packet and the number of bytes it took, which is all of
/// them. A SUBSCRIBE must hold at least one topic filter.
pub open spec fn spec_decode_subscribe(s: Seq<u8>, version: ProtocolVersion) -> Result<
    (SubscribeView, nat),
    DecodeErrorView,
> {
    match spec_get_packet_identifier(s) {
        Err(e) => Err(e),
        Ok(pid) => match spec_decode_subscribe_properties(s.skip(2), version) {
            Err(e) => Err(e),
            Ok((props, n)) => match spec_decode_subscribe_to_list(s.skip((2 + n) as int), version, Seq::empty()) {
                Err(e) => Err(e),
                Ok(list) => if list.len() == 0 {
                    Err(DecodeErrorView::NoTopics)
                } else {
                    Ok(
                        (
                            SubscribeView {
                                packet_identifier: pid,
                                subscribe_to: list,
                                other_properties: props,
                            },
                            s.len(),
                        ),
                    )
                },
            },
        },
    }
}

/// The encodings of topic filters with their options, one after another.
pub open spec fn spec_encode_subscribe_to_list(
    list: Seq<((Seq<u8>, FilterKind), SubscribeOptions)>,
    version: ProtocolVersion,
) -> Seq<u8>
    decreases list.len(),
{
    if list.len() == 0 {
        Seq::empty()
    } else {
        spec_encode_subscribe_to_list(list.drop_last(), version) + spec_encode_subscribe_to(
            list.last(),
            version,
        )
    }
}

/// Encodes the body of a SUBSCRIBE: the packet identifier, in v5 the properties, and the topic
/// filters with their options, of which there must be at least one.
pub open spec fn spec_encode_subscribe(v: SubscribeView, version: ProtocolVersion) -> Result<
    Seq<u8>,
    EncodeError,
> {
    let props = if version == ProtocolVersion::V5 {
        spec_encode_properties(subscribe_properties(v.other_properties))
    } else {
        Ok(Seq::empty())
    };
    match props {
        Err(e) => Err(e),
        Ok(props) => if v.subscribe_to.len() == 0 {
            Err(EncodeError::NoTopics)
        } else {
            Ok(u16_be_bytes(v.packet_identifier) + props + spec_encode_subscribe_to_list(
                v.subscribe_to,
                version,
            ))
        },
    }
}

/// The encoding of a prefix of a list is no longer than that of the list.
proof fn lemma_subscribe_to_list_prefix(
    list: Seq<((Seq<u8>, FilterKind), SubscribeOptions)>,
    version: ProtocolVersion,
    i: int,
)
    requires
        0 <= i <= list.len(),
    ensures
        spec_encode_subscribe_to_list(list.take(i), version).len() <= spec_encode_subscribe_to_list(
            list,
            version,
        ).len(),
    decreases list.len(),
{
    if i < list.len() {
        assert(list.drop_last().take(i) =~= list.take(i));
        lemma_subscribe_to_list_prefix(list.drop_last(), version, i);
    } else {
        assert(list.take(i) =~= list);
    }
}

impl Subscribe {
    pub const PACKET_TYPE: u8 = 0x80;

    /// Decodes the body of a SUBSCRIBE from `src`.
    pub fn decode(_flags: u8, src: &mut Shared, version: ProtocolVersion) -> (r: Result<
        Subscribe,
        DecodeError,
    >)
        ensures
            match (r, spec_decode_subscribe(old(src)@, version)) {
                (Ok(p), Ok((v, n))) => p@ == v && final(src)@ == old(src)@.skip(n as int),
                (Err(e), Err(se)) => e@ == se,
                _ => false,
            },
    {
        let ghost s = src@;
        let packet_identifier = try_get_packet_identifier(src)?;
        proof {
            assert(src@ =~= s.skip(2));
        }
        let other_properties = SubscribeOtherProperties::decode(src, version)?;
        let ghost whole = src@;
        let ghost n = s.len() - 2 - whole.len();
        proof {
            assert(whole =~= s.skip(2 + n));
        }
        let mut subscribe_to: Vec<SubscribeTo> = Vec::new();
        let ghost mut k: int = 0;
        proof {
            assert(subscribe_to_view(subscribe_to@) =~= Seq::<((Seq<u8>, FilterKind), SubscribeOptions)>::empty());
            assert(src@ =~= whole.skip(0));
        }
        let ghost expected = match spec_decode_subscribe_to_list(whole, version, Seq::empty()) {
            Err(e) => Err(e),
            Ok(list) => if list.len() == 0 {
                Err(DecodeErrorView::NoTopics)
            } else {
                Ok(
                    (
                        SubscribeView {
                            packet_identifier: packet_identifier@,
                            subscribe_to: list,
                            other_properties: other_properties@,
                        },
                        s.len(),
                    ),
                )
            },
        };
        proof {
            assert(spec_decode_subscribe(s, version) == expected);
        }
        while src.len() > 0
            invariant
                0 <= k <= whole.len(),
                src@ == whole.skip(k),
                s == old(src)@,
                spec_decode_subscribe(s, version) == expected,
                expected == match spec_decode_subscribe_to_list(whole, version, Seq::empty()) {
                    Err(e) => Err(e),
                    Ok(list) => if list.len() == 0 {
                        Err(DecodeErrorView::NoTopics)
                    } else {
                        Ok(
                            (
                                SubscribeView {
                                    packet_identifier: packet_identifier@,
                                    subscribe_to: list,
                                    other_properties: other_properties@,
                                },
                                s.len(),
                            ),
                        )
                    },
                },
                spec_decode_subscribe_to_list(whole, version, Seq::empty())
                    == spec_decode_subscribe_to_list(src@, version, subscribe_to_view(subscribe_to@)),
            decreases src@.len(),
        {
            let ghost before = src@;
            let ghost acc = subscribe_to_view(subscribe_to@);
            let t = match SubscribeTo::decode(src, version) {
                Ok(t) => t,
                Err(e) => {
                    proof {
                        assert(spec_decode_subscribe_to_list(whole, version, Seq::empty()) == Err::<
                            Seq<((Seq<u8>, FilterKind), SubscribeOptions)>,
                            DecodeErrorView,
                        >(e@));
                    }
                    return Err(e);
                },
            };
            proof {
                lemma_subscribe_to_len(before, version);
            }
            subscribe_to.push(t);
            proof {
                assert(subscribe_to_view(subscribe_to@) =~= acc.push(t@));
                k = k + (before.len() - src@.len());
                assert(src@ =~= whole.skip(k));
            }
        }
        proof {
            assert(src@.len() == 0);
            assert(src@ =~= s.skip(s.len() as int));
        }
        if subscribe_to.len() == 0 {
            return Err(DecodeError::NoTopics);
        }
        Ok(Subscribe { packet_identifier, subscribe_to, other_properties })
    }

    /// Encodes the body of this SUBSCRIBE into `dst`.
    pub fn encode<B: BytesAccumulator>(&self, dst: &mut B, version: ProtocolVersion) -> (r: Result<
        (),
        EncodeError,
    >)
        requires
            old(dst).wf(),
            spec_encode_property_list(subscribe_properties(self@.other_properties)).len() <= usize::MAX,
            spec_encode_subscribe(self@, version) matches Ok(bytes) ==> bytes.len() <= old(dst).spare(),
        ensures
            final(dst).wf(),
            match spec_encode_subscribe(self@, version) {
                Ok(bytes) => r is Ok && final(dst).contents() == old(dst).contents() + bytes
                    && final(dst).spare() >= old(dst).spare() - bytes.len(),
                Err(e) => r == Err::<(), EncodeError>(e) && final(dst).contents() == old(
                    dst,
                ).contents(),
            },
    {
        let mut ps: Vec<Property> = Vec::new();
        if version.is_v5() {
            ps = self.other_properties.to_properties();
            check_properties(&ps)?;
        }
        if self.subscribe_to.len() == 0 {
            return Err(EncodeError::NoTopics);
        }
        let ghost bytes = spec_encode_subscribe(self@, version)->Ok_0;
        let _ = try_put_u16_be(dst, self.packet_identifier.get());
        if version.is_v5() {
            let _ = encode_properties(&ps, dst);
        }
        let ghost start = dst.contents();
        let ghost start_spare = dst.spare();
        proof {
            let props = if version == ProtocolVersion::V5 {
                spec_encode_properties(props_view(ps@))->Ok_0
            } else {
                Seq::empty()
            };
            assert(start =~= old(dst).contents() + (u16_be_bytes(self@.packet_identifier) + props));
            assert(subscribe_to_view(self.subscribe_to@).take(0) =~= Seq::<((Seq<u8>, FilterKind), SubscribeOptions)>::empty());
            assert(start + Seq::<u8>::empty() =~= start);
        }
        let mut i: usize = 0;
        while i < self.subscribe_to.len()
            invariant
                i <= self.subscribe_to@.len(),
                dst.wf(),
                dst.contents() == start + spec_encode_subscribe_to_list(
                    subscribe_to_view(self.subscribe_to@).take(i as int),
                    version,
                ),
                dst.spare() + spec_encode_subscribe_to_list(
                    subscribe_to_view(self.subscribe_to@).take(i as int),
                    version,
                ).len() >= start_spare,
                start_spare >= spec_encode_subscribe_to_list(subscribe_to_view(self.subscribe_to@), version).len(),
                start_spare + bytes.len() >= old(dst).spare() + spec_encode_subscribe_to_list(
                    subscribe_to_view(self.subscribe_to@),
                    version,
                ).len(),
            decreases self.subscribe_to@.len() - i,
        {
            let ghost list = subscribe_to_view(self.subscribe_to@);
            proof {
                assert(list.take(i + 1).drop_last() =~= list.take(i as int));
                assert(list.take(i + 1).last() == self.subscribe_to@[i as int]@);
                lemma_subscribe_to_list_prefix(list, version, i + 1);
                dst.lemma_room();
            }
            let _ = self.subscribe_to[i].encode(dst, version);
            proof {
                assert(start + spec_encode_subscribe_to_list(list.take(i as int), version)
                    + spec_encode_subscribe_to(list[i as int], version) =~= start
                    + spec_encode_subscribe_to_list(list.take(i + 1), version));
            }
            i = i + 1;
        }
        proof {
            assert(subscribe_to_view(self.subscribe_to@).take(i as int) =~= subscribe_to_view(self.subscribe_to@));
            assert(dst.contents() =~= old(dst).contents() + bytes);
        }
        Ok(())
    }

    /// Copies this SUBSCRIBE into new buffers taken from `owned`.
    pub fn to_shared(&self, owned: &mut Owned) -> (r: Result<Subscribe, buffer_pool::Error>)
        requires
            old(owned)@.0.len() == 0,
        ensures
            r matches Ok(p) && p@ == self@,
            final(owned)@.0.len() == 0,
    {
        let mut subscribe_to: Vec<SubscribeTo> = Vec::new();
        let mut i: usize = 0;
        while i < self.subscribe_to.len()
            invariant
                i <= self.subscribe_to@.len(),
                owned@.0.len() == 0,
                subscribe_to_view(subscribe_to@) == subscribe_to_view(self.subscribe_to@).take(i as int),
            decreases self.subscribe_to@.len() - i,
        {
            let ghost prev = subscribe_to@;
            let t = self.subscribe_to[i].to_shared(owned)?;
            subscribe_to.push(t);
            proof {
                assert(subscribe_to_view(subscribe_to@) =~= subscribe_to_view(prev).push(t@));
                assert(subscribe_to_view(subscribe_to@) =~= subscribe_to_view(self.subscribe_to@).take(i + 1));
            }
            i = i + 1;
        }
        proof {
            assert(subscribe_to_view(self.subscribe_to@).take(i as int) =~= subscribe_to_view(self.subscribe_to@));
        }
        Ok(
            Subscribe {
                packet_identifier: self.packet_identifier,
                subscribe_to,
                other_properties: self.other_properties.to_shared(owned)?,
            },
        )
    }
}

/// A decoded topic filter with its options takes at least one byte.
proof fn lemma_subscribe_to_len(s: Seq<u8>, version: ProtocolVersion)
    ensures
        spec_decode_subscribe_to(s, version) matches Ok((t, n)) ==> 1 <= n <= s.len(),
{
    reveal(spec_decode_subscribe_to);
    if let Ok(Some((raw, k))) = spec_decode_filter(s) {
        assert(raw.len() <= s.len());
        if let Ok(o) = spec_decode_subscribe_options(s.skip(raw.len() as int), version) {
            assert(s.skip(raw.len() as int).len() >= 1);
        }
    }
}

} // verus!
