//! Ref: 3.11 UNUNSUBACK – Unsubscribe acknowledgement
use vstd::prelude::*;

use crate::buffer_pool::accumulators::{try_put_u16_be, try_put_u8};
use crate::buffer_pool::{self, u16_be_bytes, BytesAccumulator, Owned, Shared};
use crate::mqtt_proto::byte_str::ByteStr;
use crate::mqtt_proto::codes::UnsubAckReasonCode;
use crate::mqtt_proto::packet_fields::{opt_str_wf, user_properties_wf};
use crate::mqtt_proto::properties::properties_decodable;
use crate::mqtt_proto::property_lists::{group_decodable_pieces, group_property_lists};
use crate::mqtt_proto::packet_fields::{
    clone_opt_str, clone_user_properties, find_bytes, no_user_properties, opt_str_prop,
    opt_str_to_shared, push_str_property, take_str_property, user_properties_to_shared,
};
use crate::mqtt_proto::properties::{
    check_properties, decode_properties, encode_properties, props_view, push_user_properties,
    spec_decode_properties, spec_encode_properties, spec_encode_property_list, spec_user_properties,
    user_properties_as_props, user_properties_of, user_properties_repeat, user_properties_view,
    Property, PropertyView,
};
use crate::mqtt_proto::property::opt_view;
use crate::mqtt_proto::{
    spec_get_packet_identifier, try_get_packet_identifier, DecodeError, DecodeErrorView, EncodeError,
    PacketIdentifier, ProtocolVersion,
};

verus! {

/// The properties of a UNSUBACK besides its packet identifier and reason codes.
#[derive(Debug, PartialEq, Eq)]
pub struct UnsubAckOtherProperties {
    pub reason_string: Option<ByteStr>,
    pub user_properties: Vec<(ByteStr, ByteStr)>,
}

/// Ref: 3.11 UNSUBACK – Unsubscribe acknowledgement
#[derive(Debug, PartialEq, Eq)]
pub struct UnsubAck {
    pub packet_identifier: PacketIdentifier,
    pub reason_codes: Vec<UnsubAckReasonCode>,
    pub other_properties: UnsubAckOtherProperties,
}

/// A UNSUBACK with its strings taken as their bytes.
pub struct UnsubAckView {
    pub packet_identifier: u16,
    pub reason_codes: Seq<UnsubAckReasonCode>,
    pub reason_string: Option<Seq<u8>>,
    pub user_properties: Seq<(Seq<u8>, Seq<u8>)>,
}

impl View for UnsubAck {
    type V = UnsubAckView;

    open spec fn view(&self) -> UnsubAckView {
        UnsubAckView {
            packet_identifier: self.packet_identifier@,
            reason_codes: self.reason_codes@,
            reason_string: opt_view(self.other_properties.reason_string),
            user_properties: user_properties_view(self.other_properties.user_properties@),
        }
    }
}

/// The identifiers of the properties a UNSUBACK takes.
pub open spec fn unsuback_allowed() -> Seq<u8> {
    seq![0x1Fu8, 0x26u8]
}

/// The reason codes of `s`, one per byte; the first unknown one is an error.
pub open spec fn spec_decode_unsuback_codes(s: Seq<u8>) -> Result<Seq<UnsubAckReasonCode>, DecodeErrorView>
    decreases s.len(),
{
    if s.len() == 0 {
        Ok(Seq::empty())
    } else {
        match spec_decode_unsuback_codes(s.drop_last()) {
            Err(e) => Err(e),
            Ok(codes) => match UnsubAckReasonCode::spec_from_code(s.last()) {
                None => Err(DecodeErrorView::UnrecognizedUnsubAckReasonCode(s.last())),
                Some(c) => Ok(codes.push(c)),
            },
        }
    }
}

/// An UNSUBACK with the given packet identifier and reason codes and no other properties.
pub open spec fn unsuback_view(packet_identifier: u16, reason_codes: Seq<UnsubAckReasonCode>) -> UnsubAckView {
    UnsubAckView { packet_identifier, reason_codes, reason_string: None, user_properties: Seq::empty() }
}

/// Decodes the body of an UNSUBACK: the packet and the number of bytes it took. In v3 it is the
/// packet identifier alone; in v5 the properties and the reason codes follow it.
pub open spec fn spec_decode_unsuback(s: Seq<u8>, version: ProtocolVersion) -> Result<
    (UnsubAckView, nat),
    DecodeErrorView,
> {
    match spec_get_packet_identifier(s) {
        Err(e) => Err(e),
        Ok(pid) => if version == ProtocolVersion::V3 {
            Ok((unsuback_view(pid, Seq::empty()), 2))
        } else {
            match spec_decode_properties(s.skip(2), unsuback_allowed(), user_properties_repeat()) {
                Err(e) => Err(e),
                Ok((ps, n)) => match spec_decode_unsuback_codes(s.skip((2 + n) as int)) {
                    Err(e) => Err(e),
                    Ok(codes) => Ok(
                        (
                            UnsubAckView {
                                packet_identifier: pid,
                                reason_codes: codes,
                                reason_string: find_bytes(ps, 0x1F),
                                user_properties: spec_user_properties(ps),
                            },
                            s.len(),
                        ),
                    ),
                },
            }
        },
    }
}

/// The properties an UNSUBACK encodes, in order.
pub open spec fn unsuback_properties(v: UnsubAckView) -> Seq<PropertyView> {
    opt_str_prop(v.reason_string, 0x1F) + user_properties_as_props(v.user_properties)
}

/// The bytes of reason codes.
pub open spec fn spec_encode_unsuback_codes(codes: Seq<UnsubAckReasonCode>) -> Seq<u8> {
    codes.map_values(|c: UnsubAckReasonCode| c.spec_code())
}

/// The first reason code of `codes` that reports a failure, if there is one.
pub open spec fn spec_first_failure(codes: Seq<UnsubAckReasonCode>) -> Option<UnsubAckReasonCode>
    decreases codes.len(),
{
    if codes.len() == 0 {
        None
    } else if codes[0].spec_code() >= 0x80 {
        Some(codes[0])
    } else {
        spec_first_failure(codes.drop_first())
    }
}

/// Encodes the body of an UNSUBACK. In v3 it is the packet identifier alone, and an UNSUBACK
/// that reports a failure cannot be encoded; in v5 the properties and the reason codes follow.
pub open spec fn spec_encode_unsuback(v: UnsubAckView, version: ProtocolVersion) -> Result<
    Seq<u8>,
    EncodeError,
> {
    let pid = u16_be_bytes(v.packet_identifier);
    if version == ProtocolVersion::V3 {
        match spec_first_failure(v.reason_codes) {
            Some(c) => Err(EncodeError::NegativeUnsubAck(c)),
            None => Ok(pid),
        }
    } else {
        match spec_encode_properties(unsuback_properties(v)) {
            Err(e) => Err(e),
            Ok(props) => Ok(pid + props + spec_encode_unsuback_codes(v.reason_codes)),
        }
    }
}

impl UnsubAck {
    pub const PACKET_TYPE: u8 = 0xB0;

    /// Decodes the body of an UNSUBACK from `src`.
    pub fn decode(_flags: u8, src: &mut Shared, version: ProtocolVersion) -> (r: Result<
        UnsubAck,
        DecodeError,
    >)
        ensures
            match (r, spec_decode_unsuback(old(src)@, version)) {
                (Ok(p), Ok((v, n))) => p@ == v && final(src)@ == old(src)@.skip(n as int),
                (Err(e), Err(se)) => e@ == se,
                _ => false,
            },
    {
        let ghost s = src@;
        let packet_identifier = try_get_packet_identifier(src)?;
        proof {
            assert(src@ =~= s.skip(2));
        }
        if version.is_v3() {
            return Ok(
                UnsubAck {
                    packet_identifier,
                    reason_codes: Vec::new(),
                    other_properties: UnsubAckOtherProperties {
                        reason_string: None,
                        user_properties: no_user_properties(),
                    },
                },
            );
        }
        let allowed: [u8; 2] = [0x1F, 0x26];
        let repeatable: [u8; 1] = [0x26];
        proof {
            assert(allowed@ =~= unsuback_allowed());
            assert(repeatable@ =~= user_properties_repeat());
        }
        let ps = decode_properties(src, allowed.as_slice(), repeatable.as_slice())?;
        let ghost n = s.len() - 2 - src@.len();
        proof {
            assert(src@ =~= s.skip(2 + n));
        }
        let bytes = src.as_slice();
        let mut reason_codes: Vec<UnsubAckReasonCode> = Vec::new();
        let mut i: usize = 0;
        proof {
            assert(bytes@.take(0) =~= Seq::<u8>::empty());
            assert(bytes@ =~= s.skip((2 + n) as int));
        }
        while i < bytes.len()
            invariant
                i <= bytes@.len(),
                s == old(src)@,
                version == ProtocolVersion::V5,
                spec_decode_unsuback_codes(bytes@) is Err ==> spec_decode_unsuback(s, version)
                    == Err::<(UnsubAckView, nat), DecodeErrorView>(
                    spec_decode_unsuback_codes(bytes@)->Err_0,
                ),
                spec_decode_unsuback_codes(bytes@.take(i as int)) == Ok::<
                    Seq<UnsubAckReasonCode>,
                    DecodeErrorView,
                >(reason_codes@),
            decreases bytes@.len() - i,
        {
            proof {
                assert(bytes@.take(i + 1).drop_last() =~= bytes@.take(i as int));
            }
            match UnsubAckReasonCode::from_code(bytes[i]) {
                Ok(c) => {
                    reason_codes.push(c);
                },
                Err(e) => {
                    proof {
                        lemma_unsuback_codes_error(bytes@, i + 1);
                    }
                    return Err(e);
                },
            }
            i = i + 1;
        }
        proof {
            assert(bytes@.take(i as int) =~= bytes@);
        }
        let len = src.len();
        src.drain(len);
        proof {
            assert(src@ =~= s.skip(s.len() as int));
        }
        Ok(
            UnsubAck {
                packet_identifier,
                reason_codes,
                other_properties: UnsubAckOtherProperties {
                    reason_string: take_str_property(&ps, 0x1F),
                    user_properties: user_properties_of(&ps),
                },
            },
        )
    }

    /// The first reason code that reports a failure, if there is one.
    fn first_failure(&self) -> (r: Option<UnsubAckReasonCode>)
        ensures
            r == spec_first_failure(self.reason_codes@),
    {
        let mut i: usize = 0;
        proof {
            assert(self.reason_codes@.skip(0) =~= self.reason_codes@);
        }
        while i < self.reason_codes.len()
            invariant
                i <= self.reason_codes@.len(),
                spec_first_failure(self.reason_codes@) == spec_first_failure(self.reason_codes@.skip(i as int)),
            decreases self.reason_codes@.len() - i,
        {
            let c = self.reason_codes[i];
            proof {
                let rest = self.reason_codes@.skip(i as int);
                assert(rest[0] == c);
                assert(rest.drop_first() =~= self.reason_codes@.skip(i + 1));
            }
            if c.to_code() >= 0x80 {
                return Some(c);
            }
            i = i + 1;
        }
        proof {
            assert(self.reason_codes@.skip(i as int).len() == 0);
        }
        None
    }

    /// Encodes the body of this UNSUBACK into `dst`.
    pub fn encode<B: BytesAccumulator>(&self, dst: &mut B, version: ProtocolVersion) -> (r: Result<
        (),
        EncodeError,
    >)
        requires
            old(dst).wf(),
            spec_encode_property_list(unsuback_properties(self@)).len() <= usize::MAX,
            spec_encode_unsuback(self@, version) matches Ok(bytes) ==> bytes.len() <= old(dst).spare(),
        ensures
            final(dst).wf(),
            match spec_encode_unsuback(self@, version) {
                Ok(bytes) => r is Ok && final(dst).contents() == old(dst).contents() + bytes
                    && final(dst).spare() >= old(dst).spare() - bytes.len(),
                Err(e) => r == Err::<(), EncodeError>(e) && final(dst).contents() == old(
                    dst,
                ).contents(),
            },
    {
        if version.is_v3() {
            if let Some(c) = self.first_failure() {
                return Err(EncodeError::NegativeUnsubAck(c));
            }
            let _ = try_put_u16_be(dst, self.packet_identifier.get());
            return Ok(());
        }
        let mut ps: Vec<Property> = Vec::new();
        push_str_property(&mut ps, &self.other_properties.reason_string, 0x1F);
        push_user_properties(&mut ps, &self.other_properties.user_properties);
        proof {
            assert(props_view(ps@) =~= unsuback_properties(self@));
        }
        check_properties(&ps)?;
        let ghost bytes = spec_encode_unsuback(self@, version)->Ok_0;
        let _ = try_put_u16_be(dst, self.packet_identifier.get());
        let _ = encode_properties(&ps, dst);
        let ghost start = dst.contents();
        let ghost start_spare = dst.spare();
        let ghost codes = spec_encode_unsuback_codes(self@.reason_codes);
        proof {
            let props = spec_encode_properties(props_view(ps@))->Ok_0;
            assert(start =~= old(dst).contents() + (u16_be_bytes(self@.packet_identifier) + props));
            assert(start + codes.take(0) =~= start);
        }
        let mut i: usize = 0;
        while i < self.reason_codes.len()
            invariant
                i <= self.reason_codes@.len(),
                codes == spec_encode_unsuback_codes(self@.reason_codes),
                codes.len() == self.reason_codes@.len(),
                dst.wf(),
                dst.contents() == start + codes.take(i as int),
                dst.spare() + i == start_spare,
                start_spare >= codes.len(),
                start_spare + bytes.len() >= old(dst).spare() + codes.len(),
            decreases self.reason_codes@.len() - i,
        {
            let b = self.reason_codes[i].to_code();
            let _ = try_put_u8(dst, b);
            proof {
                assert(codes.take(i + 1) =~= codes.take(i as int).push(b));
            }
            i = i + 1;
        }
        proof {
            assert(codes.take(i as int) =~= codes);
            assert(dst.contents() =~= old(dst).contents() + bytes);
        }
        Ok(())
    }
}

impl Clone for UnsubAck {
    fn clone(&self) -> (r: Self)
        ensures
            r@ == self@,
    {
        UnsubAck {
            packet_identifier: self.packet_identifier,
            reason_codes: self.reason_codes.clone(),
            other_properties: UnsubAckOtherProperties {
                reason_string: clone_opt_str(&self.other_properties.reason_string),
                user_properties: clone_user_properties(&self.other_properties.user_properties),
            },
        }
    }
}

/// An unknown reason code in a prefix is the error of the whole.
proof fn lemma_unsuback_codes_error(s: Seq<u8>, i: int)
    requires
        0 <= i <= s.len(),
        spec_decode_unsuback_codes(s.take(i)) is Err,
    ensures
        spec_decode_unsuback_codes(s) == spec_decode_unsuback_codes(s.take(i)),
    decreases s.len() - i,
{
    if i < s.len() {
        assert(s.take(i + 1).drop_last() =~= s.take(i));
        lemma_unsuback_codes_error(s, i + 1);
    } else {
        assert(s.take(i) =~= s);
    }
}

/// Decoding the bytes of reason codes gives them back.
proof fn lemma_unsuback_codes_roundtrip(codes: Seq<UnsubAckReasonCode>)
    ensures
        spec_decode_unsuback_codes(spec_encode_unsuback_codes(codes)) == Ok::<
            Seq<UnsubAckReasonCode>,
            DecodeErrorView,
        >(codes),
    decreases codes.len(),
{
    let e = spec_encode_unsuback_codes(codes);
    if codes.len() > 0 {
        lemma_unsuback_codes_roundtrip(codes.drop_last());
        assert(e.drop_last() =~= spec_encode_unsuback_codes(codes.drop_last()));
        codes.last().lemma_code_roundtrip(0);
        assert(e.len() == codes.len());
        assert(e.last() == codes.last().spec_code());
        assert(codes.drop_last().push(codes.last()) =~= codes);
        assert(spec_decode_unsuback_codes(e) == Ok::<Seq<UnsubAckReasonCode>, DecodeErrorView>(
            codes.drop_last().push(codes.last()),
        ));
    } else {
        assert(e =~= Seq::<u8>::empty());
        assert(codes =~= Seq::<UnsubAckReasonCode>::empty());
    }
}

/// An UNSUBACK decodes as it was encoded: in v5 exactly; in v3, where only its packet identifier
/// is sent, as an UNSUBACK with that identifier and nothing else.
pub proof fn lemma_unsuback_roundtrip(v: UnsubAckView, version: ProtocolVersion)
    requires
        v.packet_identifier != 0,
        opt_str_wf(v.reason_string),
        user_properties_wf(v.user_properties),
        spec_encode_unsuback(v, version) is Ok,
    ensures
        spec_decode_unsuback(spec_encode_unsuback(v, version)->Ok_0, version) == Ok::<
            (UnsubAckView, nat),
            DecodeErrorView,
        >(
            (
                if version == ProtocolVersion::V5 {
                    v
                } else {
                    unsuback_view(v.packet_identifier, Seq::empty())
                },
                spec_encode_unsuback(v, version)->Ok_0.len(),
            ),
        ),
{
    broadcast use group_property_lists, group_decodable_pieces;

    let bytes = spec_encode_unsuback(v, version)->Ok_0;
    let codes = spec_encode_unsuback_codes(v.reason_codes);
    crate::buffer_pool::lemma_be_u16_roundtrip(v.packet_identifier, bytes.skip(2));
    assert(bytes =~= crate::buffer_pool::u16_be_bytes(v.packet_identifier) + bytes.skip(2));
    if version == ProtocolVersion::V5 {
        lemma_unsuback_codes_roundtrip(v.reason_codes);
        crate::mqtt_proto::properties::lemma_user_properties_repeat();
        let al = unsuback_allowed();
        assert(al[0] == 0x1F && al[1] == 0x26);
        assert(properties_decodable(unsuback_properties(v), al, user_properties_repeat()));
        crate::mqtt_proto::properties::lemma_properties_roundtrip(
            unsuback_properties(v),
            al,
            user_properties_repeat(),
            codes,
        );
        let props = spec_encode_properties(unsuback_properties(v))->Ok_0;
        assert(bytes.skip(2) =~= props + codes);
        assert(bytes.skip((2 + props.len()) as int) =~= codes);
        let e = Seq::<(Seq<u8>, Seq<u8>)>::empty();
        assert(e + v.user_properties =~= v.user_properties);
    } else {
        assert(bytes.len() == 2);
    }
}

} // verus!
