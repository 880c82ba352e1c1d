//! Ref: 3.9 SUBACK – Subscribe acknowledgement
use vstd::prelude::*;

use crate::buffer_pool::accumulators::{try_put_u16_be, try_put_u8};
use crate::buffer_pool::{self, u16_be_bytes, BytesAccumulator, Owned, Shared};
use crate::mqtt_proto::byte_str::ByteStr;
use crate::mqtt_proto::codes::SubscribeReasonCode;
use crate::mqtt_proto::packet_fields::{
    clone_opt_str, clone_user_properties, find_bytes, no_user_properties, opt_str_prop,
    opt_str_to_shared, push_str_property, take_str_property, user_properties_to_shared,
};
use crate::mqtt_proto::properties::{
    check_properties, decode_properties, encode_properties, props_view, push_user_properties,
    spec_decode_properties, spec_encode_properties, spec_encode_property_list, spec_user_properties,
    user_properties_as_props, user_properties_of, user_properties_repeat, user_properties_view,
    Property, PropertyView,
};
use crate::mqtt_proto::property::opt_view;
use crate::mqtt_proto::{
    spec_get_packet_identifier, try_get_packet_identifier, DecodeError, DecodeErrorView, EncodeError,
    PacketIdentifier, ProtocolVersion,
};

verus! {

/// The properties of a SUBACK besides its packet identifier and reason codes.
#[derive(Debug, PartialEq, Eq)]
pub struct SubAckOtherProperties {
    pub reason_string: Option<ByteStr>,
    pub user_properties: Vec<(ByteStr, ByteStr)>,
}

/// Ref: 3.9 SUBACK – Subscribe acknowledgement
#[derive(Debug, PartialEq, Eq)]
pub struct SubAck {
    pub packet_identifier: PacketIdentifier,
    pub reason_codes: Vec<SubscribeReasonCode>,
    pub other_properties: SubAckOtherProperties,
}

/// A SUBACK with its strings taken as their bytes.
pub struct SubAckView {
    pub packet_identifier: u16,
    pub reason_codes: Seq<SubscribeReasonCode>,
    pub reason_string: Option<Seq<u8>>,
    pub user_properties: Seq<(Seq<u8>, Seq<u8>)>,
}

impl View for SubAck {
    type V = SubAckView;

    open spec fn view(&self) -> SubAckView {
        SubAckView {
            packet_identifier: self.packet_identifier@,
            reason_codes: self.reason_codes@,
            reason_string: opt_view(self.other_properties.reason_string),
            user_properties: user_properties_view(self.other_properties.user_properties@),
        }
    }
}

/// The identifiers of the properties a SUBACK takes.
pub open spec fn suback_allowed() -> Seq<u8> {
    seq![0x1Fu8, 0x26u8]
}

/// The reason codes of `s`, one per byte; the first unknown one is an error.
pub open spec fn spec_decode_reason_codes(s: Seq<u8>, version: ProtocolVersion) -> Result<
    Seq<SubscribeReasonCode>,
    DecodeErrorView,
>
    decreases s.len(),
{
    if s.len() == 0 {
        Ok(Seq::empty())
    } else {
        match spec_decode_reason_codes(s.drop_last(), version) {
            Err(e) => Err(e),
            Ok(codes) => match SubscribeReasonCode::spec_try_from(s.last(), version) {
                Err(e) => Err(e),
                Ok(c) => Ok(codes.push(c)),
            },
        }
    }
}

/// Decodes the body of a SUBACK: the packet and the number of bytes it took, which is all of
/// them. A SUBACK must hold at least one reason code.
pub open spec fn spec_decode_suback(s: Seq<u8>, version: ProtocolVersion) -> Result<
    (SubAckView, nat),
    DecodeErrorView,
> {
    match spec_get_packet_identifier(s) {
        Err(e) => Err(e),
        Ok(pid) => {
            let props = if version == ProtocolVersion::V3 {
                Ok((Seq::<PropertyView>::empty(), 0nat))
            } else {
                spec_decode_properties(s.skip(2), suback_allowed(), user_properties_repeat())
            };
            match props {
                Err(e) => Err(e),
                Ok((ps, n)) => match spec_decode_reason_codes(s.skip((2 + n) as int), version) {
                    Err(e) => Err(e),
                    Ok(codes) => if codes.len() == 0 {
                        Err(DecodeErrorView::NoTopics)
                    } else {
                        Ok(
                            (
                                SubAckView {
                                    packet_identifier: pid,
                                    reason_codes: codes,
                                    reason_string: find_bytes(ps, 0x1F),
                                    user_properties: spec_user_properties(ps),
                                },
                                s.len(),
                            ),
                        )
                    },
                },
            }
        },
    }
}

/// The properties a SUBACK encodes, in order.
pub open spec fn suback_properties(v: SubAckView) -> Seq<PropertyView> {
    opt_str_prop(v.reason_string, 0x1F) + user_properties_as_props(v.user_properties)
}

/// The bytes of reason codes.
pub open spec fn spec_encode_reason_codes(codes: Seq<SubscribeReasonCode>, version: ProtocolVersion) -> Seq<u8> {
    codes.map_values(|c: SubscribeReasonCode| c.spec_to_u8(version))
}

/// Encodes the body of a SUBACK: the packet identifier, in v5 the properties, and the reason
/// codes.
pub open spec fn spec_encode_suback(v: SubAckView, version: ProtocolVersion) -> Result<
    Seq<u8>,
    EncodeError,
> {
    let props = if version == ProtocolVersion::V5 {
        spec_encode_properties(suback_properties(v))
    } else {
        Ok(Seq::empty())
    };
    match props {
        Err(e) => Err(e),
        Ok(props) => Ok(u16_be_bytes(v.packet_identifier) + props + spec_encode_reason_codes(
            v.reason_codes,
            version,
        )),
    }
}

impl SubAck {
    pub const PACKET_TYPE: u8 = 0x90;

    /// Decodes the body of a SUBACK from `src`.
    pub fn decode(_flags: u8, src: &mut Shared, version: ProtocolVersion) -> (r: Result<
        SubAck,
        DecodeError,
    >)
        ensures
            match (r, spec_decode_suback(old(src)@, version)) {
                (Ok(p), Ok((v, n))) => p@ == v && final(src)@ == old(src)@.skip(n as int),
                (Err(e), Err(se)) => e@ == se,
                _ => false,
            },
    {
        let ghost s = src@;
        let packet_identifier = try_get_packet_identifier(src)?;
        proof {
            assert(src@ =~= s.skip(2));
        }
        let ps = if version.is_v3() {
            let ps: Vec<Property> = Vec::new();
            proof {
                assert(props_view(ps@) =~= Seq::<PropertyView>::empty());
            }
            ps
        } else {
            let allowed: [u8; 2] = [0x1F, 0x26];
            let repeatable: [u8; 1] = [0x26];
            proof {
                assert(allowed@ =~= suback_allowed());
                assert(repeatable@ =~= user_properties_repeat());
            }
            decode_properties(src, allowed.as_slice(), repeatable.as_slice())?
        };
        let ghost n = s.len() - 2 - src@.len();
        proof {
            assert(src@ =~= s.skip(2 + n));
        }
        let bytes = src.as_slice();
        let mut reason_codes: Vec<SubscribeReasonCode> = Vec::new();
        let mut i: usize = 0;
        proof {
            assert(bytes@.take(0) =~= Seq::<u8>::empty());
            assert(bytes@ =~= s.skip((2 + n) as int));
        }
        while i < bytes.len()
            invariant
                i <= bytes@.len(),
                s == old(src)@,
                spec_decode_reason_codes(bytes@, version) is Err ==> spec_decode_suback(s, version)
                    == Err::<(SubAckView, nat), DecodeErrorView>(
                    spec_decode_reason_codes(bytes@, version)->Err_0,
                ),
                spec_decode_reason_codes(bytes@.take(i as int), version) == Ok::<
                    Seq<SubscribeReasonCode>,
                    DecodeErrorView,
                >(reason_codes@),
            decreases bytes@.len() - i,
        {
            proof {
                assert(bytes@.take(i + 1).drop_last() =~= bytes@.take(i as int));
            }
            match SubscribeReasonCode::try_from(bytes[i], version) {
                Ok(c) => {
                    reason_codes.push(c);
                },
                Err(e) => {
                    proof {
                        lemma_reason_codes_error(bytes@, i + 1, version);
                    }
                    return Err(e);
                },
            }
            i = i + 1;
        }
        proof {
            assert(bytes@.take(i as int) =~= bytes@);
        }
        let len = src.len();
        src.drain(len);
        proof {
            assert(src@ =~= s.skip(s.len() as int));
        }
        if reason_codes.len() == 0 {
            return Err(DecodeError::NoTopics);
        }
        Ok(
            SubAck {
                packet_identifier,
                reason_codes,
                other_properties: SubAckOtherProperties {
                    reason_string: take_str_property(&ps, 0x1F),
                    user_properties: user_properties_of(&ps),
                },
            },
        )
    }

    /// Encodes the body of this SUBACK into `dst`.
    pub fn encode<B: BytesAccumulator>(&self, dst: &mut B, version: ProtocolVersion) -> (r: Result<
        (),
        EncodeError,
    >)
        requires
            old(dst).wf(),
            spec_encode_property_list(suback_properties(self@)).len() <= usize::MAX,
            spec_encode_suback(self@, version) matches Ok(bytes) ==> bytes.len() <= old(dst).spare(),
        ensures
            final(dst).wf(),
            match spec_encode_suback(self@, version) {
                Ok(bytes) => r is Ok && final(dst).contents() == old(dst).contents() + bytes
                    && final(dst).spare() >= old(dst).spare() - bytes.len(),
                Err(e) => r == Err::<(), EncodeError>(e) && final(dst).contents() == old(
                    dst,
                ).contents(),
            },
    {
        let mut ps: Vec<Property> = Vec::new();
        if version.is_v5() {
            push_str_property(&mut ps, &self.other_properties.reason_string, 0x1F);
            push_user_properties(&mut ps, &self.other_properties.user_properties);
            proof {
                assert(props_view(ps@) =~= suback_properties(self@));
            }
            check_properties(&ps)?;
        }
        let ghost bytes = spec_encode_suback(self@, version)->Ok_0;
        let _ = try_put_u16_be(dst, self.packet_identifier.get());
        if version.is_v5() {
            let _ = encode_properties(&ps, dst);
        }
        let ghost start = dst.contents();
        let ghost start_spare = dst.spare();
        let ghost codes = spec_encode_reason_codes(self@.reason_codes, version);
        proof {
            let props = if version == ProtocolVersion::V5 {
                spec_encode_properties(props_view(ps@))->Ok_0
            } else {
                Seq::empty()
            };
            assert(start =~= old(dst).contents() + (u16_be_bytes(self@.packet_identifier) + props));
            assert(start + codes.take(0) =~= start);
        }
        let mut i: usize = 0;
        while i < self.reason_codes.len()
            invariant
                i <= self.reason_codes@.len(),
                codes == spec_encode_reason_codes(self@.reason_codes, version),
                codes.len() == self.reason_codes@.len(),
                dst.wf(),
                dst.contents() == start + codes.take(i as int),
                dst.spare() + i == start_spare,
                start_spare >= codes.len(),
                start_spare + bytes.len() >= old(dst).spare() + codes.len(),
            decreases self.reason_codes@.len() - i,
        {
            let b = self.reason_codes[i].to_u8(version);
            let _ = try_put_u8(dst, b);
            proof {
                assert(codes.take(i + 1) =~= codes.take(i as int).push(b));
            }
            i = i + 1;
        }
        proof {
            assert(codes.take(i as int) =~= codes);
            assert(dst.contents() =~= old(dst).contents() + bytes);
        }
        Ok(())
    }

    /// Copies this SUBACK into new buffers taken from `owned`.
    pub fn to_shared(&self, owned: &mut Owned) -> (r: Result<SubAck, buffer_pool::Error>)
        requires
            old(owned)@.0.len() == 0,
        ensures
            r matches Ok(p) && p@ == self@,
            final(owned)@.0.len() == 0,
    {
        Ok(
            SubAck {
                packet_identifier: self.packet_identifier,
                reason_codes: self.reason_codes.clone(),
                other_properties: self.other_properties.to_shared(owned)?,
            },
        )
    }
}

impl SubAckOtherProperties {
    /// Copies these properties into new buffers taken from `owned`.
    pub fn to_shared(&self, owned: &mut Owned) -> (r: Result<SubAckOtherProperties, buffer_pool::Error>)
        requires
            old(owned)@.0.len() == 0,
        ensures
            r matches Ok(p) && opt_view(p.reason_string) == opt_view(self.reason_string)
                && user_properties_view(p.user_properties@) == user_properties_view(
                self.user_properties@,
            ),
            final(owned)@.0.len() == 0,
    {
        let reason_string = opt_str_to_shared(&self.reason_string, owned)?;
        let user_properties = user_properties_to_shared(&self.user_properties, owned)?;
        Ok(SubAckOtherProperties { reason_string, user_properties })
    }
}

impl Clone for SubAck {
    fn clone(&self) -> (r: Self)
        ensures
            r@ == self@,
    {
        SubAck {
            packet_identifier: self.packet_identifier,
            reason_codes: self.reason_codes.clone(),
            other_properties: SubAckOtherProperties {
                reason_string: clone_opt_str(&self.other_properties.reason_string),
                user_properties: clone_user_properties(&self.other_properties.user_properties),
            },
        }
    }
}

/// An unknown reason code in a prefix is the error of the whole.
proof fn lemma_reason_codes_error(s: Seq<u8>, i: int, version: ProtocolVersion)
    requires
        0 <= i <= s.len(),
        spec_decode_reason_codes(s.take(i), version) is Err,
    ensures
        spec_decode_reason_codes(s, version) == spec_decode_reason_codes(s.take(i), version),
    decreases s.len() - i,
{
    if i < s.len() {
        assert(s.take(i + 1).drop_last() =~= s.take(i));
        lemma_reason_codes_error(s, i + 1, version);
    } else {
        assert(s.take(i) =~= s);
    }
}

} // verus!
