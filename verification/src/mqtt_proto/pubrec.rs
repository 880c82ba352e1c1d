//! Ref: 3.5 PUBREC – Publish received (QoS 2 delivery part 1)
use vstd::prelude::*;

use crate::buffer_pool::accumulators::{try_put_u16_be, try_put_u8};
use crate::buffer_pool::{self, u16_be_bytes, BytesAccumulator, Owned, Shared};
use crate::mqtt_proto::codes::PubRecReasonCode;
use crate::mqtt_proto::packet_fields::{
    lemma_find_property_concat, lemma_single_property, lemma_user_properties_concat,
    lemma_user_properties_of_props,
    clone_opt_str, clone_user_properties, find_bytes, no_user_properties, opt_str_is_wf, opt_str_prop, opt_str_to_shared,
    opt_str_wf, push_str_property, take_str_property, user_properties_are_wf,
    user_properties_to_shared, user_properties_wf,
};
use crate::mqtt_proto::properties::{
    user_properties_repeat,
    check_properties, decode_properties, encode_properties, properties_decodable, props_view, push_user_properties,
    spec_decode_properties, spec_encode_properties, spec_encode_property_list, spec_user_properties,
    user_properties_as_props, user_properties_of, user_properties_view, Property, PropertyView,
    property_id, property_wf, spec_encode_property,
};
use crate::mqtt_proto::property::opt_view;
use crate::mqtt_proto::byte_str::ByteStr;
use crate::mqtt_proto::{
    spec_get_packet_identifier, try_get_packet_identifier, try_get_u8, DecodeError,
    DecodeErrorView, EncodeError, PacketIdentifier, ProtocolVersion,
};

verus! {

/// The properties of a PUBREC besides its packet identifier and reason code.
#[derive(Debug, PartialEq, Eq)]
pub struct PubRecOtherProperties {
    pub reason_string: Option<ByteStr>,
    pub user_properties: Vec<(ByteStr, ByteStr)>,
}

/// Ref: 3.5 PUBREC – Publish received (QoS 2 delivery part 1)
#[derive(Debug, PartialEq, Eq)]
pub struct PubRec {
    pub packet_identifier: PacketIdentifier,
    pub reason_code: PubRecReasonCode,
    pub other_properties: PubRecOtherProperties,
}

/// A PUBREC with its strings taken as their bytes.
pub struct PubRecView {
    pub packet_identifier: u16,
    pub reason_code: PubRecReasonCode,
    pub reason_string: Option<Seq<u8>>,
    pub user_properties: Seq<(Seq<u8>, Seq<u8>)>,
}

impl View for PubRec {
    type V = PubRecView;

    open spec fn view(&self) -> PubRecView {
        PubRecView {
            packet_identifier: self.packet_identifier@,
            reason_code: self.reason_code,
            reason_string: opt_view(self.other_properties.reason_string),
            user_properties: user_properties_view(self.other_properties.user_properties@),
        }
    }
}

/// The identifiers of the properties a PUBREC takes.
pub open spec fn pubrec_allowed() -> Seq<u8> {
    seq![0x1Fu8, 0x26u8]
}

/// A PUBREC with the given packet identifier and reason code and no other properties.
pub open spec fn pubrec_view(packet_identifier: u16, reason_code: PubRecReasonCode) -> PubRecView {
    PubRecView {
        packet_identifier,
        reason_code,
        reason_string: None,
        user_properties: Seq::empty(),
    }
}

/// Decodes the body of a PUBREC: the packet and the number of bytes it took.
///
/// In v5 the reason code may be left out when it is `Success` and there are no properties, and
/// the property length may be left out when there are none.
pub open spec fn spec_decode_pubrec(s: Seq<u8>, version: ProtocolVersion) -> Result<
    (PubRecView, nat),
    DecodeErrorView,
> {
    match spec_get_packet_identifier(s) {
        Err(e) => Err(e),
        Ok(pid) => {
            let r = s.skip(2);
            if version == ProtocolVersion::V3 || r.len() == 0 {
                Ok((pubrec_view(pid, PubRecReasonCode::Success), 2))
            } else {
                match PubRecReasonCode::spec_from_code(r[0]) {
                    None => Err(DecodeErrorView::UnrecognizedPubRecReasonCode(r[0])),
                    Some(rc) => if r.len() == 1 {
                        Ok((pubrec_view(pid, rc), 3))
                    } else {
                        match spec_decode_properties(r.skip(1), pubrec_allowed(), user_properties_repeat()) {
                            Err(e) => Err(e),
                            Ok((ps, n)) => Ok(
                                (
                                    PubRecView {
                                        packet_identifier: pid,
                                        reason_code: rc,
                                        reason_string: find_bytes(ps, 0x1F),
                                        user_properties: spec_user_properties(ps),
                                    },
                                    3 + n,
                                ),
                            ),
                        }
                    },
                }
            }
        },
    }
}

/// The properties a PUBREC encodes, in order.
pub open spec fn pubrec_properties(v: PubRecView) -> Seq<PropertyView> {
    opt_str_prop(v.reason_string, 0x1F) + user_properties_as_props(v.user_properties)
}

/// Whether a PUBREC has no properties besides its packet identifier and reason code.
pub open spec fn pubrec_has_default_properties(v: PubRecView) -> bool {
    v.reason_string is None && v.user_properties.len() == 0
}

/// Encodes the body of a PUBREC. In v3 only successful PUBRECs can be encoded.
pub open spec fn spec_encode_pubrec(v: PubRecView, version: ProtocolVersion) -> Result<
    Seq<u8>,
    EncodeError,
> {
    let pid = u16_be_bytes(v.packet_identifier);
    if version == ProtocolVersion::V3 {
        if !v.reason_code.spec_is_success() {
            Err(EncodeError::NegativePubRec(v.reason_code))
        } else {
            Ok(pid)
        }
    } else if pubrec_has_default_properties(v) {
        if v.reason_code == PubRecReasonCode::Success {
            Ok(pid)
        } else {
            Ok(pid + seq![v.reason_code.spec_code()])
        }
    } else {
        match spec_encode_properties(pubrec_properties(v)) {
            Err(e) => Err(e),
            Ok(props) => Ok(pid + seq![v.reason_code.spec_code()] + props),
        }
    }
}

impl PubRec {
    /// The packet type, in the high nibble of the first byte.
    pub open spec fn spec_packet_type() -> u8 {
        0x50
    }

    pub const PACKET_TYPE: u8 = 0x50;

    /// Decodes the body of a PUBREC from `src`.
    pub fn decode(_flags: u8, src: &mut Shared, version: ProtocolVersion) -> (r: Result<
        PubRec,
        DecodeError,
    >)
        ensures
            match (r, spec_decode_pubrec(old(src)@, version)) {
                (Ok(p), Ok((v, n))) => p@ == v && final(src)@ == old(src)@.skip(n as int),
                (Err(e), Err(se)) => e@ == se,
                _ => false,
            },
    {
        let ghost s = src@;
        let packet_identifier = try_get_packet_identifier(src)?;
        proof {
            assert(src@ =~= s.skip(2));
        }
        if version.is_v3() || src.len() == 0 {
            return Ok(
                PubRec {
                    packet_identifier,
                    reason_code: PubRecReasonCode::Success,
                    other_properties: PubRecOtherProperties {
                        reason_string: None,
                        user_properties: no_user_properties(),
                    },
                },
            );
        }
        let code = try_get_u8(src)?;
        let reason_code = PubRecReasonCode::from_code(code)?;
        proof {
            assert(src@ =~= s.skip(3));
        }
        if src.len() == 0 {
            return Ok(
                PubRec {
                    packet_identifier,
                    reason_code,
                    other_properties: PubRecOtherProperties {
                        reason_string: None,
                        user_properties: no_user_properties(),
                    },
                },
            );
        }
        let allowed: [u8; 2] = [0x1F, 0x26];
        proof {
            assert(allowed@ =~= pubrec_allowed());
            assert(src@ =~= s.skip(2).skip(1));
        }
        let repeatable: [u8; 1] = [0x26];
        proof {
            assert(repeatable@ =~= user_properties_repeat());
        }
        let ps = decode_properties(src, allowed.as_slice(), repeatable.as_slice())?;
        proof {
            assert(src@ =~= s.skip(3 + (s.skip(2).skip(1).len() - src@.len())));
        }
        let reason_string = take_str_property(&ps, 0x1F);
        let user_properties = user_properties_of(&ps);
        Ok(
            PubRec {
                packet_identifier,
                reason_code,
                other_properties: PubRecOtherProperties { reason_string, user_properties },
            },
        )
    }

    /// Encodes the body of this PUBREC into `dst`.
    pub fn encode<B: BytesAccumulator>(&self, dst: &mut B, version: ProtocolVersion) -> (r: Result<
        (),
        EncodeError,
    >)
        requires
            old(dst).wf(),
            spec_encode_property_list(pubrec_properties(self@)).len() <= usize::MAX,
            spec_encode_pubrec(self@, version) matches Ok(bytes) ==> bytes.len() <= old(dst).spare(),
        ensures
            final(dst).wf(),
            match spec_encode_pubrec(self@, version) {
                Ok(bytes) => r is Ok && final(dst).contents() == old(dst).contents() + bytes
                    && final(dst).spare() >= old(dst).spare() - bytes.len(),
                Err(e) => r == Err::<(), EncodeError>(e) && final(dst).contents() == old(
                    dst,
                ).contents(),
            },
    {
        let pid = self.packet_identifier.get();
        if version.is_v3() {
            if !self.reason_code.is_success() {
                return Err(EncodeError::NegativePubRec(self.reason_code));
            }
            let _ = try_put_u16_be(dst, pid);
            return Ok(());
        }
        let props = &self.other_properties;
        let default_properties = props.reason_string.is_none() && props.user_properties.len() == 0;
        if default_properties {
            let _ = try_put_u16_be(dst, pid);
            match self.reason_code {
                PubRecReasonCode::Success => {},
                _ => {
                    let _ = try_put_u8(dst, self.reason_code.to_code());
                },
            }
            proof {
                assert(old(dst).contents() + u16_be_bytes(pid) + seq![self.reason_code.spec_code()]
                    =~= old(dst).contents() + (u16_be_bytes(pid) + seq![self.reason_code.spec_code()]));
            }
            return Ok(());
        }
        let mut ps: Vec<Property> = Vec::new();
        push_str_property(&mut ps, &props.reason_string, 0x1F);
        push_user_properties(&mut ps, &props.user_properties);
        proof {
            assert(props_view(ps@) =~= pubrec_properties(self@));
        }
        if let Err(e) = check_properties(&ps) {
            return Err(e);
        }
        let _ = try_put_u16_be(dst, pid);
        let _ = try_put_u8(dst, self.reason_code.to_code());
        let _ = encode_properties(&ps, dst);
        proof {
            let bytes = spec_encode_properties(props_view(ps@))->Ok_0;
            assert(old(dst).contents() + u16_be_bytes(pid) + seq![self.reason_code.spec_code()] + bytes
                =~= old(dst).contents() + (u16_be_bytes(pid) + seq![self.reason_code.spec_code()]
                + bytes));
        }
        Ok(())
    }

    /// Copies this PUBREC into new buffers taken from `owned`.
    pub fn to_shared(&self, owned: &mut Owned) -> (r: Result<PubRec, buffer_pool::Error>)
        requires
            old(owned)@.0.len() == 0,
        ensures
            r matches Ok(p) && p@ == self@,
            final(owned)@.0.len() == 0,
    {
        Ok(
            PubRec {
                packet_identifier: self.packet_identifier,
                reason_code: self.reason_code,
                other_properties: self.other_properties.to_shared(owned)?,
            },
        )
    }
}

impl PubRecOtherProperties {
    /// Copies these properties into new buffers taken from `owned`.
    pub fn to_shared(&self, owned: &mut Owned) -> (r: Result<PubRecOtherProperties, buffer_pool::Error>)
        requires
            old(owned)@.0.len() == 0,
        ensures
            r matches Ok(p) && opt_view(p.reason_string) == opt_view(self.reason_string)
                && user_properties_view(p.user_properties@) == user_properties_view(
                self.user_properties@,
            ),
            final(owned)@.0.len() == 0,
    {
        let reason_string = opt_str_to_shared(&self.reason_string, owned)?;
        let user_properties = user_properties_to_shared(&self.user_properties, owned)?;
        Ok(PubRecOtherProperties { reason_string, user_properties })
    }
}

impl Clone for PubRec {
    fn clone(&self) -> (r: Self)
        ensures
            r@ == self@,
    {
        PubRec {
            packet_identifier: self.packet_identifier,
            reason_code: self.reason_code,
            other_properties: PubRecOtherProperties {
                reason_string: clone_opt_str(&self.other_properties.reason_string),
                user_properties: clone_user_properties(&self.other_properties.user_properties),
            },
        }
    }
}

/// The properties of a well-formed PUBREC can be decoded back.
proof fn lemma_pubrec_properties_decodable(v: PubRecView)
    requires
        opt_str_wf(v.reason_string),
        user_properties_wf(v.user_properties),
    ensures
        properties_decodable(pubrec_properties(v), pubrec_allowed(), user_properties_repeat()),
        find_bytes(pubrec_properties(v), 0x1F) == v.reason_string,
        spec_user_properties(pubrec_properties(v)) == v.user_properties,
{
    crate::mqtt_proto::properties::lemma_user_properties_repeat();
    let a = opt_str_prop(v.reason_string, 0x1F);
    let u = user_properties_as_props(v.user_properties);
    let ps = a + u;
    lemma_user_properties_of_props(v.user_properties);
    lemma_single_property(a, 0x1F);
    lemma_user_properties_concat(a, u);
    lemma_find_property_concat(a, u, 0x1F);
    assert(Seq::<(Seq<u8>, Seq<u8>)>::empty() + v.user_properties =~= v.user_properties);
    assert forall|i: int| 0 <= i < ps.len() implies property_wf(#[trigger] ps[i])
        && spec_encode_property(ps[i]).len() > 0 && pubrec_allowed().contains(property_id(ps[i])) by {
        if i < a.len() {
            assert(ps[i] == a[i]);
            assert(pubrec_allowed()[0] == 0x1F);
        } else {
            assert(ps[i] == u[i - a.len()]);
            assert(pubrec_allowed()[1] == 0x26);
        }
    }
    assert forall|i: int, j: int|
        0 <= i < j < ps.len() && !user_properties_repeat().contains(property_id(#[trigger] ps[i])) implies property_id(
        ps[i]) != property_id(#[trigger] ps[j]) by {
        assert(i < a.len());
        assert(j >= a.len());
        assert(ps[j] == u[j - a.len()]);
    }
}

/// A PUBREC decodes as it was encoded: in v5 exactly; in v3, where only its packet identifier
/// is sent, as a successful PUBREC with that identifier.
pub proof fn lemma_pubrec_roundtrip(v: PubRecView, version: ProtocolVersion)
    requires
        v.packet_identifier != 0,
        opt_str_wf(v.reason_string),
        user_properties_wf(v.user_properties),
        spec_encode_pubrec(v, version) is Ok,
    ensures
        spec_decode_pubrec(spec_encode_pubrec(v, version)->Ok_0, version) == Ok::<
            (PubRecView, nat),
            DecodeErrorView,
        >(
            (
                if version == ProtocolVersion::V5 {
                    v
                } else {
                    pubrec_view(v.packet_identifier, PubRecReasonCode::Success)
                },
                spec_encode_pubrec(v, version)->Ok_0.len(),
            ),
        ),
{
    let bytes = spec_encode_pubrec(v, version)->Ok_0;
    let pid = u16_be_bytes(v.packet_identifier);
    buffer_pool::lemma_be_u16_roundtrip(v.packet_identifier, bytes.skip(2));
    assert(bytes =~= pid + bytes.skip(2));
    if version == ProtocolVersion::V5 {
        v.reason_code.lemma_code_roundtrip(0);
        if pubrec_has_default_properties(v) {
            assert(v.user_properties =~= Seq::<(Seq<u8>, Seq<u8>)>::empty());
            if v.reason_code != PubRecReasonCode::Success {
                assert(bytes.skip(2)[0] == v.reason_code.spec_code());
            }
        } else {
            lemma_pubrec_properties_decodable(v);
            let props = spec_encode_properties(pubrec_properties(v))->Ok_0;
            crate::mqtt_proto::properties::lemma_properties_roundtrip(
                pubrec_properties(v),
                pubrec_allowed(),
                user_properties_repeat(),
                Seq::empty(),
            );
            assert(bytes.skip(2)[0] == v.reason_code.spec_code());
            assert(bytes.skip(2).skip(1) =~= props + Seq::<u8>::empty());
            crate::mqtt_proto::properties::lemma_encode_properties_len(pubrec_properties(v));
        }
    }
}

} // verus!
