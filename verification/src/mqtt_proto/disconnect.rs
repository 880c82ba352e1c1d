//! Ref: 3.14 DISCONNECT - Disconnect notification
use vstd::prelude::*;

use crate::buffer_pool::accumulators::try_put_u8;
use crate::buffer_pool::{self, BytesAccumulator, Owned, Shared};
use crate::mqtt_proto::byte_str::ByteStr;
use crate::mqtt_proto::codes::DisconnectReasonCode;
use crate::mqtt_proto::packet_fields::{
    clone_opt_str, clone_user_properties, find_bytes, lemma_find_property_concat,
    lemma_find_property_id, lemma_single_property, lemma_user_properties_concat,
    lemma_user_properties_of_props, no_user_properties, opt_str_prop, find_session_expiry, take_session_expiry, opt_str_to_shared, opt_str_wf,
    push_str_property, take_str_property, user_properties_to_shared, user_properties_wf,
};
use crate::mqtt_proto::properties::{
    user_properties_repeat,
    check_properties, decode_properties, encode_properties, find_property, 
    properties_decodable, property_id, property_wf, props_view, push_user_properties,
    spec_decode_properties, spec_encode_properties, spec_encode_property, spec_encode_property_list,
    spec_find_property, spec_user_properties, user_properties_as_props, user_properties_of,
    user_properties_view, Property, PropertyView,
};
use crate::mqtt_proto::property::{opt_view, SessionExpiryInterval};
use crate::mqtt_proto::{try_get_u8, DecodeError, DecodeErrorView, EncodeError, ProtocolVersion};

verus! {

/// The properties of a DISCONNECT besides its reason code.
#[derive(Debug, PartialEq, Eq)]
pub struct DisconnectOtherProperties {
    pub session_expiry_interval: Option<SessionExpiryInterval>,
    pub reason_string: Option<ByteStr>,
    pub user_properties: Vec<(ByteStr, ByteStr)>,
    pub server_reference: Option<ByteStr>,
}

/// Ref: 3.14 DISCONNECT - Disconnect notification
#[derive(Debug, PartialEq, Eq)]
pub struct Disconnect {
    pub reason_code: DisconnectReasonCode,
    pub other_properties: DisconnectOtherProperties,
}

/// A DISCONNECT with its strings taken as their bytes.
pub struct DisconnectView {
    pub reason_code: DisconnectReasonCode,
    pub session_expiry_interval: Option<SessionExpiryInterval>,
    pub reason_string: Option<Seq<u8>>,
    pub user_properties: Seq<(Seq<u8>, Seq<u8>)>,
    pub server_reference: Option<Seq<u8>>,
}

impl View for Disconnect {
    type V = DisconnectView;

    open spec fn view(&self) -> DisconnectView {
        DisconnectView {
            reason_code: self.reason_code,
            session_expiry_interval: self.other_properties.session_expiry_interval,
            reason_string: opt_view(self.other_properties.reason_string),
            user_properties: user_properties_view(self.other_properties.user_properties@),
            server_reference: opt_view(self.other_properties.server_reference),
        }
    }
}

/// A DISCONNECT with the given reason code and no properties.
pub open spec fn disconnect_view(reason_code: DisconnectReasonCode) -> DisconnectView {
    DisconnectView {
        reason_code,
        session_expiry_interval: None,
        reason_string: None,
        user_properties: Seq::empty(),
        server_reference: None,
    }
}

/// The identifiers of the properties a DISCONNECT takes.
pub open spec fn disconnect_allowed() -> Seq<u8> {
    seq![0x11u8, 0x1Fu8, 0x26u8, 0x1Cu8]
}

/// Decodes the body of a DISCONNECT: the packet and the number of bytes it took. In v3 the body
/// is empty; in v5 the reason code and the property length may be left out.
pub open spec fn spec_decode_disconnect(s: Seq<u8>, version: ProtocolVersion) -> Result<
    (DisconnectView, nat),
    DecodeErrorView,
> {
    if version == ProtocolVersion::V3 || s.len() == 0 {
        Ok((disconnect_view(DisconnectReasonCode::Normal), 0))
    } else {
        match DisconnectReasonCode::spec_from_code(s[0]) {
            None => Err(DecodeErrorView::UnrecognizedDisconnectReasonCode(s[0])),
            Some(rc) => if s.len() == 1 {
                Ok((disconnect_view(rc), 1))
            } else {
                match spec_decode_properties(s.skip(1), disconnect_allowed(), user_properties_repeat()) {
                    Err(e) => Err(e),
                    Ok((ps, n)) => Ok(
                        (
                            DisconnectView {
                                reason_code: rc,
                                session_expiry_interval: find_session_expiry(ps),
                                reason_string: find_bytes(ps, 0x1F),
                                user_properties: spec_user_properties(ps),
                                server_reference: find_bytes(ps, 0x1C),
                            },
                            1 + n,
                        ),
                    ),
                }
            },
        }
    }
}

/// The session expiry interval property holding `o`, if `o` holds an interval.
pub open spec fn opt_session_expiry_prop(o: Option<SessionExpiryInterval>) -> Seq<PropertyView> {
    match o {
        Some(i) => seq![PropertyView::SessionExpiryInterval(i)],
        None => Seq::empty(),
    }
}

/// The properties a DISCONNECT encodes, in order.
pub open spec fn disconnect_properties(v: DisconnectView) -> Seq<PropertyView> {
    opt_session_expiry_prop(v.session_expiry_interval) + opt_str_prop(v.reason_string, 0x1F)
        + user_properties_as_props(v.user_properties) + opt_str_prop(v.server_reference, 0x1C)
}

/// Whether a DISCONNECT has any property.
pub open spec fn disconnect_has_properties(v: DisconnectView) -> bool {
    v.session_expiry_interval is Some || v.reason_string is Some || v.user_properties.len() > 0
        || v.server_reference is Some
}

/// Encodes the body of a DISCONNECT: nothing in v3; in v5 nothing for a normal disconnection
/// without properties, else the reason code and then the properties, if there are any.
pub open spec fn spec_encode_disconnect(v: DisconnectView, version: ProtocolVersion) -> Result<
    Seq<u8>,
    EncodeError,
> {
    if version == ProtocolVersion::V3 {
        Ok(Seq::empty())
    } else if !disconnect_has_properties(v) {
        if v.reason_code == DisconnectReasonCode::Normal {
            Ok(Seq::empty())
        } else {
            Ok(seq![v.reason_code.spec_code()])
        }
    } else {
        match spec_encode_properties(disconnect_properties(v)) {
            Err(e) => Err(e),
            Ok(props) => Ok(seq![v.reason_code.spec_code()] + props),
        }
    }
}

impl Disconnect {
    pub const PACKET_TYPE: u8 = 0xE0;

    /// A DISCONNECT with the given reason code and no properties.
    pub fn new(reason_code: DisconnectReasonCode) -> (r: Disconnect)
        ensures
            r@ == disconnect_view(reason_code),
    {
        Disconnect {
            reason_code,
            other_properties: DisconnectOtherProperties {
                session_expiry_interval: None,
                reason_string: None,
                user_properties: no_user_properties(),
                server_reference: None,
            },
        }
    }

    /// A DISCONNECT with the given reason code and no properties.
    pub fn from_reason_code(reason: DisconnectReasonCode) -> (r: Disconnect)
        ensures
            r@ == disconnect_view(reason),
    {
        Disconnect::new(reason)
    }

    /// Decodes the body of a DISCONNECT from `src`.
    pub fn decode(_flags: u8, src: &mut Shared, version: ProtocolVersion) -> (r: Result<
        Disconnect,
        DecodeError,
    >)
        ensures
            match (r, spec_decode_disconnect(old(src)@, version)) {
                (Ok(p), Ok((v, n))) => p@ == v && final(src)@ == old(src)@.skip(n as int),
                (Err(e), Err(se)) => e@ == se,
                _ => false,
            },
    {
        let ghost s = src@;
        if version.is_v3() || src.len() == 0 {
            proof {
                assert(src@ =~= s.skip(0));
            }
            return Ok(Disconnect::new(DisconnectReasonCode::Normal));
        }
        let code = try_get_u8(src)?;
        let reason_code = DisconnectReasonCode::from_code(code)?;
        if src.len() == 0 {
            proof {
                assert(src@ =~= s.skip(1));
            }
            return Ok(Disconnect::new(reason_code));
        }
        let allowed: [u8; 4] = [0x11, 0x1F, 0x26, 0x1C];
        proof {
            assert(allowed@ =~= disconnect_allowed());
            assert(src@ =~= s.skip(1));
        }
        let repeatable: [u8; 1] = [0x26];
        proof {
            assert(repeatable@ =~= user_properties_repeat());
        }
        let ps = decode_properties(src, allowed.as_slice(), repeatable.as_slice())?;
        proof {
            assert(src@ =~= s.skip(1 + (s.skip(1).len() - src@.len())));
        }
        let session_expiry_interval = take_session_expiry(&ps);
        let reason_string = take_str_property(&ps, 0x1F);
        let user_properties = user_properties_of(&ps);
        let server_reference = take_str_property(&ps, 0x1C);
        Ok(
            Disconnect {
                reason_code,
                other_properties: DisconnectOtherProperties {
                    session_expiry_interval,
                    reason_string,
                    user_properties,
                    server_reference,
                },
            },
        )
    }

    /// Encodes the body of this DISCONNECT into `dst`.
    pub fn encode<B: BytesAccumulator>(&self, dst: &mut B, version: ProtocolVersion) -> (r: Result<
        (),
        EncodeError,
    >)
        requires
            old(dst).wf(),
            spec_encode_property_list(disconnect_properties(self@)).len() <= usize::MAX,
            spec_encode_disconnect(self@, version) matches Ok(bytes) ==> bytes.len() <= old(
                dst,
            ).spare(),
        ensures
            final(dst).wf(),
            match spec_encode_disconnect(self@, version) {
                Ok(bytes) => r is Ok && final(dst).contents() == old(dst).contents() + bytes
                    && final(dst).spare() >= old(dst).spare() - bytes.len(),
                Err(e) => r == Err::<(), EncodeError>(e) && final(dst).contents() == old(
                    dst,
                ).contents(),
            },
    {
        if version.is_v3() {
            proof {
                assert(old(dst).contents() + Seq::<u8>::empty() =~= old(dst).contents());
            }
            return Ok(());
        }
        let props = &self.other_properties;
        let has_properties = props.session_expiry_interval.is_some() || props.reason_string.is_some()
            || props.user_properties.len() > 0 || props.server_reference.is_some();
        if !has_properties {
            match self.reason_code {
                DisconnectReasonCode::Normal => {
                    proof {
                        assert(old(dst).contents() + Seq::<u8>::empty() =~= old(dst).contents());
                    }
                },
                _ => {
                    let _ = try_put_u8(dst, self.reason_code.to_code());
                    proof {
                        assert(old(dst).contents().push(self.reason_code.spec_code()) =~= old(
                            dst,
                        ).contents() + seq![self.reason_code.spec_code()]);
                    }
                },
            }
            return Ok(());
        }
        let mut ps: Vec<Property> = Vec::new();
        if let Some(i) = props.session_expiry_interval {
            ps.push(Property::SessionExpiryInterval(i));
        }
        proof {
            assert(props_view(ps@) =~= opt_session_expiry_prop(self@.session_expiry_interval));
        }
        push_str_property(&mut ps, &props.reason_string, 0x1F);
        push_user_properties(&mut ps, &props.user_properties);
        push_str_property(&mut ps, &props.server_reference, 0x1C);
        proof {
            assert(props_view(ps@) =~= disconnect_properties(self@));
        }
        check_properties(&ps)?;
        let _ = try_put_u8(dst, self.reason_code.to_code());
        let _ = encode_properties(&ps, dst);
        proof {
            let bytes = spec_encode_properties(props_view(ps@))->Ok_0;
            assert(old(dst).contents().push(self.reason_code.spec_code()) + bytes =~= old(dst).contents()
                + (seq![self.reason_code.spec_code()] + bytes));
        }
        Ok(())
    }

    /// Copies this DISCONNECT into new buffers taken from `owned`.
    pub fn to_shared(&self, owned: &mut Owned) -> (r: Result<Disconnect, buffer_pool::Error>)
        requires
            old(owned)@.0.len() == 0,
        ensures
            r matches Ok(p) && p@ == self@,
            final(owned)@.0.len() == 0,
    {
        Ok(Disconnect { reason_code: self.reason_code, other_properties: self.other_properties.to_shared(owned)? })
    }
}

impl DisconnectOtherProperties {
    /// Copies these properties into new buffers taken from `owned`.
    pub fn to_shared(&self, owned: &mut Owned) -> (r: Result<DisconnectOtherProperties, buffer_pool::Error>)
        requires
            old(owned)@.0.len() == 0,
        ensures
            r matches Ok(p) && p.session_expiry_interval == self.session_expiry_interval && opt_view(
                p.reason_string,
            ) == opt_view(self.reason_string) && user_properties_view(p.user_properties@)
                == user_properties_view(self.user_properties@) && opt_view(p.server_reference)
                == opt_view(self.server_reference),
            final(owned)@.0.len() == 0,
    {
        let reason_string = opt_str_to_shared(&self.reason_string, owned)?;
        let user_properties = user_properties_to_shared(&self.user_properties, owned)?;
        let server_reference = opt_str_to_shared(&self.server_reference, owned)?;
        Ok(
            DisconnectOtherProperties {
                session_expiry_interval: self.session_expiry_interval,
                reason_string,
                user_properties,
                server_reference,
            },
        )
    }
}

impl Clone for Disconnect {
    fn clone(&self) -> (r: Self)
        ensures
            r@ == self@,
    {
        let p = &self.other_properties;
        Disconnect {
            reason_code: self.reason_code,
            other_properties: DisconnectOtherProperties {
                session_expiry_interval: p.session_expiry_interval,
                reason_string: clone_opt_str(&p.reason_string),
                user_properties: clone_user_properties(&p.user_properties),
                server_reference: clone_opt_str(&p.server_reference),
            },
        }
    }
}

/// The properties of a well-formed DISCONNECT can be decoded back.
proof fn lemma_disconnect_properties_decodable(v: DisconnectView)
    requires
        v.session_expiry_interval matches Some(SessionExpiryInterval::Duration(d)) ==> d != u32::MAX,
        opt_str_wf(v.reason_string),
        opt_str_wf(v.server_reference),
        user_properties_wf(v.user_properties),
    ensures
        properties_decodable(disconnect_properties(v), disconnect_allowed(), user_properties_repeat()),
        find_session_expiry(disconnect_properties(v)) == v.session_expiry_interval,
        find_bytes(disconnect_properties(v), 0x1F) == v.reason_string,
        find_bytes(disconnect_properties(v), 0x1C) == v.server_reference,
        spec_user_properties(disconnect_properties(v)) == v.user_properties,
{
    crate::mqtt_proto::properties::lemma_user_properties_repeat();
    let a = opt_session_expiry_prop(v.session_expiry_interval);
    let b = opt_str_prop(v.reason_string, 0x1F);
    let u = user_properties_as_props(v.user_properties);
    let c = opt_str_prop(v.server_reference, 0x1C);
    let ps = a + b + u + c;
    lemma_user_properties_of_props(v.user_properties);
    lemma_single_property(a, 0x11);
    lemma_single_property(a, 0x1F);
    lemma_single_property(a, 0x1C);
    lemma_single_property(b, 0x11);
    lemma_single_property(b, 0x1F);
    lemma_single_property(b, 0x1C);
    lemma_single_property(c, 0x11);
    lemma_single_property(c, 0x1F);
    lemma_single_property(c, 0x1C);
    lemma_user_properties_concat(a, b);
    lemma_user_properties_concat(a + b, u);
    lemma_user_properties_concat(a + b + u, c);
    lemma_find_property_concat(a, b, 0x11);
    lemma_find_property_concat(a + b, u, 0x11);
    lemma_find_property_concat(a + b + u, c, 0x11);
    lemma_find_property_concat(a, b, 0x1F);
    lemma_find_property_concat(a + b, u, 0x1F);
    lemma_find_property_concat(a + b + u, c, 0x1F);
    lemma_find_property_concat(a, b, 0x1C);
    lemma_find_property_concat(a + b, u, 0x1C);
    lemma_find_property_concat(a + b + u, c, 0x1C);
    let e = Seq::<(Seq<u8>, Seq<u8>)>::empty();
    assert(e + e + v.user_properties + e =~= v.user_properties);
    assert forall|i: int| 0 <= i < ps.len() implies property_wf(#[trigger] ps[i])
        && spec_encode_property(ps[i]).len() > 0 && disconnect_allowed().contains(property_id(ps[i])) by {
        assert(disconnect_allowed()[0] == 0x11);
        assert(disconnect_allowed()[1] == 0x1F);
        assert(disconnect_allowed()[2] == 0x26);
        assert(disconnect_allowed()[3] == 0x1C);
        if i < a.len() {
            assert(ps[i] == a[i]);
        } else if i < a.len() + b.len() {
            assert(ps[i] == b[i - a.len()]);
        } else if i < a.len() + b.len() + u.len() {
            assert(ps[i] == u[i - a.len() - b.len()]);
        } else {
            assert(ps[i] == c[i - a.len() - b.len() - u.len()]);
        }
    }
    assert forall|i: int, j: int|
        0 <= i < j < ps.len() && !user_properties_repeat().contains(property_id(#[trigger] ps[i])) implies property_id(
        ps[i]) != property_id(#[trigger] ps[j]) by {
        let k = a.len() + b.len() + u.len();
        if i < a.len() {
            assert(ps[i] == a[i]);
        } else if i < a.len() + b.len() {
            assert(ps[i] == b[i - a.len()]);
        } else if i < k {
            assert(ps[i] == u[i - a.len() - b.len()]);
        } else {
            assert(ps[i] == c[i - k]);
        }
        if j < a.len() {
            assert(ps[j] == a[j]);
        } else if j < a.len() + b.len() {
            assert(ps[j] == b[j - a.len()]);
        } else if j < k {
            assert(ps[j] == u[j - a.len() - b.len()]);
        } else {
            assert(ps[j] == c[j - k]);
        }
    }
}

/// A DISCONNECT decodes as it was encoded: in v5 exactly; in v3, where it has no body, as a
/// normal disconnection.
pub proof fn lemma_disconnect_roundtrip(v: DisconnectView, version: ProtocolVersion)
    requires
        v.session_expiry_interval matches Some(SessionExpiryInterval::Duration(d)) ==> d != u32::MAX,
        opt_str_wf(v.reason_string),
        opt_str_wf(v.server_reference),
        user_properties_wf(v.user_properties),
        spec_encode_disconnect(v, version) is Ok,
    ensures
        spec_decode_disconnect(spec_encode_disconnect(v, version)->Ok_0, version) == Ok::<
            (DisconnectView, nat),
            DecodeErrorView,
        >(
            (
                if version == ProtocolVersion::V5 {
                    v
                } else {
                    disconnect_view(DisconnectReasonCode::Normal)
                },
                spec_encode_disconnect(v, version)->Ok_0.len(),
            ),
        ),
{
    let bytes = spec_encode_disconnect(v, version)->Ok_0;
    if version == ProtocolVersion::V5 {
        v.reason_code.lemma_code_roundtrip(0);
        if !disconnect_has_properties(v) {
            assert(v.user_properties =~= Seq::<(Seq<u8>, Seq<u8>)>::empty());
        } else {
            lemma_disconnect_properties_decodable(v);
            let props = spec_encode_properties(disconnect_properties(v))->Ok_0;
            crate::mqtt_proto::properties::lemma_properties_roundtrip(
                disconnect_properties(v),
                disconnect_allowed(),
                user_properties_repeat(),
                Seq::empty(),
            );
            crate::mqtt_proto::properties::lemma_encode_properties_len(disconnect_properties(v));
            assert(bytes.skip(1) =~= props + Seq::<u8>::empty());
        }
    }
}

} // verus!
