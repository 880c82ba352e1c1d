//! Ref: 3.15 AUTH – Authentication exchange
use vstd::prelude::*;

use crate::buffer_pool::accumulators::try_put_u8;
use crate::buffer_pool::{BytesAccumulator, Shared};
use crate::mqtt_proto::binary_data::{is_length_prefixed, BinaryData};
use crate::mqtt_proto::byte_str::{is_byte_str, ByteStr};
use crate::mqtt_proto::codes::AuthenticateReasonCode;
use crate::mqtt_proto::packet_fields::{
    clone_opt_str, clone_user_properties, find_bytes, lemma_find_property_concat,
    lemma_single_property, lemma_user_properties_concat, lemma_user_properties_of_props,
    no_user_properties, opt_binary_wf, opt_str_prop, opt_str_wf, push_str_property,
    take_authentication_data, take_str_property, user_properties_wf,
};
use crate::mqtt_proto::properties::{
    user_properties_repeat,
    check_properties, decode_properties, encode_properties, properties_decodable,
    property_id, property_wf, props_view, push_user_properties, spec_decode_properties,
    spec_encode_properties, spec_encode_property, spec_encode_property_list, spec_user_properties,
    user_properties_as_props, user_properties_of, user_properties_view, Property, PropertyView,
};
use crate::mqtt_proto::property::{opt_view, Authentication};
use crate::mqtt_proto::{try_get_u8, DecodeError, DecodeErrorView, EncodeError, ProtocolVersion};

verus! {

/// Ref: 3.15 AUTH – Authentication exchange
#[derive(Debug, PartialEq, Eq)]
pub struct Auth {
    pub reason_code: AuthenticateReasonCode,
    /// The method is required, but may be left out together with the reason code, so in effect
    /// it is optional.
    pub authentication: Option<Authentication>,
    pub reason_string: Option<ByteStr>,
    pub user_properties: Vec<(ByteStr, ByteStr)>,
}

/// An AUTH with its strings and data taken as their bytes.
pub struct AuthView {
    pub reason_code: AuthenticateReasonCode,
    pub authentication: Option<(Seq<u8>, Option<Seq<u8>>)>,
    pub reason_string: Option<Seq<u8>>,
    pub user_properties: Seq<(Seq<u8>, Seq<u8>)>,
}

impl View for Auth {
    type V = AuthView;

    open spec fn view(&self) -> AuthView {
        AuthView {
            reason_code: self.reason_code,
            authentication: opt_view(self.authentication),
            reason_string: opt_view(self.reason_string),
            user_properties: user_properties_view(self.user_properties@),
        }
    }
}

/// The identifiers of the properties an AUTH takes.
pub open spec fn auth_allowed() -> Seq<u8> {
    seq![0x15u8, 0x16u8, 0x1Fu8, 0x26u8]
}

/// Authentication from its method and data properties: data without a method is an error.
pub open spec fn spec_authentication_of(method: Option<Seq<u8>>, data: Option<Seq<u8>>) -> Result<
    Option<(Seq<u8>, Option<Seq<u8>>)>,
    DecodeErrorView,
> {
    match (method, data) {
        (Some(m), d) => Ok(Some((m, d))),
        (None, Some(_)) => Err(DecodeErrorView::MissingRequiredProperty("authentication method"@)),
        (None, None) => Ok(None),
    }
}

/// Decodes the body of an AUTH, which v3 does not have: the packet and the number of bytes it
/// took. An empty body is a successful AUTH without properties.
pub open spec fn spec_decode_auth(flags: u8, s: Seq<u8>, version: ProtocolVersion) -> Result<
    (AuthView, nat),
    DecodeErrorView,
> {
    if version == ProtocolVersion::V3 {
        Err(
            DecodeErrorView::UnrecognizedPacket {
                packet_type: 0xF0,
                flags,
                remaining_length: s.len() as usize,
            },
        )
    } else if s.len() == 0 {
        Ok(
            (
                AuthView {
                    reason_code: AuthenticateReasonCode::Success,
                    authentication: None,
                    reason_string: None,
                    user_properties: Seq::empty(),
                },
                0,
            ),
        )
    } else {
        match AuthenticateReasonCode::spec_from_code(s[0]) {
            None => Err(DecodeErrorView::UnrecognizedAuthenticateReasonCode(s[0])),
            Some(rc) => match spec_decode_properties(s.skip(1), auth_allowed(), user_properties_repeat()) {
                Err(e) => Err(e),
                Ok((ps, n)) => match spec_authentication_of(find_bytes(ps, 0x15), find_bytes(ps, 0x16)) {
                    Err(e) => Err(e),
                    Ok(a) => Ok(
                        (
                            AuthView {
                                reason_code: rc,
                                authentication: a,
                                reason_string: find_bytes(ps, 0x1F),
                                user_properties: spec_user_properties(ps),
                            },
                            1 + n,
                        ),
                    ),
                },
            },
        }
    }
}

/// The authentication method and data properties of optional authentication.
pub open spec fn authentication_props(a: Option<(Seq<u8>, Option<Seq<u8>>)>) -> Seq<PropertyView> {
    match a {
        None => Seq::empty(),
        Some((m, None)) => seq![PropertyView::AuthenticationMethod(m)],
        Some((m, Some(d))) => seq![PropertyView::AuthenticationMethod(m), PropertyView::AuthenticationData(d)],
    }
}

/// The properties an AUTH encodes, in order.
pub open spec fn auth_properties(v: AuthView) -> Seq<PropertyView> {
    authentication_props(v.authentication) + opt_str_prop(v.reason_string, 0x1F)
        + user_properties_as_props(v.user_properties)
}

/// Encodes the body of an AUTH (v5 only). It always holds the reason code and the properties.
pub open spec fn spec_encode_auth(v: AuthView) -> Result<Seq<u8>, EncodeError> {
    match spec_encode_properties(auth_properties(v)) {
        Err(e) => Err(e),
        Ok(props) => Ok(seq![v.reason_code.spec_code()] + props),
    }
}

impl Auth {
    pub const PACKET_TYPE: u8 = 0xF0;

    /// Decodes the body of an AUTH from `src`.
    pub fn decode(flags: u8, src: &mut Shared, version: ProtocolVersion) -> (r: Result<
        Auth,
        DecodeError,
    >)
        ensures
            match (r, spec_decode_auth(flags, old(src)@, version)) {
                (Ok(p), Ok((v, n))) => p@ == v && final(src)@ == old(src)@.skip(n as int),
                (Err(e), Err(se)) => e@ == se,
                _ => false,
            },
    {
        let ghost s = src@;
        if version.is_v3() {
            return Err(
                DecodeError::UnrecognizedPacket {
                    packet_type: Auth::PACKET_TYPE,
                    flags,
                    remaining_length: src.len(),
                },
            );
        }
        if src.len() == 0 {
            proof {
                assert(src@ =~= s.skip(0));
            }
            return Ok(
                Auth {
                    reason_code: AuthenticateReasonCode::Success,
                    authentication: None,
                    reason_string: None,
                    user_properties: no_user_properties(),
                },
            );
        }
        let code = try_get_u8(src)?;
        let reason_code = AuthenticateReasonCode::from_code(code)?;
        let allowed: [u8; 4] = [0x15, 0x16, 0x1F, 0x26];
        proof {
            assert(allowed@ =~= auth_allowed());
            assert(src@ =~= s.skip(1));
        }
        let repeatable: [u8; 1] = [0x26];
        proof {
            assert(repeatable@ =~= user_properties_repeat());
        }
        let ps = decode_properties(src, allowed.as_slice(), repeatable.as_slice())?;
        proof {
            assert(src@ =~= s.skip(1 + (s.skip(1).len() - src@.len())));
        }
        let method = take_str_property(&ps, 0x15);
        let data = take_authentication_data(&ps);
        let authentication = Authentication::of(method, data)?;
        let reason_string = take_str_property(&ps, 0x1F);
        let user_properties = user_properties_of(&ps);
        Ok(Auth { reason_code, authentication, reason_string, user_properties })
    }

    /// Encodes the body of this AUTH into `dst`. AUTH does not exist in v3.
    pub fn encode<B: BytesAccumulator>(&self, dst: &mut B, version: ProtocolVersion) -> (r: Result<
        (),
        EncodeError,
    >)
        requires
            version == ProtocolVersion::V5,
            old(dst).wf(),
            spec_encode_property_list(auth_properties(self@)).len() <= usize::MAX,
            spec_encode_auth(self@) matches Ok(bytes) ==> bytes.len() <= old(dst).spare(),
        ensures
            final(dst).wf(),
            match spec_encode_auth(self@) {
                Ok(bytes) => r is Ok && final(dst).contents() == old(dst).contents() + bytes
                    && final(dst).spare() >= old(dst).spare() - bytes.len(),
                Err(e) => r == Err::<(), EncodeError>(e) && final(dst).contents() == old(
                    dst,
                ).contents(),
            },
    {
        let (method, data) = Authentication::into_parts(self.authentication.as_ref());
        let mut ps: Vec<Property> = Vec::new();
        push_str_property(&mut ps, &method, 0x15);
        let ghost after_method = props_view(ps@);
        proof {
            assert(props_view(ps@) =~= Seq::<PropertyView>::empty() + opt_str_prop(opt_view(method), 0x15));
        }
        if let Some(d) = data {
            ps.push(Property::AuthenticationData(d));
            proof {
                assert(props_view(ps@) =~= after_method.push(PropertyView::AuthenticationData(d@)));
            }
        }
        proof {
            assert(props_view(ps@) =~= authentication_props(self@.authentication));
        }
        let ghost first = props_view(ps@);
        push_str_property(&mut ps, &self.reason_string, 0x1F);
        push_user_properties(&mut ps, &self.user_properties);
        proof {
            assert(props_view(ps@) =~= auth_properties(self@));
        }
        check_properties(&ps)?;
        let _ = try_put_u8(dst, self.reason_code.to_code());
        let _ = encode_properties(&ps, dst);
        proof {
            let bytes = spec_encode_properties(props_view(ps@))->Ok_0;
            assert(old(dst).contents().push(self.reason_code.spec_code()) + bytes =~= old(dst).contents()
                + (seq![self.reason_code.spec_code()] + bytes));
        }
        Ok(())
    }
}

impl Clone for Auth {
    fn clone(&self) -> (r: Self)
        ensures
            r@ == self@,
    {
        let authentication = match &self.authentication {
            Some(a) => Some(a.clone()),
            None => None,
        };
        Auth {
            reason_code: self.reason_code,
            authentication,
            reason_string: clone_opt_str(&self.reason_string),
            user_properties: clone_user_properties(&self.user_properties),
        }
    }
}

/// Whether optional authentication holds a valid method and valid data.
pub open spec fn authentication_wf(a: Option<(Seq<u8>, Option<Seq<u8>>)>) -> bool {
    a matches Some((m, d)) ==> is_byte_str(m) && opt_binary_wf(d)
}

/// The properties of a well-formed AUTH can be decoded back.
proof fn lemma_auth_properties_decodable(v: AuthView)
    requires
        authentication_wf(v.authentication),
        opt_str_wf(v.reason_string),
        user_properties_wf(v.user_properties),
    ensures
        properties_decodable(auth_properties(v), auth_allowed(), user_properties_repeat()),
        spec_authentication_of(
            find_bytes(auth_properties(v), 0x15),
            find_bytes(auth_properties(v), 0x16),
        ) == Ok::<Option<(Seq<u8>, Option<Seq<u8>>)>, DecodeErrorView>(v.authentication),
        find_bytes(auth_properties(v), 0x1F) == v.reason_string,
        spec_user_properties(auth_properties(v)) == v.user_properties,
{
    crate::mqtt_proto::properties::lemma_user_properties_repeat();
    let a = authentication_props(v.authentication);
    let b = opt_str_prop(v.reason_string, 0x1F);
    let u = user_properties_as_props(v.user_properties);
    let ps = a + b + u;
    lemma_user_properties_of_props(v.user_properties);
    lemma_single_property(b, 0x1F);
    lemma_single_property(b, 0x15);
    lemma_single_property(b, 0x16);
    lemma_user_properties_concat(a, b);
    lemma_user_properties_concat(a + b, u);
    lemma_find_property_concat(a, b, 0x15);
    lemma_find_property_concat(a + b, u, 0x15);
    lemma_find_property_concat(a, b, 0x16);
    lemma_find_property_concat(a + b, u, 0x16);
    lemma_find_property_concat(a, b, 0x1F);
    lemma_find_property_concat(a + b, u, 0x1F);
    match v.authentication {
        None => {
            assert(a =~= Seq::<PropertyView>::empty());
        },
        Some((m, None)) => {
            lemma_single_property(a, 0x15);
            lemma_single_property(a, 0x16);
            lemma_single_property(a, 0x1F);
        },
        Some((m, Some(d))) => {
            let a1 = seq![PropertyView::AuthenticationMethod(m)];
            let a2 = seq![PropertyView::AuthenticationData(d)];
            assert(a =~= a1 + a2);
            lemma_single_property(a1, 0x15);
            lemma_single_property(a1, 0x16);
            lemma_single_property(a1, 0x1F);
            lemma_single_property(a2, 0x15);
            lemma_single_property(a2, 0x16);
            lemma_single_property(a2, 0x1F);
            lemma_user_properties_concat(a1, a2);
            lemma_find_property_concat(a1, a2, 0x15);
            lemma_find_property_concat(a1, a2, 0x16);
            lemma_find_property_concat(a1, a2, 0x1F);
        },
    }
    assert(spec_user_properties(a) =~= Seq::<(Seq<u8>, Seq<u8>)>::empty());
    assert(Seq::<(Seq<u8>, Seq<u8>)>::empty() + Seq::<(Seq<u8>, Seq<u8>)>::empty() + v.user_properties
        =~= v.user_properties);
    assert forall|i: int| 0 <= i < ps.len() implies property_wf(#[trigger] ps[i])
        && spec_encode_property(ps[i]).len() > 0 && auth_allowed().contains(property_id(ps[i])) by {
        if i < a.len() {
            assert(ps[i] == a[i]);
            assert(auth_allowed()[0] == 0x15);
            assert(auth_allowed()[1] == 0x16);
        } else if i < a.len() + b.len() {
            assert(ps[i] == b[i - a.len()]);
            assert(auth_allowed()[2] == 0x1F);
        } else {
            assert(ps[i] == u[i - a.len() - b.len()]);
            assert(auth_allowed()[3] == 0x26);
        }
    }
    assert forall|i: int, j: int|
        0 <= i < j < ps.len() && !user_properties_repeat().contains(property_id(#[trigger] ps[i])) implies property_id(
        ps[i]) != property_id(#[trigger] ps[j]) by {
        if j < a.len() {
            assert(ps[i] == a[i]);
            assert(ps[j] == a[j]);
        } else if j < a.len() + b.len() {
            assert(ps[j] == b[j - a.len()]);
            if i < a.len() {
                assert(ps[i] == a[i]);
            }
        } else {
            assert(ps[j] == u[j - a.len() - b.len()]);
            if i < a.len() {
                assert(ps[i] == a[i]);
            } else {
                assert(ps[i] == b[i - a.len()]);
            }
        }
    }
}

/// An AUTH decodes as it was encoded.
pub proof fn lemma_auth_roundtrip(v: AuthView, flags: u8)
    requires
        authentication_wf(v.authentication),
        opt_str_wf(v.reason_string),
        user_properties_wf(v.user_properties),
        spec_encode_auth(v) is Ok,
    ensures
        spec_decode_auth(flags, spec_encode_auth(v)->Ok_0, ProtocolVersion::V5) == Ok::<
            (AuthView, nat),
            DecodeErrorView,
        >((v, spec_encode_auth(v)->Ok_0.len())),
{
    let bytes = spec_encode_auth(v)->Ok_0;
    let props = spec_encode_properties(auth_properties(v))->Ok_0;
    v.reason_code.lemma_code_roundtrip(0);
    lemma_auth_properties_decodable(v);
    crate::mqtt_proto::properties::lemma_properties_roundtrip(
        auth_properties(v),
        auth_allowed(),
                user_properties_repeat(),
        Seq::empty(),
    );
    assert(bytes.skip(1) =~= props + Seq::<u8>::empty());
}

} // verus!
