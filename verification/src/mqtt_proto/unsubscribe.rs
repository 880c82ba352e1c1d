//! Ref: 3.10 UNSUBSCRIBE – Unsubscribe request
use vstd::prelude::*;

use crate::buffer_pool::accumulators::try_put_u16_be;
use crate::buffer_pool::{self, u16_be_bytes, BytesAccumulator, Owned, Shared};
use crate::mqtt_proto::byte_str::ByteStr;
use crate::mqtt_proto::filter::{spec_decode_filter, Filter, FilterKind};
use crate::mqtt_proto::packet_fields::{
    clone_user_properties, no_user_properties, user_properties_to_shared,
};
use crate::mqtt_proto::properties::{
    check_properties, decode_properties, encode_properties, props_view, push_user_properties,
    spec_decode_properties, spec_encode_properties, spec_encode_property_list, spec_user_properties,
    user_properties_as_props, user_properties_of, user_properties_repeat, user_properties_view,
    Property, PropertyView,
};
use crate::mqtt_proto::{
    spec_get_packet_identifier, try_get_packet_identifier, DecodeError, DecodeErrorView, EncodeError,
    PacketIdentifier, ProtocolVersion,
};

verus! {

/// The properties of an UNSUBSCRIBE besides its packet identifier and topic filters.
#[derive(Debug, PartialEq, Eq)]
pub struct UnsubscribeOtherProperties {
    pub user_properties: Vec<(ByteStr, ByteStr)>,
}

/// Ref: 3.10 UNSUBSCRIBE – Unsubscribe request
#[derive(Debug, PartialEq, Eq)]
pub struct Unsubscribe {
    pub packet_identifier: PacketIdentifier,
    pub unsubscribe_from: Vec<Filter>,
    pub other_properties: UnsubscribeOtherProperties,
}

/// An UNSUBSCRIBE with its topic filters and properties taken as their views.
pub struct UnsubscribeView {
    pub packet_identifier: u16,
    pub unsubscribe_from: Seq<(Seq<u8>, FilterKind)>,
    pub user_properties: Seq<(Seq<u8>, Seq<u8>)>,
}

/// The views of topic filters.
pub open spec fn filters_view(v: Seq<Filter>) -> Seq<(Seq<u8>, FilterKind)> {
    v.map_values(|f: Filter| f@)
}

impl View for Unsubscribe {
    type V = UnsubscribeView;

    open spec fn view(&self) -> UnsubscribeView {
        UnsubscribeView {
            packet_identifier: self.packet_identifier@,
            unsubscribe_from: filters_view(self.unsubscribe_from@),
            user_properties: user_properties_view(self.other_properties.user_properties@),
        }
    }
}

/// The identifiers of the properties an UNSUBSCRIBE takes.
pub open spec fn unsubscribe_allowed() -> Seq<u8> {
    seq![0x26u8]
}

/// Decodes the topic filters that fill `s`, after those in `acc`.
pub open spec fn spec_decode_filter_list(s: Seq<u8>, acc: Seq<(Seq<u8>, FilterKind)>) -> Result<
    Seq<(Seq<u8>, FilterKind)>,
    DecodeErrorView,
>
    decreases s.len(),
{
    if s.len() == 0 {
        Ok(acc)
    } else {
        match spec_decode_filter(s) {
            Err(e) => Err(e),
            Ok(None) => Err(DecodeErrorView::IncompletePacket),
            Ok(Some((raw, k))) => if 1 <= raw.len() <= s.len() {
                spec_decode_filter_list(s.skip(raw.len() as int), acc.push((raw, k)))
            } else {
                Err(DecodeErrorView::IncompletePacket)
            },
        }
    }
}

/// Decodes the body of an UNSUBSCRIBE: the packet and the number of bytes it took, which is all
/// of them. An UNSUBSCRIBE must hold at least one topic filter.
pub open spec fn spec_decode_unsubscribe(s: Seq<u8>, version: ProtocolVersion) -> Result<
    (UnsubscribeView, nat),
    DecodeErrorView,
> {
    match spec_get_packet_identifier(s) {
        Err(e) => Err(e),
        Ok(pid) => {
            let props = if version == ProtocolVersion::V3 {
                Ok((Seq::<PropertyView>::empty(), 0nat))
            } else {
                spec_decode_properties(s.skip(2), unsubscribe_allowed(), user_properties_repeat())
            };
            match props {
                Err(e) => Err(e),
                Ok((ps, n)) => match spec_decode_filter_list(s.skip((2 + n) as int), Seq::empty()) {
                    Err(e) => Err(e),
                    Ok(filters) => if filters.len() == 0 {
                        Err(DecodeErrorView::NoTopics)
                    } else {
                        Ok(
                            (
                                UnsubscribeView {
                                    packet_identifier: pid,
                                    unsubscribe_from: filters,
                                    user_properties: spec_user_properties(ps),
                                },
                                s.len(),
                            ),
                        )
                    },
                },
            }
        },
    }
}

/// The length-prefixed topic filters, one after another.
pub open spec fn spec_encode_filter_list(filters: Seq<(Seq<u8>, FilterKind)>) -> Seq<u8>
    decreases filters.len(),
{
    if filters.len() == 0 {
        Seq::empty()
    } else {
        spec_encode_filter_list(filters.drop_last()) + filters.last().0
    }
}

/// Encodes the body of an UNSUBSCRIBE: the packet identifier, in v5 the properties, and the
/// topic filters, of which there must be at least one.
pub open spec fn spec_encode_unsubscribe(v: UnsubscribeView, version: ProtocolVersion) -> Result<
    Seq<u8>,
    EncodeError,
> {
    let props = if version == ProtocolVersion::V5 {
        spec_encode_properties(user_properties_as_props(v.user_properties))
    } else {
        Ok(Seq::empty())
    };
    match props {
        Err(e) => Err(e),
        Ok(props) => if v.unsubscribe_from.len() == 0 {
            Err(EncodeError::NoTopics)
        } else {
            Ok(u16_be_bytes(v.packet_identifier) + props + spec_encode_filter_list(v.unsubscribe_from))
        },
    }
}

/// The encoding of a prefix of a list of filters is no longer than that of the list.
proof fn lemma_filter_list_prefix(filters: Seq<(Seq<u8>, FilterKind)>, i: int)
    requires
        0 <= i <= filters.len(),
    ensures
        spec_encode_filter_list(filters.take(i)).len() <= spec_encode_filter_list(filters).len(),
    decreases filters.len(),
{
    if i < filters.len() {
        assert(filters.drop_last().take(i) =~= filters.take(i));
        lemma_filter_list_prefix(filters.drop_last(), i);
    } else {
        assert(filters.take(i) =~= filters);
    }
}

/// A decoded topic filter takes at least one byte, and no more than there are.
proof fn lemma_filter_len(s: Seq<u8>)
    ensures
        spec_decode_filter(s) matches Ok(Some((raw, k))) ==> 2 <= raw.len() <= s.len(),
{
}

impl Unsubscribe {
    pub const PACKET_TYPE: u8 = 0xA0;

    /// Decodes the body of an UNSUBSCRIBE from `src`.
    pub fn decode(_flags: u8, src: &mut Shared, version: ProtocolVersion) -> (r: Result<
        Unsubscribe,
        DecodeError,
    >)
        ensures
            match (r, spec_decode_unsubscribe(old(src)@, version)) {
                (Ok(p), Ok((v, n))) => p@ == v && final(src)@ == old(src)@.skip(n as int),
                (Err(e), Err(se)) => e@ == se,
                _ => false,
            },
    {
        let ghost s = src@;
        let packet_identifier = try_get_packet_identifier(src)?;
        proof {
            assert(src@ =~= s.skip(2));
        }
        let ps = if version.is_v3() {
            let ps: Vec<Property> = Vec::new();
            proof {
                assert(props_view(ps@) =~= Seq::<PropertyView>::empty());
            }
            ps
        } else {
            let allowed: [u8; 1] = [0x26];
            proof {
                assert(allowed@ =~= unsubscribe_allowed());
                assert(allowed@ =~= user_properties_repeat());
            }
            decode_properties(src, allowed.as_slice(), allowed.as_slice())?
        };
        let ghost whole = src@;
        let ghost n = s.len() - 2 - whole.len();
        proof {
            assert(whole =~= s.skip((2 + n) as int));
        }
        let mut unsubscribe_from: Vec<Filter> = Vec::new();
        let ghost mut k: int = 0;
        proof {
            assert(filters_view(unsubscribe_from@) =~= Seq::<(Seq<u8>, FilterKind)>::empty());
            assert(src@ =~= whole.skip(0));
        }
        while src.len() > 0
            invariant
                0 <= k <= whole.len(),
                src@ == whole.skip(k),
                s == old(src)@,
                spec_decode_filter_list(whole, Seq::empty()) is Err ==> spec_decode_unsubscribe(s, version)
                    == Err::<(UnsubscribeView, nat), DecodeErrorView>(
                    spec_decode_filter_list(whole, Seq::empty())->Err_0,
                ),
                spec_decode_filter_list(whole, Seq::empty()) == spec_decode_filter_list(
                    src@,
                    filters_view(unsubscribe_from@),
                ),
            decreases src@.len(),
        {
            let ghost before = src@;
            let ghost acc = filters_view(unsubscribe_from@);
            proof {
                lemma_filter_len(before);
            }
            let f = match Filter::decode(src) {
                Ok(Some(f)) => f,
                Ok(None) => {
                    return Err(DecodeError::IncompletePacket);
                },
                Err(e) => {
                    return Err(e);
                },
            };
            unsubscribe_from.push(f);
            proof {
                assert(filters_view(unsubscribe_from@) =~= acc.push(f@));
                k = k + (before.len() - src@.len());
                assert(src@ =~= whole.skip(k));
            }
        }
        proof {
            assert(src@ =~= s.skip(s.len() as int));
        }
        if unsubscribe_from.len() == 0 {
            return Err(DecodeError::NoTopics);
        }
        Ok(
            Unsubscribe {
                packet_identifier,
                unsubscribe_from,
                other_properties: UnsubscribeOtherProperties { user_properties: user_properties_of(&ps) },
            },
        )
    }

    /// Encodes the body of this UNSUBSCRIBE into `dst`.
    pub fn encode<B: BytesAccumulator>(&self, dst: &mut B, version: ProtocolVersion) -> (r: Result<
        (),
        EncodeError,
    >)
        requires
            old(dst).wf(),
            spec_encode_property_list(user_properties_as_props(self@.user_properties)).len() <= usize::MAX,
            spec_encode_unsubscribe(self@, version) matches Ok(bytes) ==> bytes.len() <= old(
                dst,
            ).spare(),
        ensures
            final(dst).wf(),
            match spec_encode_unsubscribe(self@, version) {
                Ok(bytes) => r is Ok && final(dst).contents() == old(dst).contents() + bytes
                    && final(dst).spare() >= old(dst).spare() - bytes.len(),
                Err(e) => r == Err::<(), EncodeError>(e) && final(dst).contents() == old(
                    dst,
                ).contents(),
            },
    {
        let mut ps: Vec<Property> = Vec::new();
        if version.is_v5() {
            push_user_properties(&mut ps, &self.other_properties.user_properties);
            proof {
                assert(props_view(ps@) =~= user_properties_as_props(self@.user_properties));
            }
            check_properties(&ps)?;
        }
        if self.unsubscribe_from.len() == 0 {
            return Err(EncodeError::NoTopics);
        }
        let ghost bytes = spec_encode_unsubscribe(self@, version)->Ok_0;
        let _ = try_put_u16_be(dst, self.packet_identifier.get());
        if version.is_v5() {
            let _ = encode_properties(&ps, dst);
        }
        let ghost start = dst.contents();
        let ghost start_spare = dst.spare();
        let ghost list = filters_view(self.unsubscribe_from@);
        proof {
            let props = if version == ProtocolVersion::V5 {
                spec_encode_properties(props_view(ps@))->Ok_0
            } else {
                Seq::empty()
            };
            assert(start =~= old(dst).contents() + (u16_be_bytes(self@.packet_identifier) + props));
            assert(list.take(0) =~= Seq::<(Seq<u8>, FilterKind)>::empty());
            assert(start + Seq::<u8>::empty() =~= start);
        }
        let mut i: usize = 0;
        while i < self.unsubscribe_from.len()
            invariant
                i <= self.unsubscribe_from@.len(),
                list == filters_view(self.unsubscribe_from@),
                dst.wf(),
                dst.contents() == start + spec_encode_filter_list(list.take(i as int)),
                dst.spare() + spec_encode_filter_list(list.take(i as int)).len() >= start_spare,
                start_spare >= spec_encode_filter_list(list).len(),
                start_spare + bytes.len() >= old(dst).spare() + spec_encode_filter_list(list).len(),
            decreases self.unsubscribe_from@.len() - i,
        {
            proof {
                assert(list.take(i + 1).drop_last() =~= list.take(i as int));
                assert(list.take(i + 1).last() == self.unsubscribe_from@[i as int]@);
                lemma_filter_list_prefix(list, i + 1);
            }
            proof {
                dst.lemma_room();
            }
            let _ = self.unsubscribe_from[i].encode(dst);
            i = i + 1;
        }
        proof {
            assert(list.take(i as int) =~= list);
            assert(dst.contents() =~= old(dst).contents() + bytes);
        }
        Ok(())
    }

    /// Copies this UNSUBSCRIBE into new buffers taken from `owned`.
    pub fn to_shared(&self, owned: &mut Owned) -> (r: Result<Unsubscribe, buffer_pool::Error>)
        requires
            old(owned)@.0.len() == 0,
        ensures
            r matches Ok(p) && p@ == self@,
            final(owned)@.0.len() == 0,
    {
        let mut unsubscribe_from: Vec<Filter> = Vec::new();
        let mut i: usize = 0;
        while i < self.unsubscribe_from.len()
            invariant
                i <= self.unsubscribe_from@.len(),
                owned@.0.len() == 0,
                filters_view(unsubscribe_from@) == filters_view(self.unsubscribe_from@).take(i as int),
            decreases self.unsubscribe_from@.len() - i,
        {
            let ghost prev = unsubscribe_from@;
            let f = self.unsubscribe_from[i].to_shared(owned)?;
            unsubscribe_from.push(f);
            proof {
                assert(filters_view(unsubscribe_from@) =~= filters_view(prev).push(f@));
                assert(filters_view(unsubscribe_from@) =~= filters_view(self.unsubscribe_from@).take(i + 1));
            }
            i = i + 1;
        }
        proof {
            assert(filters_view(self.unsubscribe_from@).take(i as int) =~= filters_view(self.unsubscribe_from@));
        }
        Ok(
            Unsubscribe {
                packet_identifier: self.packet_identifier,
                unsubscribe_from,
                other_properties: self.other_properties.to_shared(owned)?,
            },
        )
    }
}

impl UnsubscribeOtherProperties {
    /// Copies these properties into new buffers taken from `owned`.
    pub fn to_shared(&self, owned: &mut Owned) -> (r: Result<UnsubscribeOtherProperties, buffer_pool::Error>)
        requires
            old(owned)@.0.len() == 0,
        ensures
            r matches Ok(p) && user_properties_view(p.user_properties@) == user_properties_view(
                self.user_properties@,
            ),
            final(owned)@.0.len() == 0,
    {
        let user_properties = user_properties_to_shared(&self.user_properties, owned)?;
        Ok(UnsubscribeOtherProperties { user_properties })
    }
}

} // verus!
