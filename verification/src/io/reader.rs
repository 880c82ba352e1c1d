//! Splitting a stream of bytes into MQTT packets.
use vstd::prelude::*;

use crate::buffer_pool::{Owned, Shared};
use crate::mqtt_proto::{decode_fixed_header, spec_decode_fixed_header, DecodeError, DecodeErrorView};

verus! {

/// The bytes read from a network stream that do not yet make a whole packet.
pub struct Reader {
    buf: Owned,
}

/// A packet as read: its first byte and the rest, the remaining length's worth of bytes.
#[derive(Debug)]
pub struct RawPacket {
    pub first_byte: u8,
    pub rest: Shared,
}

/// What a reader can do with the bytes it holds.
#[derive(Debug)]
pub enum ReadStep {
    /// A whole packet was buffered, and is taken out.
    Packet(RawPacket),
    /// More bytes must be read first; at least this many will be needed.
    NeedMore(usize),
}

/// What `poll_packet` does with the buffered bytes `s`: the packet and the bytes that remain,
/// or the number of bytes still missing (5, the largest fixed header, while the fixed header
/// is itself incomplete).
pub open spec fn spec_poll_packet(s: Seq<u8>) -> Result<Result<(u8, Seq<u8>, Seq<u8>), nat>, DecodeErrorView> {
    match spec_decode_fixed_header(s) {
        Err(e) => Err(e),
        Ok(None) => Ok(Err(5)),
        Ok(Some((first_byte, remaining_length, n))) => if s.len() >= n + remaining_length {
            Ok(
                Ok(
                    (
                        first_byte,
                        s.subrange(n as int, (n + remaining_length) as int),
                        s.skip((n + remaining_length) as int),
                    ),
                ),
            )
        } else {
            Ok(Err((n + remaining_length - s.len()) as nat))
        },
    }
}

impl Reader {
    /// The bytes buffered.
    pub closed spec fn buffered(&self) -> Seq<u8> {
        self.buf@.0
    }

    /// A reader that buffers into `buf`, starting from what it already holds.
    pub fn new(buf: Owned) -> (r: Self)
        ensures
            r.buffered() == buf@.0,
    {
        Reader { buf }
    }

    /// The bytes buffered.
    pub fn filled(&self) -> (r: &[u8])
        ensures
            r@ == self.buffered(),
    {
        self.buf.filled()
    }

    /// Appends bytes read from the stream.
    pub fn fill(&mut self, bytes: &[u8])
        ensures
            final(self).buffered() == old(self).buffered() + bytes@,
    {
        let _ = self.buf.reserve(bytes.len());
        self.buf.put_slice(bytes);
    }

    /// Takes the first packet out of the buffered bytes if all of it has been read; otherwise
    /// says how many more bytes are needed at least. A fixed header that is malformed is an
    /// error.
    pub fn poll_packet(&mut self) -> (r: Result<ReadStep, DecodeError>)
        ensures
            match (r, spec_poll_packet(old(self).buffered())) {
                (Ok(ReadStep::Packet(p)), Ok(Ok((first_byte, rest, remaining)))) => p.first_byte
                    == first_byte && p.rest@ == rest && final(self).buffered() == remaining,
                (Ok(ReadStep::NeedMore(k)), Ok(Err(sk))) => k == sk && final(self).buffered()
                    == old(self).buffered(),
                (Err(e), Err(se)) => e@ == se && final(self).buffered() == old(self).buffered(),
                _ => false,
            },
    {
        let filled_len = self.buf.filled_len();
        match decode_fixed_header(self.buf.filled()) {
            Err(e) => Err(e),
            Ok(None) => Ok(ReadStep::NeedMore(5)),
            Ok(Some((first_byte, remaining_length, n))) => {
                if remaining_length <= filled_len && n <= filled_len - remaining_length {
                    self.buf.drain(n);
                    let rest = self.buf.split_to(remaining_length).freeze();
                    proof {
                        assert(rest@ =~= old(self).buffered().subrange(
                            n as int,
                            (n + remaining_length) as int,
                        ));
                        assert(self.buffered() =~= old(self).buffered().skip(
                            (n + remaining_length) as int,
                        ));
                    }
                    Ok(ReadStep::Packet(RawPacket { first_byte, rest }))
                } else {
                    let missing: usize = if remaining_length > filled_len {
                        (remaining_length - filled_len) + n
                    } else {
                        n - (filled_len - remaining_length)
                    };
                    Ok(ReadStep::NeedMore(missing))
                }
            },
        }
    }
}

} // verus!
