//! RTMP handshake state machine.
//!
//! Three phases, in the simple (non-digest) variant: the client sends
//! C0 (one version byte) and C1 (1536 bytes: timestamp, four zero bytes,
//! filler); the server answers S0+S1+S2 where S2 echoes C1 with its own
//! receive time in bytes 4..8; the client answers C2 echoing S1 the same
//! way. Version 3 is nominal; anything at least 3 is accepted, anything
//! below rejected. Echoes are not verified, matching encoders in the
//! wild.

use vstd::prelude::*;

use bytes::Bytes;

use crate::bytebuf::{bytes_advance, bytes_len, bytes_to_vec, bytes_view, vec_to_bytes};
use crate::clock::now_millis;
use crate::error::HandshakeError;

verus! {

/// Handshake role.
#[derive(Debug, Clone, Copy, PartialEq, Eq, Structural)]
pub enum HandshakeRole {
    Client,
    Server,
}

/// Handshake progress.
#[derive(Debug, Clone, Copy, PartialEq, Eq, Structural)]
pub enum HandshakeState {
    /// Nothing sent or received yet
    Initial,
    /// Waiting for the peer's C0C1 (server) or S0S1S2 (client)
    WaitingForPeerPacket,
    /// A response is owed to the peer
    NeedToSendResponse,
    /// Waiting for the peer's C2 (server)
    WaitingForPeerResponse,
    /// Handshake complete
    Done,
}

/// What `process` does, as a function of role, state, how many bytes the
/// peer has sent, and the version byte at their front: the next state,
/// the length of the emitted response if any, and whether the version
/// was rejected.
pub open spec fn spec_hs_process(
    role: HandshakeRole,
    state: HandshakeState,
    avail: int,
    version: u8,
) -> (HandshakeState, Option<int>, bool) {
    match state {
        HandshakeState::WaitingForPeerPacket => {
            match role {
                HandshakeRole::Server => {
                    if avail < 1537 {
                        (state, None, false)
                    } else if version < 3 {
                        (state, None, true)
                    } else {
                        (HandshakeState::WaitingForPeerResponse, Some(3073int), false)
                    }
                },
                HandshakeRole::Client => {
                    if avail < 3073 {
                        (state, None, false)
                    } else if version < 3 {
                        (state, None, true)
                    } else {
                        (HandshakeState::Done, Some(1536int), false)
                    }
                },
            }
        },
        HandshakeState::WaitingForPeerResponse => {
            match role {
                HandshakeRole::Server => {
                    if avail < 1536 {
                        (state, None, false)
                    } else {
                        (HandshakeState::Done, None, false)
                    }
                },
                HandshakeRole::Client => (HandshakeState::Done, None, false),
            }
        },
        _ => (state, None, false),
    }
}

/// How many bytes `process` consumes from the peer's buffer: a whole
/// C0C1 (server) or S0S1S2 (client) when enough bytes with an accepted
/// version are waiting, a whole C2 for a server awaiting its response,
/// and nothing otherwise.
pub open spec fn spec_hs_consumed(
    role: HandshakeRole,
    state: HandshakeState,
    avail: int,
    version: u8,
) -> int {
    match state {
        HandshakeState::WaitingForPeerPacket => {
            match role {
                HandshakeRole::Server => if avail >= 1537 && version >= 3 {
                    1537
                } else {
                    0
                },
                HandshakeRole::Client => if avail >= 3073 && version >= 3 {
                    3073
                } else {
                    0
                },
            }
        },
        HandshakeState::WaitingForPeerResponse => {
            match role {
                HandshakeRole::Server => if avail >= 1536 {
                    1536
                } else {
                    0
                },
                HandshakeRole::Client => 0,
            }
        },
        _ => 0,
    }
}

/// Generate a C1/S1 packet: a 4-byte timestamp, four zero bytes, then
/// 1528 bytes of filler derived from the timestamp by a multiplicative
/// congruential step (the handshake needs no cryptographic randomness).
pub fn generate_packet() -> (r: Vec<u8>)
    ensures
        r@.len() == 1536,
        r@[4] == 0u8 && r@[5] == 0u8 && r@[6] == 0u8 && r@[7] == 0u8,
{
    let timestamp = now_millis() as u32;
    let mut packet: Vec<u8> = Vec::new();
    packet.push((timestamp >> 24) as u8);
    packet.push(((timestamp >> 16) & 0xFF) as u8);
    packet.push(((timestamp >> 8) & 0xFF) as u8);
    packet.push((timestamp & 0xFF) as u8);
    packet.push(0);
    packet.push(0);
    packet.push(0);
    packet.push(0);

    let mut seed: u64 = timestamp as u64;
    let mut i: usize = 8;
    while i < 1536
        invariant
            8 <= i <= 1536,
            packet@.len() == i,
            packet@[4] == 0u8 && packet@[5] == 0u8 && packet@[6] == 0u8 && packet@[7] == 0u8,
        decreases 1536 - i,
    {
        seed = seed.wrapping_mul(6364136223846793005).wrapping_add(1);
        let b = (seed >> 32) as u8;
        packet.push(b);
        i = i + 1;
    }
    packet
}

/// Generate a C2/S2 echo: the peer's packet with bytes 4..8 replaced by
/// the local receive time.
pub fn generate_echo(peer_packet: &Vec<u8>) -> (r: Vec<u8>)
    requires
        peer_packet@.len() == 1536,
    ensures
        r@.len() == 1536,
        r@.subrange(0, 4) == peer_packet@.subrange(0, 4),
        r@.subrange(8, 1536) == peer_packet@.subrange(8, 1536),
{
    let timestamp = now_millis() as u32;
    let mut echo: Vec<u8> = Vec::new();
    let mut i: usize = 0;
    while i < 4
        invariant
            i <= 4,
            peer_packet@.len() == 1536,
            echo@.len() == i,
            forall|k: int| 0 <= k < i ==> echo@[k] == peer_packet@[k],
        decreases 4 - i,
    {
        echo.push(peer_packet[i]);
        i = i + 1;
    }
    echo.push((timestamp >> 24) as u8);
    echo.push(((timestamp >> 16) & 0xFF) as u8);
    echo.push(((timestamp >> 8) & 0xFF) as u8);
    echo.push((timestamp & 0xFF) as u8);
    let mut i: usize = 8;
    while i < 1536
        invariant
            8 <= i <= 1536,
            peer_packet@.len() == 1536,
            echo@.len() == i,
            forall|k: int| 0 <= k < 4 ==> echo@[k] == peer_packet@[k],
            forall|k: int| 8 <= k < i ==> echo@[k] == peer_packet@[k],
        decreases 1536 - i,
    {
        echo.push(peer_packet[i]);
        i = i + 1;
    }
    proof {
        assert(echo@.subrange(0, 4) =~= peer_packet@.subrange(0, 4));
        assert(echo@.subrange(8, 1536) =~= peer_packet@.subrange(8, 1536));
    }
    echo
}

/// Handshake state machine.
#[derive(Debug)]
pub struct Handshake {
    role: HandshakeRole,
    state: HandshakeState,
    /// Our C1/S1 packet
    our_packet: Option<Vec<u8>>,
    /// The peer's C1/S1 packet, kept for the echo
    peer_packet: Option<Vec<u8>>,
}

impl Handshake {
    /// The machine's role.
    pub closed spec fn spec_role(&self) -> HandshakeRole {
        self.role
    }

    /// The machine's current state.
    pub closed spec fn spec_state(&self) -> HandshakeState {
        self.state
    }

    /// A fresh handshake machine.
    pub fn new(role: HandshakeRole) -> (r: Self)
        ensures
            r.spec_role() == role,
            r.spec_state() == HandshakeState::Initial,
    {
        Handshake { role, state: HandshakeState::Initial, our_packet: None, peer_packet: None }
    }

    /// Whether the handshake is complete.
    pub fn is_done(&self) -> (r: bool)
        ensures
            r == (self.spec_state() == HandshakeState::Done),
    {
        self.state == HandshakeState::Done
    }

    /// How many bytes must arrive before the next transition.
    pub fn bytes_needed(&self) -> (r: usize)
        ensures
            self.spec_state() == HandshakeState::Initial ==> r == 0,
            self.spec_state() == HandshakeState::WaitingForPeerPacket ==> r == 1537,
            self.spec_state() == HandshakeState::NeedToSendResponse ==> r == 0,
            self.spec_state() == HandshakeState::WaitingForPeerResponse ==> r == 1536,
            self.spec_state() == HandshakeState::Done ==> r == 0,
    {
        match self.state {
            HandshakeState::Initial => 0,
            HandshakeState::WaitingForPeerPacket => 1537,
            HandshakeState::NeedToSendResponse => 0,
            HandshakeState::WaitingForPeerResponse => match self.role {
                HandshakeRole::Client => 1536,
                HandshakeRole::Server => 1536,
            },
            HandshakeState::Done => 0,
        }
    }

    /// Emit the opening bytes. A client sends C0+C1 (1537 bytes, version
    /// first) and waits for the peer; a server sends nothing and waits
    /// for C0+C1. In any other state nothing happens.
    pub fn generate_initial(&mut self) -> (r: Option<Bytes>)
        ensures
            final(self).spec_role() == old(self).spec_role(),
            old(self).spec_state() != HandshakeState::Initial ==> r is None && final(self).spec_state() == old(self).spec_state(),
            old(self).spec_state() == HandshakeState::Initial ==> final(self).spec_state()
                == HandshakeState::WaitingForPeerPacket && (match old(self).spec_role() {
                HandshakeRole::Client => r matches Some(out) && bytes_view(out).len() == 1537
                    && bytes_view(out)[0] == 3u8,
                HandshakeRole::Server => r is None,
            }),
    {
        if self.state != HandshakeState::Initial {
            return None;
        }
        match self.role {
            HandshakeRole::Client => {
                let mut buf: Vec<u8> = Vec::new();
                buf.push(crate::RTMP_VERSION);
                let c1 = generate_packet();
                let ghost c1v = c1@;
                extend_vec(&mut buf, &c1);
                self.our_packet = Some(c1);
                self.state = HandshakeState::WaitingForPeerPacket;
                Some(vec_to_bytes(buf))
            },
            HandshakeRole::Server => {
                self.state = HandshakeState::WaitingForPeerPacket;
                None
            },
        }
    }

    /// Feed received bytes; returns the response to send, if one is due.
    ///
    /// The transition taken is exactly `spec_hs_process` of the role, the
    /// prior state, the bytes available, and the version byte; a server's
    /// response is S0+S1+S2 (3073 bytes, version 3 first, S2 echoing the
    /// peer's timestamp and filler), a client's is the 1536-byte C2 echo.
    pub fn process(&mut self, data: &mut Bytes) -> (r: Result<Option<Bytes>, HandshakeError>)
        ensures
            final(self).spec_role() == old(self).spec_role(),
            ({
                let avail = bytes_view(*old(data)).len() as int;
                let version: u8 = if avail > 0 {
                    bytes_view(*old(data))[0]
                } else {
                    0u8
                };
                let (st2, out_len, rejected) = spec_hs_process(
                    old(self).spec_role(),
                    old(self).spec_state(),
                    avail,
                    version,
                );
                &&& final(self).spec_state() == (if rejected {
                    old(self).spec_state()
                } else {
                    st2
                })
                &&& bytes_view(*final(data)) == bytes_view(*old(data)).skip(
                    spec_hs_consumed(
                        old(self).spec_role(),
                        old(self).spec_state(),
                        avail,
                        version,
                    ),
                )
                &&& (match r {
                    Ok(out) => !rejected && (match (out, out_len) {
                        (Some(b), Some(l)) => bytes_view(b).len() == l && (l == 3073 ==> ({
                            // S0S1S2: the version byte, and S2 echoing the
                            // peer's C1 timestamp and filler
                            let inp = bytes_view(*old(data));
                            &&& bytes_view(b)[0] == 3u8
                            &&& bytes_view(b).subrange(1537, 1541) == inp.subrange(1, 5)
                            &&& bytes_view(b).subrange(1545, 3073) == inp.subrange(9, 1537)
                        })) && (l == 1536 ==> ({
                            // C2 echoing S1's timestamp and filler
                            let inp = bytes_view(*old(data));
                            &&& bytes_view(b).subrange(0, 4) == inp.subrange(1, 5)
                            &&& bytes_view(b).subrange(8, 1536) == inp.subrange(9, 1537)
                        })),
                        (None, None) => true,
                        _ => false,
                    }),
                    Err(e) => rejected && e == HandshakeError::InvalidVersion(version),
                })
            }),
    {
        match self.state {
            HandshakeState::WaitingForPeerPacket => self.process_peer_packet(data),
            HandshakeState::WaitingForPeerResponse => self.process_peer_response(data),
            _ => Ok(None),
        }
    }

    fn process_peer_packet(&mut self, data: &mut Bytes) -> (r: Result<
        Option<Bytes>,
        HandshakeError,
    >)
        requires
            old(self).spec_state() == HandshakeState::WaitingForPeerPacket,
        ensures
            final(self).spec_role() == old(self).spec_role(),
            ({
                let avail = bytes_view(*old(data)).len() as int;
                let version: u8 = if avail > 0 {
                    bytes_view(*old(data))[0]
                } else {
                    0u8
                };
                let (st2, out_len, rejected) = spec_hs_process(
                    old(self).spec_role(),
                    old(self).spec_state(),
                    avail,
                    version,
                );
                &&& final(self).spec_state() == (if rejected {
                    old(self).spec_state()
                } else {
                    st2
                })
                &&& bytes_view(*final(data)) == bytes_view(*old(data)).skip(
                    spec_hs_consumed(
                        old(self).spec_role(),
                        old(self).spec_state(),
                        avail,
                        version,
                    ),
                )
                &&& (match r {
                    Ok(out) => !rejected && (match (out, out_len) {
                        (Some(b), Some(l)) => bytes_view(b).len() == l && (l == 3073 ==> ({
                            // S0S1S2: the version byte, and S2 echoing the
                            // peer's C1 timestamp and filler
                            let inp = bytes_view(*old(data));
                            &&& bytes_view(b)[0] == 3u8
                            &&& bytes_view(b).subrange(1537, 1541) == inp.subrange(1, 5)
                            &&& bytes_view(b).subrange(1545, 3073) == inp.subrange(9, 1537)
                        })) && (l == 1536 ==> ({
                            // C2 echoing S1's timestamp and filler
                            let inp = bytes_view(*old(data));
                            &&& bytes_view(b).subrange(0, 4) == inp.subrange(1, 5)
                            &&& bytes_view(b).subrange(8, 1536) == inp.subrange(9, 1537)
                        })),
                        (None, None) => true,
                        _ => false,
                    }),
                    Err(e) => rejected && e == HandshakeError::InvalidVersion(version),
                })
            }),
    {
        match self.role {
            HandshakeRole::Server => {
                if bytes_len(data) < 1537 {
                    return Ok(None);
                }
                let all = bytes_to_vec(data);
                let version = all[0];
                if version != crate::RTMP_VERSION && version < 3 {
                    return Err(HandshakeError::InvalidVersion(version));
                }
                let c1 = copy_vec_range(&all, 1, 1537);
                bytes_advance(data, 1537);

                let mut response: Vec<u8> = Vec::new();
                response.push(crate::RTMP_VERSION);
                let s1 = generate_packet();
                extend_vec(&mut response, &s1);
                self.our_packet = Some(s1);
                let s2 = generate_echo(&c1);
                extend_vec(&mut response, &s2);
                proof {
                    assert(response@.subrange(1537, 1541) =~= s2@.subrange(0, 4));
                    assert(response@.subrange(1545, 3073) =~= s2@.subrange(8, 1536));
                    assert(c1@.subrange(0, 4) =~= all@.subrange(1, 5));
                    assert(c1@.subrange(8, 1536) =~= all@.subrange(9, 1537));
                }
                self.peer_packet = Some(c1);

                self.state = HandshakeState::WaitingForPeerResponse;
                Ok(Some(vec_to_bytes(response)))
            },
            HandshakeRole::Client => {
                if bytes_len(data) < 3073 {
                    return Ok(None);
                }
                let all = bytes_to_vec(data);
                let version = all[0];
                if version != crate::RTMP_VERSION && version < 3 {
                    return Err(HandshakeError::InvalidVersion(version));
                }
                let s1 = copy_vec_range(&all, 1, 1537);
                bytes_advance(data, 3073);

                let c2 = generate_echo(&s1);
                self.peer_packet = Some(s1);
                self.state = HandshakeState::Done;
                Ok(Some(vec_to_bytes(c2)))
            },
        }
    }

    fn process_peer_response(&mut self, data: &mut Bytes) -> (r: Result<
        Option<Bytes>,
        HandshakeError,
    >)
        requires
            old(self).spec_state() == HandshakeState::WaitingForPeerResponse,
        ensures
            final(self).spec_role() == old(self).spec_role(),
            ({
                let avail = bytes_view(*old(data)).len() as int;
                let version: u8 = if avail > 0 {
                    bytes_view(*old(data))[0]
                } else {
                    0u8
                };
                let (st2, out_len, rejected) = spec_hs_process(
                    old(self).spec_role(),
                    old(self).spec_state(),
                    avail,
                    version,
                );
                &&& final(self).spec_state() == st2
                &&& bytes_view(*final(data)) == bytes_view(*old(data)).skip(
                    spec_hs_consumed(
                        old(self).spec_role(),
                        old(self).spec_state(),
                        avail,
                        version,
                    ),
                )
                &&& r matches Ok(out) && out is None
                &&& !rejected
            }),
    {
        match self.role {
            HandshakeRole::Server => {
                if bytes_len(data) < 1536 {
                    return Ok(None);
                }
                bytes_advance(data, 1536);
                self.state = HandshakeState::Done;
                Ok(None)
            },
            HandshakeRole::Client => {
                self.state = HandshakeState::Done;
                Ok(None)
            },
        }
    }
}

fn extend_vec(out: &mut Vec<u8>, src: &Vec<u8>)
    ensures
        final(out)@ == old(out)@ + src@,
{
    let mut k: usize = 0;
    while k < src.len()
        invariant
            k <= src@.len(),
            out@ =~= old(out)@ + src@.subrange(0, k as int),
        decreases src@.len() - k,
    {
        out.push(src[k]);
        proof {
            assert(src@.subrange(0, k + 1) =~= src@.subrange(0, k as int).push(src@[k as int]));
        }
        k = k + 1;
    }
    proof {
        assert(src@.subrange(0, src@.len() as int) =~= src@);
    }
}

fn copy_vec_range(src: &Vec<u8>, a: usize, b: usize) -> (r: Vec<u8>)
    requires
        a <= b <= src@.len(),
    ensures
        r@ == src@.subrange(a as int, b as int),
{
    let mut r: Vec<u8> = Vec::new();
    let mut k: usize = a;
    while k < b
        invariant
            a <= k <= b <= src@.len(),
            r@ =~= src@.subrange(a as int, k as int),
        decreases b - k,
    {
        r.push(src[k]);
        proof {
            assert(src@.subrange(a as int, k + 1) =~= src@.subrange(a as int, k as int).push(
                src@[k as int],
            ));
        }
        k = k + 1;
    }
    r
}

/// Two fresh machines wired mouth-to-ear complete in three
/// half-round-trips: the client's C0C1 moves the server to emit S0S1S2,
/// which completes the client and yields C2, which completes the server.
/// The version byte each side emits is 3, so no step rejects.
pub proof fn lemma_handshake_completes()
    ensures
        ({
            let (s_st1, s_out1, s_rej1) = spec_hs_process(
                HandshakeRole::Server,
                HandshakeState::WaitingForPeerPacket,
                1537,
                3,
            );
            let (c_st1, c_out1, c_rej1) = spec_hs_process(
                HandshakeRole::Client,
                HandshakeState::WaitingForPeerPacket,
                3073,
                3,
            );
            let (s_st2, s_out2, s_rej2) = spec_hs_process(HandshakeRole::Server, s_st1, 1536, 3);
            &&& s_st1 == HandshakeState::WaitingForPeerResponse
            &&& s_out1 == Some(3073int)
            &&& !s_rej1
            &&& c_st1 == HandshakeState::Done
            &&& c_out1 == Some(1536int)
            &&& !c_rej1
            &&& s_st2 == HandshakeState::Done
            &&& s_out2 is None
            &&& !s_rej2
        }),
{
}

} // verus!
