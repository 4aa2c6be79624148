//! The connection lifecycle as a state machine. The caller owns the socket:
//! it hands the broker's acknowledgement in, and writes out the packets
//! that the session hands back.
use vstd::prelude::*;
use vstd::string::StringSliceAdditionalSpecFns;

use crate::error::MqttError;
use crate::protocol::{
    be16, disconnect_packet, lemma_packet_id_follows_topic, publish_fits, publish_packet,
    publish_remaining, Protocol, QoS,
};
use crate::varint::varint;

verus! {

/// Whether four bytes read after CONNECT are a CONNACK that accepts the
/// session: fixed header 0x20, remaining length 2, return code 0.
pub open spec fn connack_accepted(b: Seq<u8>) -> bool {
    b.len() == 4 && b[0] == 0x20 && b[1] == 0x02 && b[3] == 0x00
}

/// The packet identifier after `pid`: one more, wrapping at 65536.
pub open spec fn next_packet_id(pid: u16) -> u16 {
    if pid == 0xffff {
        0
    } else {
        (pid + 1) as u16
    }
}

/// What a session holds: the identifier of its next PUBLISH, the keepalive
/// it connected with, and whether it is still connected.
pub struct SessionView {
    pub packet_id: u16,
    pub keepalive: u8,
    pub connected: bool,
}

/// One connection's protocol state. A session comes into being only from
/// an accepted handshake, and ends with its DISCONNECT packet.
pub struct Session {
    pid: u16,
    keepalive: u8,
    connected: bool,
}

impl View for Session {
    type V = SessionView;

    closed spec fn view(&self) -> SessionView {
        SessionView { packet_id: self.pid, keepalive: self.keepalive, connected: self.connected }
    }
}

impl Session {
    /// Checks the broker's reply to CONNECT. On an accepting CONNACK the
    /// session is connected, with packet identifier 0; on anything else it
    /// fails with `ProtocolError` and no session exists.
    pub fn handshake(keepalive: u8, connack: &[u8]) -> (r: Result<Session, MqttError>)
        ensures
            match r {
                Ok(s) => connack_accepted(connack@) && s@ == (SessionView {
                    packet_id: 0,
                    keepalive,
                    connected: true,
                }),
                Err(e) => !connack_accepted(connack@) && e == MqttError::ProtocolError,
            },
    {
        if connack.len() != 4 || connack[0] != 0x20 || connack[1] != 0x02 || connack[3] != 0x00 {
            return Err(MqttError::ProtocolError);
        }
        Ok(Session { pid: 0, keepalive, connected: true })
    }

    /// The PUBLISH packet to send next, numbered with the current packet
    /// identifier. Fails with `NotConnected` after the session has ended,
    /// and with `EncodingError` when the packet cannot be framed.
    pub fn publish_packet(&self, topic: &str, msg: &str, retain: bool, qos: QoS) -> (r: Result<
        Vec<u8>,
        MqttError,
    >)
        ensures
            match r {
                Ok(p) => self@.connected && publish_fits(
                    topic.spec_bytes().len(),
                    msg.spec_bytes().len(),
                    qos,
                ) && p@ == publish_packet(
                    topic.spec_bytes(),
                    msg.spec_bytes(),
                    retain,
                    qos,
                    self@.packet_id,
                ),
                Err(e) => if !self@.connected {
                    e == MqttError::NotConnected
                } else {
                    !publish_fits(topic.spec_bytes().len(), msg.spec_bytes().len(), qos) && e
                        == MqttError::EncodingError
                },
            },
    {
        if !self.connected {
            return Err(MqttError::NotConnected);
        }
        Protocol::publish_payload(topic, msg, retain, qos, self.pid)
    }

    /// Records that a PUBLISH went out: the packet identifier moves on by
    /// one, wrapping, whatever the QoS was.
    pub fn mark_sent(&mut self)
        ensures
            final(self)@ == (SessionView {
                packet_id: next_packet_id(old(self)@.packet_id),
                ..old(self)@
            }),
    {
        self.pid = self.pid.wrapping_add(1);
    }

    /// Ends the session. The first call gives the DISCONNECT packet to
    /// send; later calls give nothing and change nothing.
    pub fn disconnect(&mut self) -> (r: Option<Vec<u8>>)
        ensures
            match r {
                Some(p) => old(self)@.connected && p@ == disconnect_packet(),
                None => !old(self)@.connected,
            },
            final(self)@ == (SessionView { connected: false, ..old(self)@ }),
    {
        if !self.connected {
            return None;
        }
        self.connected = false;
        Some(Protocol::disconnect_payload())
    }

    /// The identifier the next PUBLISH will carry.
    pub fn packet_id(&self) -> (r: u16)
        ensures
            r == self@.packet_id,
    {
        self.pid
    }

    /// The keepalive, in seconds, that the session connected with.
    pub fn keepalive(&self) -> (r: u8)
        ensures
            r == self@.keepalive,
    {
        self.keepalive
    }

    /// Whether the session has not ended yet.
    pub fn is_connected(&self) -> (r: bool)
        ensures
            r == self@.connected,
    {
        self.connected
    }
}

/// Where the packet identifier of a PUBLISH above QoS 0 begins: after the
/// header byte, the remaining-length field, and the length-prefixed topic.
pub open spec fn id_offset(topic: Seq<u8>, msg: Seq<u8>) -> int {
    (1 + varint(publish_remaining(topic.len(), msg.len(), QoS::AtLeastOnce)).len() + 2
        + topic.len()) as int
}

/// Two publishes in a row on a fresh session at QoS 1 carry packet
/// identifiers 0 and then 1, right after their topics.
pub proof fn lemma_sequential_packet_ids(
    fresh: SessionView,
    topic1: Seq<u8>,
    msg1: Seq<u8>,
    topic2: Seq<u8>,
    msg2: Seq<u8>,
    retain: bool,
)
    requires
        fresh.packet_id == 0,
        publish_fits(topic1.len(), msg1.len(), QoS::AtLeastOnce),
        publish_fits(topic2.len(), msg2.len(), QoS::AtLeastOnce),
    ensures
        ({
            let second = next_packet_id(fresh.packet_id);
            let p1 = publish_packet(topic1, msg1, retain, QoS::AtLeastOnce, fresh.packet_id);
            let p2 = publish_packet(topic2, msg2, retain, QoS::AtLeastOnce, second);
            let s1 = id_offset(topic1, msg1);
            let s2 = id_offset(topic2, msg2);
            &&& second == 1
            &&& p1.subrange(s1, s1 + 2) == seq![0u8, 0u8]
            &&& p2.subrange(s2, s2 + 2) == seq![0u8, 1u8]
        }),
{
    lemma_packet_id_follows_topic(topic1, msg1, retain, QoS::AtLeastOnce, 0);
    lemma_packet_id_follows_topic(topic2, msg2, retain, QoS::AtLeastOnce, 1);
    assert(be16(0) =~= seq![0u8, 0u8]);
    assert(be16(1) =~= seq![0u8, 1u8]);
}

} // verus!
