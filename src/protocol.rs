//! Byte-exact construction of the CONNECT, PUBLISH and DISCONNECT packets.
use vstd::prelude::*;
use vstd::string::StringSliceAdditionalSpecFns;

use crate::error::MqttError;
use crate::varint::{
    decode_result, lemma_decode_varint, lemma_varint_len, varint, VariableLengthEncoder,
    MAX_REMAINING_LENGTH,
};

verus! {

/// Requested delivery guarantee of a published message.
#[derive(Debug, PartialEq, Eq, Structural, PartialOrd, Copy, Clone)]
pub enum QoS {
    AtMostOnce,
    AtLeastOnce,
    ExactlyOnce,
}

/// The two-bit level that the PUBLISH header carries.
pub open spec fn qos_code(q: QoS) -> u8 {
    match q {
        QoS::AtMostOnce => 0,
        QoS::AtLeastOnce => 1,
        QoS::ExactlyOnce => 2,
    }
}

impl QoS {
    /// The numeric level: 0, 1 or 2.
    pub fn code(&self) -> (r: u8)
        ensures
            r == qos_code(*self),
    {
        match self {
            QoS::AtMostOnce => 0,
            QoS::AtLeastOnce => 1,
            QoS::ExactlyOnce => 2,
        }
    }

    /// Whether a packet identifier travels with the message.
    pub fn has_packet_id(&self) -> (r: bool)
        ensures
            r == (*self != QoS::AtMostOnce),
    {
        match self {
            QoS::AtMostOnce => false,
            _ => true,
        }
    }
}

/// A 16-bit value, high byte first.
pub open spec fn be16(n: nat) -> Seq<u8> {
    seq![(n / 256) as u8, (n % 256) as u8]
}

/// The variable header of CONNECT: the length-prefixed protocol name
/// "MQTT", protocol level 4, connect flags with only the clean-session bit
/// set, and the keepalive, high byte first.
pub open spec fn connect_variable_header(keepalive: u8) -> Seq<u8> {
    seq![0x00u8, 0x04, 0x4d, 0x51, 0x54, 0x54, 0x04, 0x02, 0x00, keepalive]
}

/// The CONNECT packet for a client identifier with UTF-8 bytes `id`.
pub open spec fn connect_packet(id: Seq<u8>, keepalive: u8) -> Seq<u8> {
    seq![0x10u8] + varint(12 + id.len()) + connect_variable_header(keepalive) + be16(id.len())
        + id
}

/// First byte of a PUBLISH packet: type 3, the QoS level and the retain flag.
pub open spec fn publish_header(qos: QoS, retain: bool) -> u8 {
    (0x30 + 2 * qos_code(qos) + if retain {
        1int
    } else {
        0int
    }) as u8
}

/// Size of what follows the remaining-length field of a PUBLISH packet.
pub open spec fn publish_remaining(topic_len: nat, msg_len: nat, qos: QoS) -> nat {
    2 + topic_len + (if qos == QoS::AtMostOnce {
        0nat
    } else {
        2nat
    }) + msg_len
}

/// Whether a topic and a message of these sizes can be framed at all.
pub open spec fn publish_fits(topic_len: nat, msg_len: nat, qos: QoS) -> bool {
    topic_len <= 65535 && publish_remaining(topic_len, msg_len, qos) <= MAX_REMAINING_LENGTH
}

/// The PUBLISH packet; the packet identifier is present above QoS 0 only.
pub open spec fn publish_packet(topic: Seq<u8>, msg: Seq<u8>, retain: bool, qos: QoS, pid: u16) -> Seq<u8> {
    seq![publish_header(qos, retain)] + varint(publish_remaining(topic.len(), msg.len(), qos))
        + be16(topic.len()) + topic + (if qos == QoS::AtMostOnce {
        Seq::<u8>::empty()
    } else {
        be16(pid as nat)
    }) + msg
}

/// The DISCONNECT packet.
pub open spec fn disconnect_packet() -> Seq<u8> {
    seq![0xe0u8, 0x00]
}

/// Above QoS 0 the remaining length that a PUBLISH packet carries is the
/// one the same topic and message carry at QoS 0, plus two; and the two
/// bytes of the packet identifier stand right after the topic.
pub proof fn lemma_packet_id_follows_topic(
    topic: Seq<u8>,
    msg: Seq<u8>,
    retain: bool,
    qos: QoS,
    pid: u16,
)
    requires
        qos != QoS::AtMostOnce,
        publish_fits(topic.len(), msg.len(), qos),
    ensures
        ({
            let p = publish_packet(topic, msg, retain, qos, pid);
            let p0 = publish_packet(topic, msg, retain, QoS::AtMostOnce, pid);
            let n = publish_remaining(topic.len(), msg.len(), qos);
            let n0 = publish_remaining(topic.len(), msg.len(), QoS::AtMostOnce);
            let start = (1 + varint(n).len() + 2 + topic.len()) as int;
            &&& n == n0 + 2
            &&& decode_result(p.drop_first()) == Ok::<(u32, usize), MqttError>(
                (n as u32, varint(n).len() as usize),
            )
            &&& decode_result(p0.drop_first()) == Ok::<(u32, usize), MqttError>(
                (n0 as u32, varint(n0).len() as usize),
            )
            &&& p.subrange(start, start + 2) == be16(pid as nat)
        }),
{
    let p = publish_packet(topic, msg, retain, qos, pid);
    let p0 = publish_packet(topic, msg, retain, QoS::AtMostOnce, pid);
    let n = publish_remaining(topic.len(), msg.len(), qos);
    let n0 = publish_remaining(topic.len(), msg.len(), QoS::AtMostOnce);
    let rest = be16(topic.len()) + topic + be16(pid as nat) + msg;
    let rest0 = be16(topic.len()) + topic + msg;
    lemma_varint_len(n);
    lemma_varint_len(n0);
    assert(p.drop_first() =~= varint(n) + rest);
    assert(p0.drop_first() =~= varint(n0) + rest0);
    lemma_decode_varint(n, rest, 4);
    lemma_decode_varint(n0, rest0, 4);
    let start = (1 + varint(n).len() + 2 + topic.len()) as int;
    assert(p.subrange(start, start + 2) =~= be16(pid as nat));
}

/// Equal inputs give byte-identical packets: the encoders read nothing
/// but their arguments.
pub proof fn lemma_encoding_deterministic(
    topic1: &str,
    topic2: &str,
    msg1: &str,
    msg2: &str,
    retain: bool,
    qos: QoS,
    pid: u16,
    keepalive: u8,
)
    requires
        topic1@ == topic2@,
        msg1@ == msg2@,
    ensures
        publish_packet(topic1.spec_bytes(), msg1.spec_bytes(), retain, qos, pid) == publish_packet(
            topic2.spec_bytes(),
            msg2.spec_bytes(),
            retain,
            qos,
            pid,
        ),
        connect_packet(topic1.spec_bytes(), keepalive) == connect_packet(
            topic2.spec_bytes(),
            keepalive,
        ),
{
}

fn push_all(out: &mut Vec<u8>, b: &[u8])
    ensures
        final(out)@ == old(out)@ + b@,
{
    let mut i: usize = 0;
    while i < b.len()
        invariant
            i <= b@.len(),
            out@ == old(out)@ + b@.subrange(0, i as int),
        decreases b@.len() - i,
    {
        out.push(b[i]);
        i = i + 1;
        assert(out@ =~= old(out)@ + b@.subrange(0, i as int));
    }
    assert(b@.subrange(0, b@.len() as int) =~= b@);
}

/// Encoders of the packets this client sends.
pub struct Protocol;

impl Protocol {
    /// The CONNECT packet for `client_id`, asking for a clean session.
    /// Fails with `EncodingError` when the identifier's UTF-8 bytes do not
    /// fit a 16-bit length.
    pub fn connect_payload(client_id: &str, keepalive: u8) -> (r: Result<Vec<u8>, MqttError>)
        ensures
            match r {
                Ok(p) => client_id.spec_bytes().len() <= 65535 && p@ == connect_packet(
                    client_id.spec_bytes(),
                    keepalive,
                ),
                Err(e) => client_id.spec_bytes().len() > 65535 && e == MqttError::EncodingError,
            },
    {
        let id: &[u8] = client_id.as_bytes();
        if id.len() > 65535 {
            return Err(MqttError::EncodingError);
        }
        let size: u32 = 12 + id.len() as u32;
        let mut pkt: Vec<u8> = vec![0x10];
        let len_field = VariableLengthEncoder::encode(size);
        push_all(&mut pkt, len_field.as_slice());
        let header: Vec<u8> = vec![0x00, 0x04, 0x4d, 0x51, 0x54, 0x54, 0x04, 0x02, 0x00, keepalive];
        push_all(&mut pkt, header.as_slice());
        let id_len = Self::to_big_endian(id.len() as u16);
        push_all(&mut pkt, id_len.as_slice());
        push_all(&mut pkt, id);
        assert(header@ =~= connect_variable_header(keepalive));
        assert(pkt@ =~= connect_packet(id@, keepalive));
        Ok(pkt)
    }

    /// The PUBLISH packet of `msg` on `topic`. Fails with `EncodingError`
    /// when the topic's bytes do not fit a 16-bit length or the packet's
    /// remaining length would pass the four-byte field's maximum.
    pub fn publish_payload(topic: &str, msg: &str, retain: bool, qos: QoS, pid: u16) -> (r: Result<Vec<u8>, MqttError>)
        ensures
            match r {
                Ok(p) => publish_fits(topic.spec_bytes().len(), msg.spec_bytes().len(), qos)
                    && p@ == publish_packet(topic.spec_bytes(), msg.spec_bytes(), retain, qos, pid),
                Err(e) => !publish_fits(topic.spec_bytes().len(), msg.spec_bytes().len(), qos)
                    && e == MqttError::EncodingError,
            },
    {
        let t: &[u8] = topic.as_bytes();
        let m: &[u8] = msg.as_bytes();
        if t.len() > 65535 || m.len() > MAX_REMAINING_LENGTH as usize {
            return Err(MqttError::EncodingError);
        }
        let with_id = qos.has_packet_id();
        let extra: u32 = if with_id {
            2
        } else {
            0
        };
        let size: u32 = 2 + t.len() as u32 + extra + m.len() as u32;
        if size > MAX_REMAINING_LENGTH {
            return Err(MqttError::EncodingError);
        }
        let flag: u8 = if retain {
            1
        } else {
            0
        };
        let first: u8 = 0x30 + 2 * qos.code() + flag;
        let mut pkt: Vec<u8> = vec![first];
        let len_field = VariableLengthEncoder::encode(size);
        push_all(&mut pkt, len_field.as_slice());
        let topic_len = Self::to_big_endian(t.len() as u16);
        push_all(&mut pkt, topic_len.as_slice());
        push_all(&mut pkt, t);
        if with_id {
            let id = Self::to_big_endian(pid);
            push_all(&mut pkt, id.as_slice());
        }
        push_all(&mut pkt, m);
        assert(pkt@ =~= publish_packet(t@, m@, retain, qos, pid));
        Ok(pkt)
    }

    /// The DISCONNECT packet: type 14, no flags, nothing after it.
    pub fn disconnect_payload() -> (r: Vec<u8>)
        ensures
            r@ == disconnect_packet(),
    {
        let r: Vec<u8> = vec![0xe0, 0x00];
        assert(r@ =~= disconnect_packet());
        r
    }

    /// `n` as two bytes, high byte first.
    pub fn to_big_endian(n: u16) -> (r: Vec<u8>)
        ensures
            r@ == be16(n as nat),
    {
        let r: Vec<u8> = vec![(n / 256) as u8, (n % 256) as u8];
        assert(r@ =~= be16(n as nat));
        r
    }
}

} // verus!
