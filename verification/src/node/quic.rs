use vstd::prelude::*;

verus! {

/// Identifier of a peer of the QUIC network.
#[derive(Debug, Clone, Hash, PartialEq, Eq)]
pub struct PeerId(pub String);

impl PeerId {
    /// The identifier given to the peer of an accepted connection: always "dummy" (no identity is
    /// read from the connection).
    pub fn from_connection() -> (r: Self)
        ensures
            r.0@ == "dummy"@,
    {
        PeerId(String::from_str("dummy"))
    }
}

/// The kind of a QUIC message.
#[derive(Debug, Clone, Copy, PartialEq, Eq)]
pub enum MessageType {
    Data,
    Control,
    Heartbeat,
}

/// A message of the QUIC network.
#[derive(Debug)]
pub struct Message {
    pub message_type: MessageType,
    pub payload: Vec<u8>,
}

/// The wire form of a message: its payload bytes.
pub open spec fn wire_form(m: Message) -> Seq<u8> {
    m.payload@
}

/// The message read from a wire form: a data message carrying the bytes.
pub open spec fn read_payload(data: Seq<u8>) -> (MessageType, Seq<u8>) {
    (MessageType::Data, data)
}

impl Message {
    /// The wire form of the message: its payload bytes.
    pub fn serialize(&self) -> (r: Result<Vec<u8>, ()>)
        ensures
            r matches Ok(b) && b@ == wire_form(*self),
    {
        Ok(self.payload.clone())
    }

    /// Reads a message from its wire form: a data message whose payload is the bytes.
    pub fn deserialize(data: &[u8]) -> (r: Result<Self, ()>)
        ensures
            r matches Ok(m) && (m.message_type, m.payload@) == read_payload(data@),
    {
        Ok(Message { message_type: MessageType::Data, payload: crate::bytes::bytes_to_vec(data) })
    }

    /// The response to a received message: empty.
    pub fn response(&self) -> (r: Vec<u8>)
        ensures
            r@.len() == 0,
    {
        Vec::new()
    }
}

/// Reading back the wire form of a message gives a data message with the same payload.
pub proof fn law_serialize_roundtrip(m: Message)
    ensures
        read_payload(wire_form(m)).1 == m.payload@,
        read_payload(wire_form(m)).0 == MessageType::Data,
{
}

} // verus!
