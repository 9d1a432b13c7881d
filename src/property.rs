use vstd::prelude::*;

use crate::buffer_reader::{
    be_u16, be_u32, prefixed_spec, string_pair_spec, string_spec, BinaryData, BuffReader,
    EncodedString, ParseError, StringPair,
};
use crate::variable_byte_integer::{vbi_size, vbi_spec};

verus! {

/// Shape of a property's value on the wire.
#[derive(Debug, Clone, Copy, PartialEq, Eq, Structural)]
pub enum ValueKind {
    Byte,
    TwoByte,
    FourByte,
    VarInt,
    Utf8,
    Binary,
    Pair,
}

/// The value shape that MQTT v5 fixes for a property identifier, if the identifier is known.
pub open spec fn kind_of(id: u8) -> Option<ValueKind> {
    match id {
        0x01 => Some(ValueKind::Byte),
        0x02 => Some(ValueKind::FourByte),
        0x03 => Some(ValueKind::Utf8),
        0x08 => Some(ValueKind::Utf8),
        0x09 => Some(ValueKind::Binary),
        0x0B => Some(ValueKind::VarInt),
        0x11 => Some(ValueKind::FourByte),
        0x12 => Some(ValueKind::Utf8),
        0x13 => Some(ValueKind::TwoByte),
        0x15 => Some(ValueKind::Utf8),
        0x16 => Some(ValueKind::Binary),
        0x17 => Some(ValueKind::Byte),
        0x18 => Some(ValueKind::FourByte),
        0x19 => Some(ValueKind::Byte),
        0x1A => Some(ValueKind::Utf8),
        0x1C => Some(ValueKind::Utf8),
        0x1F => Some(ValueKind::Utf8),
        0x21 => Some(ValueKind::TwoByte),
        0x22 => Some(ValueKind::TwoByte),
        0x23 => Some(ValueKind::TwoByte),
        0x24 => Some(ValueKind::Byte),
        0x25 => Some(ValueKind::Byte),
        0x26 => Some(ValueKind::Pair),
        0x27 => Some(ValueKind::FourByte),
        0x28 => Some(ValueKind::Byte),
        0x29 => Some(ValueKind::Byte),
        0x2A => Some(ValueKind::Byte),
        _ => None,
    }
}

/// Number of bytes that a value of shape `k` takes at the start of `b`, or the error
/// that reading it meets.
pub open spec fn value_outcome(k: ValueKind, b: Seq<u8>) -> Result<nat, ParseError> {
    match k {
        ValueKind::Byte => if b.len() >= 1 { Ok(1) } else { Err(ParseError::IndexOutOfBounce) },
        ValueKind::TwoByte => if b.len() >= 2 { Ok(2) } else { Err(ParseError::IndexOutOfBounce) },
        ValueKind::FourByte => if b.len() >= 4 { Ok(4) } else { Err(ParseError::IndexOutOfBounce) },
        ValueKind::VarInt => match vbi_spec(b) {
            Ok((_, n)) => Ok(n),
            Err(e) => Err(e),
        },
        ValueKind::Utf8 => match string_spec(b) {
            Ok(n) => Ok((2 + n) as nat),
            Err(e) => Err(e),
        },
        ValueKind::Binary => match prefixed_spec(b) {
            Ok(n) => Ok((2 + n) as nat),
            Err(e) => Err(e),
        },
        ValueKind::Pair => match string_pair_spec(b) {
            Ok((n, m)) => Ok((4 + n + m) as nat),
            Err(e) => Err(e),
        },
    }
}

/// Number of value bytes of the property at the start of `b` (its identifier byte not
/// counted), or the error that decoding it meets.
#[verifier::opaque]
pub open spec fn prop_outcome(b: Seq<u8>) -> Result<nat, ParseError> {
    if b.len() < 1 {
        Err(ParseError::IndexOutOfBounce)
    } else {
        match kind_of(b[0]) {
            None => Err(ParseError::IdNotFound),
            Some(k) => value_outcome(k, b.skip(1)),
        }
    }
}

/// A property that decodes lies within the bytes it is decoded from.
pub proof fn lemma_prop_outcome_fits(b: Seq<u8>)
    ensures
        prop_outcome(b) matches Ok(v) ==> v + 1 <= b.len(),
{
    reveal(prop_outcome);
}

/// An MQTT v5 property: one variant per identifier, each holding a value of the shape
/// that the identifier fixes.
#[derive(Debug, Clone, Copy)]
pub enum Property<'a> {
    PayloadFormat(u8),
    MessageExpiryInterval(u32),
    ContentType(EncodedString<'a>),
    ResponseTopic(EncodedString<'a>),
    CorrelationData(BinaryData<'a>),
    SubscriptionIdentifier(u32),
    SessionExpiryInterval(u32),
    AssignedClientIdentifier(EncodedString<'a>),
    ServerKeepAlive(u16),
    AuthenticationMethod(EncodedString<'a>),
    AuthenticationData(BinaryData<'a>),
    RequestProblemInformation(u8),
    WillDelayInterval(u32),
    RequestResponseInformation(u8),
    ResponseInformation(EncodedString<'a>),
    ServerReference(EncodedString<'a>),
    ReasonString(EncodedString<'a>),
    ReceiveMaximum(u16),
    TopicAliasMaximum(u16),
    TopicAlias(u16),
    MaximumQoS(u8),
    RetainAvailable(u8),
    UserProperty(StringPair<'a>),
    MaximumPacketSize(u32),
    WildcardSubscriptionAvailable(u8),
    SubscriptionIdentifierAvailable(u8),
    SharedSubscriptionAvailable(u8),
}

impl<'a> Property<'a> {
    /// The identifier byte of this property.
    pub open spec fn id(&self) -> u8 {
        match self {
            Property::PayloadFormat(_) => 0x01,
            Property::MessageExpiryInterval(_) => 0x02,
            Property::ContentType(_) => 0x03,
            Property::ResponseTopic(_) => 0x08,
            Property::CorrelationData(_) => 0x09,
            Property::SubscriptionIdentifier(_) => 0x0B,
            Property::SessionExpiryInterval(_) => 0x11,
            Property::AssignedClientIdentifier(_) => 0x12,
            Property::ServerKeepAlive(_) => 0x13,
            Property::AuthenticationMethod(_) => 0x15,
            Property::AuthenticationData(_) => 0x16,
            Property::RequestProblemInformation(_) => 0x17,
            Property::WillDelayInterval(_) => 0x18,
            Property::RequestResponseInformation(_) => 0x19,
            Property::ResponseInformation(_) => 0x1A,
            Property::ServerReference(_) => 0x1C,
            Property::ReasonString(_) => 0x1F,
            Property::ReceiveMaximum(_) => 0x21,
            Property::TopicAliasMaximum(_) => 0x22,
            Property::TopicAlias(_) => 0x23,
            Property::MaximumQoS(_) => 0x24,
            Property::RetainAvailable(_) => 0x25,
            Property::UserProperty(_) => 0x26,
            Property::MaximumPacketSize(_) => 0x27,
            Property::WildcardSubscriptionAvailable(_) => 0x28,
            Property::SubscriptionIdentifierAvailable(_) => 0x29,
            Property::SharedSubscriptionAvailable(_) => 0x2A,
        }
    }

    /// The value is the one encoded at the start of `b`.
    #[verifier::opaque]
    pub open spec fn value_at(&self, b: Seq<u8>) -> bool {
        match self {
            Property::PayloadFormat(v) => *v == b[0],
            Property::MessageExpiryInterval(v) => *v == be_u32(b, 0),
            Property::ContentType(v) => v.encoded_at(b) && v.wf(),
            Property::ResponseTopic(v) => v.encoded_at(b) && v.wf(),
            Property::CorrelationData(v) => v.encoded_at(b) && v.wf(),
            Property::SubscriptionIdentifier(v) => vbi_spec(b) matches Ok((x, _)) && x == *v,
            Property::SessionExpiryInterval(v) => *v == be_u32(b, 0),
            Property::AssignedClientIdentifier(v) => v.encoded_at(b) && v.wf(),
            Property::ServerKeepAlive(v) => *v == be_u16(b, 0),
            Property::AuthenticationMethod(v) => v.encoded_at(b) && v.wf(),
            Property::AuthenticationData(v) => v.encoded_at(b) && v.wf(),
            Property::RequestProblemInformation(v) => *v == b[0],
            Property::WillDelayInterval(v) => *v == be_u32(b, 0),
            Property::RequestResponseInformation(v) => *v == b[0],
            Property::ResponseInformation(v) => v.encoded_at(b) && v.wf(),
            Property::ServerReference(v) => v.encoded_at(b) && v.wf(),
            Property::ReasonString(v) => v.encoded_at(b) && v.wf(),
            Property::ReceiveMaximum(v) => *v == be_u16(b, 0),
            Property::TopicAliasMaximum(v) => *v == be_u16(b, 0),
            Property::TopicAlias(v) => *v == be_u16(b, 0),
            Property::MaximumQoS(v) => *v == b[0],
            Property::RetainAvailable(v) => *v == b[0],
            Property::UserProperty(v) => v.encoded_at(b) && v.wf(),
            Property::MaximumPacketSize(v) => *v == be_u32(b, 0),
            Property::WildcardSubscriptionAvailable(v) => *v == b[0],
            Property::SubscriptionIdentifierAvailable(v) => *v == b[0],
            Property::SharedSubscriptionAvailable(v) => *v == b[0],
        }
    }

    /// The property is the one encoded at the start of `b`: its identifier, then its value.
    pub open spec fn decoded_from(&self, b: Seq<u8>) -> bool {
        &&& b.len() >= 1
        &&& b[0] == self.id()
        &&& self.value_at(b.skip(1))
    }

    /// Number of bytes in the shortest encoding of this property, identifier included.
    pub open spec fn encoded_len(&self) -> nat {
        (1 + match self {
            Property::PayloadFormat(_) => 1int,
            Property::MessageExpiryInterval(_) => 4int,
            Property::ContentType(v) => 2 + v.len,
            Property::ResponseTopic(v) => 2 + v.len,
            Property::CorrelationData(v) => 2 + v.len,
            Property::SubscriptionIdentifier(v) => vbi_size(*v as nat) as int,
            Property::SessionExpiryInterval(_) => 4int,
            Property::AssignedClientIdentifier(v) => 2 + v.len,
            Property::ServerKeepAlive(_) => 2int,
            Property::AuthenticationMethod(v) => 2 + v.len,
            Property::AuthenticationData(v) => 2 + v.len,
            Property::RequestProblemInformation(_) => 1int,
            Property::WillDelayInterval(_) => 4int,
            Property::RequestResponseInformation(_) => 1int,
            Property::ResponseInformation(v) => 2 + v.len,
            Property::ServerReference(v) => 2 + v.len,
            Property::ReasonString(v) => 2 + v.len,
            Property::ReceiveMaximum(_) => 2int,
            Property::TopicAliasMaximum(_) => 2int,
            Property::TopicAlias(_) => 2int,
            Property::MaximumQoS(_) => 1int,
            Property::RetainAvailable(_) => 1int,
            Property::UserProperty(v) => 4 + v.name.len + v.value.len,
            Property::MaximumPacketSize(_) => 4int,
            Property::WildcardSubscriptionAvailable(_) => 1int,
            Property::SubscriptionIdentifierAvailable(_) => 1int,
            Property::SharedSubscriptionAvailable(_) => 1int,
        }) as nat
    }

    /// Encoded size: the identifier byte plus the value's bytes.
    pub fn len(&self) -> (r: u32)
        ensures
            r == self.encoded_len(),
    {
        let value_len: u32 = match self {
            Property::PayloadFormat(_) => 1,
            Property::MessageExpiryInterval(_) => 4,
            Property::ContentType(v) => 2 + v.len as u32,
            Property::ResponseTopic(v) => 2 + v.len as u32,
            Property::CorrelationData(v) => 2 + v.len as u32,
            Property::SubscriptionIdentifier(v) => vbi_len(*v),
            Property::SessionExpiryInterval(_) => 4,
            Property::AssignedClientIdentifier(v) => 2 + v.len as u32,
            Property::ServerKeepAlive(_) => 2,
            Property::AuthenticationMethod(v) => 2 + v.len as u32,
            Property::AuthenticationData(v) => 2 + v.len as u32,
            Property::RequestProblemInformation(_) => 1,
            Property::WillDelayInterval(_) => 4,
            Property::RequestResponseInformation(_) => 1,
            Property::ResponseInformation(v) => 2 + v.len as u32,
            Property::ServerReference(v) => 2 + v.len as u32,
            Property::ReasonString(v) => 2 + v.len as u32,
            Property::ReceiveMaximum(_) => 2,
            Property::TopicAliasMaximum(_) => 2,
            Property::TopicAlias(_) => 2,
            Property::MaximumQoS(_) => 1,
            Property::RetainAvailable(_) => 1,
            Property::UserProperty(v) => 4 + v.name.len as u32 + v.value.len as u32,
            Property::MaximumPacketSize(_) => 4,
            Property::WildcardSubscriptionAvailable(_) => 1,
            Property::SubscriptionIdentifierAvailable(_) => 1,
            Property::SharedSubscriptionAvailable(_) => 1,
        };
        1 + value_len
    }

    /// Decodes the property at the reader's cursor: its identifier byte, then a value of
    /// the shape that the identifier fixes. On failure the cursor stays where it was.
    /// The property's encoded size is the number of bytes taken, but for a subscription
    /// identifier written in more bytes than its value needs.
    pub fn decode(reader: &mut BuffReader<'a>) -> (r: Result<Property<'a>, ParseError>)
        ensures
            match prop_outcome(old(reader).rest()) {
                Ok(n) => r matches Ok(p) && p.decoded_from(old(reader).rest())
                    && final(reader).advanced(old(reader), n as int + 1)
                    && (!(p is SubscriptionIdentifier) ==> p.encoded_len() == n + 1),
                Err(e) => r == Err::<Property<'a>, ParseError>(e) && *final(reader) == *old(reader),
            },
    {
        let saved = reader.position;
        let r = Self::decode_fields(reader);
        if r.is_err() {
            reader.position = saved;
        }
        r
    }

    fn decode_fields(reader: &mut BuffReader<'a>) -> (r: Result<Property<'a>, ParseError>)
        ensures
            final(reader).buffer == old(reader).buffer,
            match prop_outcome(old(reader).rest()) {
                Ok(n) => r matches Ok(p) && p.decoded_from(old(reader).rest())
                    && final(reader).advanced(old(reader), n as int + 1)
                    && (!(p is SubscriptionIdentifier) ==> p.encoded_len() == n + 1),
                Err(e) => r == Err::<Property<'a>, ParseError>(e),
            },
    {
        let ghost b = reader.rest();
        proof {
            reveal(Property::value_at);
            reveal(prop_outcome);
        }
        let id = reader.read_u8()?;
        assert(reader.rest() =~= b.skip(1));
        match id {
            0x01 => Ok(Property::PayloadFormat(reader.read_u8()?)),
            0x02 => Ok(Property::MessageExpiryInterval(reader.read_u32()?)),
            0x03 => Ok(Property::ContentType(reader.read_string()?)),
            0x08 => Ok(Property::ResponseTopic(reader.read_string()?)),
            0x09 => Ok(Property::CorrelationData(reader.read_binary()?)),
            0x0B => Ok(Property::SubscriptionIdentifier(reader.read_variable_byte_int()?)),
            0x11 => Ok(Property::SessionExpiryInterval(reader.read_u32()?)),
            0x12 => Ok(Property::AssignedClientIdentifier(reader.read_string()?)),
            0x13 => Ok(Property::ServerKeepAlive(reader.read_u16()?)),
            0x15 => Ok(Property::AuthenticationMethod(reader.read_string()?)),
            0x16 => Ok(Property::AuthenticationData(reader.read_binary()?)),
            0x17 => Ok(Property::RequestProblemInformation(reader.read_u8()?)),
            0x18 => Ok(Property::WillDelayInterval(reader.read_u32()?)),
            0x19 => Ok(Property::RequestResponseInformation(reader.read_u8()?)),
            0x1A => Ok(Property::ResponseInformation(reader.read_string()?)),
            0x1C => Ok(Property::ServerReference(reader.read_string()?)),
            0x1F => Ok(Property::ReasonString(reader.read_string()?)),
            0x21 => Ok(Property::ReceiveMaximum(reader.read_u16()?)),
            0x22 => Ok(Property::TopicAliasMaximum(reader.read_u16()?)),
            0x23 => Ok(Property::TopicAlias(reader.read_u16()?)),
            0x24 => Ok(Property::MaximumQoS(reader.read_u8()?)),
            0x25 => Ok(Property::RetainAvailable(reader.read_u8()?)),
            0x26 => Ok(Property::UserProperty(reader.read_string_pair()?)),
            0x27 => Ok(Property::MaximumPacketSize(reader.read_u32()?)),
            0x28 => Ok(Property::WildcardSubscriptionAvailable(reader.read_u8()?)),
            0x29 => Ok(Property::SubscriptionIdentifierAvailable(reader.read_u8()?)),
            0x2A => Ok(Property::SharedSubscriptionAvailable(reader.read_u8()?)),
            _ => Err(ParseError::IdNotFound),
        }
    }
}

/// Number of bytes in the shortest encoding of `v`.
fn vbi_len(v: u32) -> (r: u32)
    ensures
        r == vbi_size(v as nat),
{
    if v < 0x80 {
        1
    } else if v < 0x4000 {
        2
    } else if v < 0x200000 {
        3
    } else {
        4
    }
}

} // verus!
