use vstd::prelude::*;

use crate::buffer_reader::{BuffReader, ParseError};
use crate::packet_type::{type_of_header, PacketType};
use crate::property::Property;
use crate::property_list::{
    decode_packet_properties, new_packet_props, packet_props, properties_spec, section_decoded,
    MAX_PROPERTIES,
};
use crate::variable_byte_integer::vbi_spec;

verus! {

/// Outcome of reading a fixed header at the start of `b`: the first byte, the remaining
/// length, and the number of bytes the header takes.
pub open spec fn fixed_header_spec(b: Seq<u8>) -> Result<(u8, u32, int), ParseError> {
    if b.len() < 1 {
        Err(ParseError::IndexOutOfBounce)
    } else {
        match vbi_spec(b.skip(1)) {
            Err(e) => Err(e),
            Ok((v, k)) => Ok((b[0], v, 1 + k as int)),
        }
    }
}

/// Outcome of decoding a CONNACK packet at the start of `b`: the number of properties and
/// the number of bytes the packet takes.
pub open spec fn connack_outcome(b: Seq<u8>) -> Result<(nat, nat), ParseError> {
    match fixed_header_spec(b) {
        Err(e) => Err(e),
        Ok((h, _, n)) => if type_of_header(h) != PacketType::Connack {
            Err(ParseError::DecodingError)
        } else if b.len() < n + 2 {
            Err(ParseError::IndexOutOfBounce)
        } else {
            match properties_spec(b.skip(n as int + 2), 18) {
                Err(e) => Err(e),
                Ok((len, c, k)) => Ok((c, (n + 2 + k + len) as nat)),
            }
        },
    }
}

/// A CONNACK packet: the server's answer to a connection request.
pub struct ConnackPacket<'a> {
    pub fixed_header: u8,
    pub remain_len: u32,
    pub ack_flags: u8,
    pub connect_reason_code: u8,
    pub property_len: u32,
    pub properties: heapless::Vec<Property<'a>, MAX_PROPERTIES>,
}

impl<'a> ConnackPacket<'a> {
    /// The packet's fields are those of the CONNACK packet encoded at the start of `b`.
    pub open spec fn decoded_from(&self, b: Seq<u8>) -> bool {
        match fixed_header_spec(b) {
            Ok((h, rl, n)) => match properties_spec(b.skip(n as int + 2), 18) {
                Ok((len, c, k)) => {
                    &&& self.fixed_header == h
                    &&& self.remain_len == rl
                    &&& self.ack_flags == b[n as int]
                    &&& self.connect_reason_code == b[n as int + 1]
                    &&& self.property_len == len
                    &&& packet_props(self.properties).len() == c
                    &&& section_decoded(packet_props(self.properties), b.skip(n as int + 2 + k), len as nat)
                },
                Err(_) => false,
            },
            Err(_) => false,
        }
    }

    /// An empty packet with no properties.
    pub fn new() -> (r: Self)
        ensures
            r.fixed_header == 0,
            r.remain_len == 0,
            r.ack_flags == 0,
            r.connect_reason_code == 0,
            r.property_len == 0,
            packet_props(r.properties).len() == 0,
    {
        ConnackPacket {
            fixed_header: 0,
            remain_len: 0,
            ack_flags: 0,
            connect_reason_code: 0,
            property_len: 0,
            properties: new_packet_props(),
        }
    }

    /// Reads the fixed header and gives the packet kind it names.
    pub fn decode_fixed_header(&mut self, buff_reader: &mut BuffReader) -> (r: Result<
        PacketType,
        ParseError,
    >)
        ensures
            match fixed_header_spec(old(buff_reader).rest()) {
                Ok((h, rl, n)) => r == Ok::<PacketType, ParseError>(type_of_header(h))
                    && *final(self) == (ConnackPacket { fixed_header: h, remain_len: rl, ..*old(self) })
                    && final(buff_reader).advanced(old(buff_reader), n as int),
                Err(e) => r == Err::<PacketType, ParseError>(e) && *final(self) == *old(self)
                    && *final(buff_reader) == *old(buff_reader),
            },
    {
        let ghost b = buff_reader.rest();
        let saved = buff_reader.position;
        let first_byte = buff_reader.read_u8()?;
        assert(buff_reader.rest() =~= b.skip(1));
        let remain_len = match buff_reader.read_variable_byte_int() {
            Ok(v) => v,
            Err(e) => {
                buff_reader.position = saved;
                return Err(e);
            },
        };
        self.fixed_header = first_byte;
        self.remain_len = remain_len;
        Ok(PacketType::from_header(first_byte))
    }

    /// Reads the property section into the packet's property list.
    pub fn decode_properties(&mut self, buff_reader: &mut BuffReader<'a>) -> (r: Result<
        (),
        ParseError,
    >)
        ensures
            match properties_spec(old(buff_reader).rest(), 18) {
                Ok((len, c, k)) => r is Ok && final(self).property_len == len
                    && packet_props(final(self).properties).len() == c
                    && section_decoded(
                    packet_props(final(self).properties),
                    old(buff_reader).rest().skip(k as int),
                    len as nat,
                ) && final(buff_reader).advanced(old(buff_reader), k + len),
                Err(e) => r == Err::<(), ParseError>(e) && *final(self) == *old(self)
                    && *final(buff_reader) == *old(buff_reader),
            },
            *final(self) == (ConnackPacket {
                property_len: final(self).property_len,
                properties: final(self).properties,
                ..*old(self)
            }),
    {
        let (len, list) = decode_packet_properties(buff_reader)?;
        self.property_len = len;
        self.properties = list;
        Ok(())
    }

    /// Decodes a whole CONNACK packet: fixed header, acknowledge flags, reason code and
    /// properties. Any other packet kind is a decoding error, and decoding stops there with
    /// only the fixed header taken in. On failure the cursor stays where it was.
    pub fn decode_connack_packet(&mut self, buff_reader: &mut BuffReader<'a>) -> (r: Result<
        (),
        ParseError,
    >)
        ensures
            match connack_outcome(old(buff_reader).rest()) {
                Ok((_, n)) => r is Ok && final(self).decoded_from(old(buff_reader).rest())
                    && final(buff_reader).advanced(old(buff_reader), n as int),
                Err(e) => r == Err::<(), ParseError>(e) && *final(buff_reader) == *old(buff_reader),
            },
            fixed_header_spec(old(buff_reader).rest()) is Err ==> *final(self) == *old(self),
            fixed_header_spec(old(buff_reader).rest()) matches Ok((h, _, _)) && type_of_header(h)
                != PacketType::Connack ==> *final(self) == (ConnackPacket {
                fixed_header: final(self).fixed_header,
                remain_len: final(self).remain_len,
                ..*old(self)
            }),
    {
        let saved = buff_reader.position;
        let r = self.decode_connack_fields(buff_reader);
        if r.is_err() {
            buff_reader.position = saved;
        }
        r
    }

    fn decode_connack_fields(&mut self, buff_reader: &mut BuffReader<'a>) -> (r: Result<
        (),
        ParseError,
    >)
        ensures
            match connack_outcome(old(buff_reader).rest()) {
                Ok((_, n)) => r is Ok && final(self).decoded_from(old(buff_reader).rest())
                    && final(buff_reader).advanced(old(buff_reader), n as int),
                Err(e) => r == Err::<(), ParseError>(e),
            },
            final(buff_reader).buffer == old(buff_reader).buffer,
            fixed_header_spec(old(buff_reader).rest()) is Err ==> *final(self) == *old(self),
            fixed_header_spec(old(buff_reader).rest()) matches Ok((h, _, _)) && type_of_header(h)
                != PacketType::Connack ==> *final(self) == (ConnackPacket {
                fixed_header: final(self).fixed_header,
                remain_len: final(self).remain_len,
                ..*old(self)
            }),
    {
        let ghost b = buff_reader.rest();
        let kind = self.decode_fixed_header(buff_reader)?;
        let ghost n = (buff_reader.position - old(buff_reader).position) as nat;
        if kind != PacketType::Connack {
            return Err(ParseError::DecodingError);
        }
        assert(buff_reader.rest() =~= b.skip(n as int));
        self.ack_flags = buff_reader.read_u8()?;
        self.connect_reason_code = buff_reader.read_u8()?;
        assert(buff_reader.rest() =~= b.skip(n as int + 2));
        self.decode_properties(buff_reader)?;
        assert(b.skip(n as int + 2).skip(properties_spec(b.skip(n as int + 2), 18)->Ok_0.2 as int) =~= b.skip(
            n as int + 2 + properties_spec(b.skip(n as int + 2), 18)->Ok_0.2,
        ));
        Ok(())
    }
}

} // verus!
