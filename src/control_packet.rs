use vstd::prelude::*;

use crate::buffer_reader::{
    be_u16, be_u32, prefixed_spec, string_spec, BinaryData, BuffReader, EncodedString, ParseError,
};
use crate::connack_packet::fixed_header_spec;
use crate::packet_type::{nibble_of, type_of_header, PacketType};
use crate::property::Property;
use crate::property_list::{
    decode_packet_properties, decode_will_properties,
    packet_props, properties_spec, section_decoded, will_props, MAX_PROPERTIES,
    MAX_WILL_PROPERTIES,
};

verus! {

/// The Will flag (bit 2) of the connect flags is set.
pub open spec fn will_set(f: u8) -> bool {
    f & 0x04 != 0
}

/// The Username flag (bit 7) of the connect flags is set.
pub open spec fn username_set(f: u8) -> bool {
    f & 0x80 != 0
}

/// The Password flag (bit 6) of the connect flags is set.
pub open spec fn password_set(f: u8) -> bool {
    f & 0x40 != 0
}

/// Outcome of reading the will section at the start of `b` (will properties, will topic,
/// will payload): the number of bytes it takes.
pub open spec fn will_outcome(b: Seq<u8>) -> Result<int, ParseError> {
    match properties_spec(b, 7) {
        Err(e) => Err(e),
        Ok((len, _, k)) => {
            let p = k + len;
            match string_spec(b.skip(p)) {
                Err(e) => Err(e),
                Ok(t) => match prefixed_spec(b.skip(p + 2 + t)) {
                    Err(e) => Err(e),
                    Ok(d) => Ok(p + 4 + t + d),
                },
            }
        },
    }
}

/// Size of the optional will section at the start of `b`: zero when the flag is clear.
pub open spec fn opt_will_outcome(b: Seq<u8>, f: u8) -> Result<int, ParseError> {
    if will_set(f) {
        will_outcome(b)
    } else {
        Ok(0)
    }
}

/// Size of the optional username at the start of `b`: zero when the flag is clear.
pub open spec fn opt_username_outcome(b: Seq<u8>, f: u8) -> Result<int, ParseError> {
    if username_set(f) {
        match string_spec(b) {
            Ok(n) => Ok(2 + n),
            Err(e) => Err(e),
        }
    } else {
        Ok(0)
    }
}

/// Size of the optional password at the start of `b`: zero when the flag is clear.
pub open spec fn opt_password_outcome(b: Seq<u8>, f: u8) -> Result<int, ParseError> {
    if password_set(f) {
        match prefixed_spec(b) {
            Ok(n) => Ok(2 + n),
            Err(e) => Err(e),
        }
    } else {
        Ok(0)
    }
}

/// Outcome of reading a CONNECT payload at the start of `b` under connect flags `f`:
/// the number of bytes it takes.
#[verifier::opaque]
pub open spec fn payload_outcome(b: Seq<u8>, f: u8) -> Result<int, ParseError> {
    match string_spec(b) {
        Err(e) => Err(e),
        Ok(c) => {
            let p1 = 2 + c;
            match opt_will_outcome(b.skip(p1), f) {
                Err(e) => Err(e),
                Ok(w) => {
                    let p2 = p1 + w;
                    match opt_username_outcome(b.skip(p2), f) {
                        Err(e) => Err(e),
                        Ok(u) => {
                            let p3 = p2 + u;
                            match opt_password_outcome(b.skip(p3), f) {
                                Err(e) => Err(e),
                                Ok(q) => Ok(p3 + q),
                            }
                        },
                    }
                },
            }
        },
    }
}

/// Outcome of decoding a CONNECT packet at the start of `b`: the number of bytes it takes.
pub open spec fn connect_outcome(b: Seq<u8>) -> Result<int, ParseError> {
    match fixed_header_spec(b) {
        Err(e) => Err(e),
        Ok((h, _, n)) => if type_of_header(h) != PacketType::Connect {
            Err(ParseError::DecodingError)
        } else if b.len() < n + 10 {
            Err(ParseError::IndexOutOfBounce)
        } else {
            match properties_spec(b.skip(n + 10), 18) {
                Err(e) => Err(e),
                Ok((len, _, k)) => {
                    let p = n + 10 + k + len;
                    match payload_outcome(b.skip(p), b[n + 7]) {
                        Err(e) => Err(e),
                        Ok(q) => Ok(p + q),
                    }
                },
            }
        },
    }
}

/// The will property length, will properties, will topic and will payload are those
/// encoded at the start of `b`.
#[verifier::opaque]
pub open spec fn will_fields_at(
    will_property_len: u32,
    will_properties: heapless::Vec<Property, 7>,
    will_topic: EncodedString,
    will_payload: BinaryData,
    b: Seq<u8>,
) -> bool {
    match properties_spec(b, 7) {
        Ok((len, c, k)) => {
            let p = k + len;
            &&& will_property_len == len
            &&& will_props(will_properties).len() == c
            &&& section_decoded(will_props(will_properties), b.skip(k as int), len as nat)
            &&& will_topic.encoded_at(b.skip(p)) && will_topic.wf()
            &&& will_payload.encoded_at(b.skip(p + 2 + will_topic.len))
            &&& will_payload.wf()
        },
        Err(_) => false,
    }
}

/// A CONNECT packet: a client's request to open a session.
pub struct ControlPacket<'a> {
    pub fixed_header: u8,
    pub remain_len: u32,
    pub packet_identifier: u16,
    pub protocol_name_len: u16,
    pub protocol_name: u32,
    pub protocol_version: u8,
    pub connect_flags: u8,
    pub keep_alive: u16,
    pub property_len: u32,
    pub properties: heapless::Vec<Property<'a>, MAX_PROPERTIES>,
    pub client_id: EncodedString<'a>,
    pub will_property_len: u32,
    pub will_properties: heapless::Vec<Property<'a>, MAX_WILL_PROPERTIES>,
    pub will_topic: EncodedString<'a>,
    pub will_payload: BinaryData<'a>,
    pub username: EncodedString<'a>,
    pub password: BinaryData<'a>,
}

impl<'a> ControlPacket<'a> {
    /// The will fields are those encoded at the start of `b`.
    pub open spec fn will_at(&self, b: Seq<u8>) -> bool {
        will_fields_at(
            self.will_property_len,
            self.will_properties,
            self.will_topic,
            self.will_payload,
            b,
        )
    }

    /// The will fields are those of `o`.
    pub open spec fn will_same(&self, o: &Self) -> bool {
        &&& self.will_property_len == o.will_property_len
        &&& self.will_properties == o.will_properties
        &&& self.will_topic == o.will_topic
        &&& self.will_payload == o.will_payload
    }

    /// The payload fields are those encoded at the start of `b` under the packet's connect
    /// flags; the sections that the flags leave out are not read and keep the values they
    /// had in `o`, the packet before decoding.
    #[verifier::opaque]
    pub open spec fn payload_at(&self, o: &Self, b: Seq<u8>) -> bool {
        let f = self.connect_flags;
        let p1 = 2 + self.client_id.len;
        let p2 = p1 + opt_will_outcome(b.skip(p1), f)->Ok_0;
        let p3 = p2 + opt_username_outcome(b.skip(p2), f)->Ok_0;
        &&& self.client_id.encoded_at(b) && self.client_id.wf()
        &&& if will_set(f) {
            self.will_at(b.skip(p1))
        } else {
            self.will_same(o)
        }
        &&& if username_set(f) {
            self.username.encoded_at(b.skip(p2)) && self.username.wf()
        } else {
            self.username == o.username
        }
        &&& if password_set(f) {
            self.password.encoded_at(b.skip(p3)) && self.password.wf()
        } else {
            self.password == o.password
        }
    }

    /// The packet's fields are those of the CONNECT packet encoded at the start of `b`;
    /// the payload sections that its flags leave out keep their values in `o`.
    pub open spec fn decoded_from(&self, o: &Self, b: Seq<u8>) -> bool {
        match fixed_header_spec(b) {
            Ok((h, rl, n)) => match properties_spec(b.skip(n + 10), 18) {
                Ok((len, c, k)) => {
                    &&& self.fixed_header == h
                    &&& self.remain_len == rl
                    &&& self.packet_identifier == 0
                    &&& self.protocol_name_len == be_u16(b, n as int)
                    &&& self.protocol_name == be_u32(b, n + 2)
                    &&& self.protocol_version == b[n + 6]
                    &&& self.connect_flags == b[n + 7]
                    &&& self.keep_alive == be_u16(b, n + 8)
                    &&& self.property_len == len
                    &&& packet_props(self.properties).len() == c
                    &&& section_decoded(packet_props(self.properties), b.skip(n + 10 + k), len as nat)
                    &&& self.payload_at(o, b.skip(n + 10 + k + len))
                },
                Err(_) => false,
            },
            Err(_) => false,
        }
    }

    /// A packet with every field empty or zero, protocol version 5, holding the given
    /// property lists.
    pub fn clean(
        properties: heapless::Vec<Property<'a>, MAX_PROPERTIES>,
        will_properties: heapless::Vec<Property<'a>, MAX_WILL_PROPERTIES>,
    ) -> (r: Self)
        ensures
            r.fixed_header == 0 && r.remain_len == 0 && r.packet_identifier == 0,
            r.protocol_name_len == 0 && r.protocol_name == 0 && r.protocol_version == 5,
            r.connect_flags == 0 && r.keep_alive == 0 && r.property_len == 0,
            r.properties == properties && r.will_properties == will_properties,
            r.will_property_len == 0,
            r.client_id.len == 0 && r.client_id.wf(),
            r.will_topic.len == 0 && r.will_topic.wf(),
            r.will_payload.len == 0 && r.will_payload.wf(),
            r.username.len == 0 && r.username.wf(),
            r.password.len == 0 && r.password.wf(),
    {
        Self {
            fixed_header: 0x00,
            remain_len: 0,
            packet_identifier: 0,
            protocol_name_len: 0,
            protocol_name: 0,
            protocol_version: 5,
            connect_flags: 0,
            keep_alive: 0,
            property_len: 0,
            properties,
            client_id: EncodedString::new(),
            will_property_len: 0,
            will_properties,
            will_topic: EncodedString::new(),
            will_payload: BinaryData::new(),
            username: EncodedString::new(),
            password: BinaryData::new(),
        }
    }

    /// Puts the packet kind in the high nibble of the fixed header, keeping the flag bits
    /// of the low nibble.
    #[allow(non_snake_case)]
    pub fn addPacketType(&mut self, new_packet_type: PacketType)
        ensures
            final(self).fixed_header == old(self).fixed_header % 16 + nibble_of(new_packet_type) * 16,
            type_of_header(final(self).fixed_header) == new_packet_type,
            *final(self) == (ControlPacket { fixed_header: final(self).fixed_header, ..*old(self) }),
    {
        let bits = new_packet_type.header_bits();
        self.fixed_header = self.fixed_header % 16 + bits;
    }

    /// Sets the PUBLISH flags in the low nibble of the fixed header: DUP (bit 3), QoS 1
    /// (bit 1) or 2 (bit 2), RETAIN (bit 0); any other QoS sets no QoS bit. A packet of
    /// another kind is refused and left as it was.
    #[allow(non_snake_case)]
    pub fn addFlags(&mut self, dup: bool, qos: u8, retain: bool) -> (r: Result<(), ParseError>)
        ensures
            old(self).fixed_header / 16 != 3 ==> r == Err::<(), ParseError>(ParseError::EncodingError)
                && final(self).fixed_header == old(self).fixed_header,
            old(self).fixed_header / 16 == 3 ==> r is Ok && final(self).fixed_header == 0x30 + (if dup {
                8int
            } else {
                0
            }) + (if qos == 1 {
                2int
            } else if qos == 2 {
                4
            } else {
                0
            }) + (if retain {
                1int
            } else {
                0
            }),
            *final(self) == (ControlPacket { fixed_header: final(self).fixed_header, ..*old(self) }),
    {
        let cur_type: u8 = self.fixed_header / 16 * 16;
        if cur_type != 0x30 {
            return Err(ParseError::EncodingError);
        }
        let mut flags: u8 = 0x00;
        if dup {
            flags = flags + 0x08;
        }
        if qos == 1 {
            flags = flags + 0x02;
        }
        if qos == 2 {
            flags = flags + 0x04;
        }
        if retain {
            flags = flags + 0x01;
        }
        self.fixed_header = cur_type + flags;
        Ok(())
    }

    /// Reads the fixed header and gives the packet kind it names.
    pub fn decode_fixed_header(&mut self, buff_reader: &mut BuffReader) -> (r: Result<
        PacketType,
        ParseError,
    >)
        ensures
            match fixed_header_spec(old(buff_reader).rest()) {
                Ok((h, rl, n)) => r == Ok::<PacketType, ParseError>(type_of_header(h))
                    && *final(self) == (ControlPacket { fixed_header: h, remain_len: rl, ..*old(self) })
                    && final(buff_reader).advanced(old(buff_reader), n),
                Err(e) => r == Err::<PacketType, ParseError>(e) && *final(self) == *old(self)
                    && *final(buff_reader) == *old(buff_reader),
            },
    {
        let ghost b = buff_reader.rest();
        let saved = buff_reader.position;
        let first_byte = buff_reader.read_u8()?;
        assert(buff_reader.rest() =~= b.skip(1));
        let remain_len = match buff_reader.read_variable_byte_int() {
            Ok(v) => v,
            Err(e) => {
                buff_reader.position = saved;
                return Err(e);
            },
        };
        self.fixed_header = first_byte;
        self.remain_len = remain_len;
        Ok(PacketType::from_header(first_byte))
    }

    /// Reads the packet's property section into its property list.
    pub fn decode_properties(&mut self, buff_reader: &mut BuffReader<'a>) -> (r: Result<
        (),
        ParseError,
    >)
        ensures
            match properties_spec(old(buff_reader).rest(), 18) {
                Ok((len, c, k)) => r is Ok && final(self).property_len == len
                    && packet_props(final(self).properties).len() == c
                    && section_decoded(
                    packet_props(final(self).properties),
                    old(buff_reader).rest().skip(k as int),
                    len as nat,
                ) && final(buff_reader).advanced(old(buff_reader), k + len),
                Err(e) => r == Err::<(), ParseError>(e) && *final(self) == *old(self)
                    && *final(buff_reader) == *old(buff_reader),
            },
            *final(self) == (ControlPacket {
                property_len: final(self).property_len,
                properties: final(self).properties,
                ..*old(self)
            }),
    {
        let (len, list) = decode_packet_properties(buff_reader)?;
        self.property_len = len;
        self.properties = list;
        Ok(())
    }

    /// Reads the will property section into the packet's will-property list.
    pub fn decode_will_properties(&mut self, buff_reader: &mut BuffReader<'a>) -> (r: Result<
        (),
        ParseError,
    >)
        ensures
            match properties_spec(old(buff_reader).rest(), 7) {
                Ok((len, c, k)) => r is Ok && final(self).will_property_len == len
                    && will_props(final(self).will_properties).len() == c
                    && section_decoded(
                    will_props(final(self).will_properties),
                    old(buff_reader).rest().skip(k as int),
                    len as nat,
                ) && final(buff_reader).advanced(old(buff_reader), k + len),
                Err(e) => r == Err::<(), ParseError>(e) && *final(self) == *old(self)
                    && *final(buff_reader) == *old(buff_reader),
            },
            *final(self) == (ControlPacket {
                will_property_len: final(self).will_property_len,
                will_properties: final(self).will_properties,
                ..*old(self)
            }),
    {
        let (len, list) = decode_will_properties(buff_reader)?;
        self.will_property_len = len;
        self.will_properties = list;
        Ok(())
    }

    /// Reads the will section: will properties, will topic and will payload.
    fn decode_will(&mut self, buff_reader: &mut BuffReader<'a>) -> (r: Result<(), ParseError>)
        ensures
            match will_outcome(old(buff_reader).rest()) {
                Ok(n) => r is Ok && final(self).will_at(old(buff_reader).rest())
                    && final(buff_reader).advanced(old(buff_reader), n),
                Err(e) => r == Err::<(), ParseError>(e),
            },
            final(buff_reader).buffer == old(buff_reader).buffer,
            *final(self) == (ControlPacket {
                will_property_len: final(self).will_property_len,
                will_properties: final(self).will_properties,
                will_topic: final(self).will_topic,
                will_payload: final(self).will_payload,
                ..*old(self)
            }),
    {
        proof {
            reveal(will_fields_at);
        }
        let ghost b = buff_reader.rest();
        let ghost start = buff_reader.position;
        self.decode_will_properties(buff_reader)?;
        let ghost q = buff_reader.position - start;
        assert(buff_reader.rest() =~= b.skip(q));
        self.will_topic = buff_reader.read_string()?;
        assert(buff_reader.rest() =~= b.skip(q + 2 + self.will_topic.len));
        self.will_payload = buff_reader.read_binary()?;
        proof {
            let k = properties_spec(b, 7)->Ok_0.2;
            let len = properties_spec(b, 7)->Ok_0.0;
            assert(k + len == q);
        }
        Ok(())
    }

    /// Reads the payload: the client identifier, then the will section, username and
    /// password, each only when its connect flag is set. The sections left out are not
    /// read and keep their values. On failure the cursor stays where it was.
    pub fn decode_payload(&mut self, buff_reader: &mut BuffReader<'a>) -> (r: Result<
        (),
        ParseError,
    >)
        ensures
            match payload_outcome(old(buff_reader).rest(), old(self).connect_flags) {
                Ok(n) => r is Ok && final(self).payload_at(old(self), old(buff_reader).rest())
                    && final(buff_reader).advanced(old(buff_reader), n),
                Err(e) => r == Err::<(), ParseError>(e) && *final(buff_reader) == *old(buff_reader),
            },
            *final(self) == (ControlPacket {
                client_id: final(self).client_id,
                will_property_len: final(self).will_property_len,
                will_properties: final(self).will_properties,
                will_topic: final(self).will_topic,
                will_payload: final(self).will_payload,
                username: final(self).username,
                password: final(self).password,
                ..*old(self)
            }),
    {
        let saved = buff_reader.position;
        let r = self.decode_payload_fields(buff_reader);
        if r.is_err() {
            buff_reader.position = saved;
        }
        r
    }

    #[verifier::rlimit(100)]
    fn decode_payload_fields(&mut self, buff_reader: &mut BuffReader<'a>) -> (r: Result<
        (),
        ParseError,
    >)
        ensures
            match payload_outcome(old(buff_reader).rest(), old(self).connect_flags) {
                Ok(n) => r is Ok && final(self).payload_at(old(self), old(buff_reader).rest())
                    && final(buff_reader).advanced(old(buff_reader), n),
                Err(e) => r == Err::<(), ParseError>(e),
            },
            final(buff_reader).buffer == old(buff_reader).buffer,
            *final(self) == (ControlPacket {
                client_id: final(self).client_id,
                will_property_len: final(self).will_property_len,
                will_properties: final(self).will_properties,
                will_topic: final(self).will_topic,
                will_payload: final(self).will_payload,
                username: final(self).username,
                password: final(self).password,
                ..*old(self)
            }),
    {
        let ghost b = buff_reader.rest();
        let ghost start = buff_reader.position;
        proof {
            reveal(payload_outcome);
            reveal(ControlPacket::payload_at);
        }
        let f = self.connect_flags;
        self.client_id = buff_reader.read_string()?;
        let ghost p1 = 2 + self.client_id.len;
        assert(buff_reader.rest() =~= b.skip(p1));
        if f & 0x04 != 0 {
            self.decode_will(buff_reader)?;
        }
        let ghost p2 = buff_reader.position - start;
        assert(buff_reader.rest() =~= b.skip(p2));
        if f & 0x80 != 0 {
            self.username = buff_reader.read_string()?;
        }
        let ghost p3 = buff_reader.position - start;
        assert(buff_reader.rest() =~= b.skip(p3));
        if f & 0x40 != 0 {
            self.password = buff_reader.read_binary()?;
        }
        Ok(())
    }

    /// Reads the variable header before the properties: protocol name length, protocol
    /// name (read as a four-byte integer), protocol version, connect flags and keep-alive.
    fn decode_variable_header(&mut self, buff_reader: &mut BuffReader<'a>) -> (r: Result<
        (),
        ParseError,
    >)
        ensures
            ({
                let b = old(buff_reader).rest();
                &&& b.len() >= 10 ==> r is Ok && final(buff_reader).advanced(old(buff_reader), 10)
                    && *final(self) == (ControlPacket {
                    packet_identifier: 0,
                    protocol_name_len: be_u16(b, 0),
                    protocol_name: be_u32(b, 2),
                    protocol_version: b[6],
                    connect_flags: b[7],
                    keep_alive: be_u16(b, 8),
                    ..*old(self)
                })
                &&& b.len() < 10 ==> r == Err::<(), ParseError>(ParseError::IndexOutOfBounce)
            }),
            final(buff_reader).buffer == old(buff_reader).buffer,
    {
        let ghost b = buff_reader.rest();
        self.packet_identifier = 0;
        self.protocol_name_len = buff_reader.read_u16()?;
        assert(buff_reader.rest() =~= b.skip(2));
        self.protocol_name = buff_reader.read_u32()?;
        assert(buff_reader.rest() =~= b.skip(6));
        self.protocol_version = buff_reader.read_u8()?;
        assert(buff_reader.rest() =~= b.skip(7));
        self.connect_flags = buff_reader.read_u8()?;
        assert(buff_reader.rest() =~= b.skip(8));
        self.keep_alive = buff_reader.read_u16()?;
        Ok(())
    }

    /// Decodes a whole CONNECT packet: fixed header, variable header, properties and
    /// payload. Any other packet kind is a decoding error, and decoding stops there with
    /// only the fixed header taken in. On failure the cursor stays where it was.
    pub fn decode_control_packet(&mut self, buff_reader: &mut BuffReader<'a>) -> (r: Result<
        (),
        ParseError,
    >)
        ensures
            match connect_outcome(old(buff_reader).rest()) {
                Ok(n) => r is Ok && final(self).decoded_from(old(self), old(buff_reader).rest())
                    && final(buff_reader).advanced(old(buff_reader), n),
                Err(e) => r == Err::<(), ParseError>(e) && *final(buff_reader) == *old(buff_reader),
            },
            fixed_header_spec(old(buff_reader).rest()) is Err ==> *final(self) == *old(self),
            fixed_header_spec(old(buff_reader).rest()) matches Ok((h, _, _)) && type_of_header(h)
                != PacketType::Connect ==> *final(self) == (ControlPacket {
                fixed_header: final(self).fixed_header,
                remain_len: final(self).remain_len,
                ..*old(self)
            }),
    {
        let saved = buff_reader.position;
        let r = self.decode_connect_fields(buff_reader);
        if r.is_err() {
            buff_reader.position = saved;
        }
        r
    }

    #[verifier::rlimit(100)]
    fn decode_connect_fields(&mut self, buff_reader: &mut BuffReader<'a>) -> (r: Result<
        (),
        ParseError,
    >)
        ensures
            match connect_outcome(old(buff_reader).rest()) {
                Ok(n) => r is Ok && final(self).decoded_from(old(self), old(buff_reader).rest())
                    && final(buff_reader).advanced(old(buff_reader), n),
                Err(e) => r == Err::<(), ParseError>(e),
            },
            final(buff_reader).buffer == old(buff_reader).buffer,
            fixed_header_spec(old(buff_reader).rest()) is Err ==> *final(self) == *old(self),
            fixed_header_spec(old(buff_reader).rest()) matches Ok((h, _, _)) && type_of_header(h)
                != PacketType::Connect ==> *final(self) == (ControlPacket {
                fixed_header: final(self).fixed_header,
                remain_len: final(self).remain_len,
                ..*old(self)
            }),
    {
        let ghost b = buff_reader.rest();
        let ghost start = buff_reader.position;
        let kind = self.decode_fixed_header(buff_reader)?;
        let ghost n = buff_reader.position - start;
        if kind != PacketType::Connect {
            return Err(ParseError::DecodingError);
        }
        assert(buff_reader.rest() =~= b.skip(n));
        self.decode_variable_header(buff_reader)?;
        assert(buff_reader.rest() =~= b.skip(n + 10));
        self.decode_properties(buff_reader)?;
        let ghost p = buff_reader.position - start;
        assert(buff_reader.rest() =~= b.skip(p));
        proof {
            let k = properties_spec(b.skip(n + 10), 18)->Ok_0.2;
            assert(b.skip(n + 10).skip(k as int) =~= b.skip(n + 10 + k));
        }
        let ghost mid = *self;
        self.decode_payload(buff_reader)?;
        proof {
            lemma_payload_at_from(*self, mid, *old(self), b.skip(p));
        }
        Ok(())
    }
}

/// What the payload fields are depends on the packet before decoding only through the
/// sections that the flags leave out.
proof fn lemma_payload_at_from(p: ControlPacket, o1: ControlPacket, o2: ControlPacket, b: Seq<u8>)
    requires
        p.payload_at(&o1, b),
        o1.will_same(&o2),
        o1.username == o2.username,
        o1.password == o2.password,
    ensures
        p.payload_at(&o2, b),
{
    reveal(ControlPacket::payload_at);
}

/// With only the Will flag set, the payload is the client identifier then the will
/// section, and no username or password is read: both keep the values they had before
/// decoding. With only the Username and Password flags set, no will section is read: it
/// keeps its values, and the username and then the password follow the client identifier.
pub proof fn lemma_connect_flags_gating(p: ControlPacket, o: ControlPacket, b: Seq<u8>)
    requires
        p.payload_at(&o, b),
    ensures
        p.connect_flags == 0x04 ==> {
            &&& p.will_at(b.skip(2 + p.client_id.len))
            &&& p.username == o.username
            &&& p.password == o.password
        },
        p.connect_flags == 0xC0 ==> {
            &&& p.will_same(&o)
            &&& p.username.encoded_at(b.skip(2 + p.client_id.len))
            &&& p.password.encoded_at(b.skip(4 + p.client_id.len + p.username.len))
        },
{
    reveal(ControlPacket::payload_at);
    assert(0x04u8 & 0x04 != 0 && 0x04u8 & 0x80 == 0 && 0x04u8 & 0x40 == 0) by (bit_vector);
    assert(0xC0u8 & 0x04 == 0 && 0xC0u8 & 0x80 != 0 && 0xC0u8 & 0x40 != 0) by (bit_vector);
}

} // verus!
