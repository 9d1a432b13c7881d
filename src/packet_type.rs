use vstd::prelude::*;

verus! {

/// Kind of an MQTT control packet, carried in the high nibble of the fixed header.
#[derive(Debug, Clone, Copy, PartialEq, Eq, Structural)]
pub enum PacketType {
    Reserved,
    Connect,
    Connack,
    Publish,
    Puback,
    Pubrec,
    Pubrel,
    Pubcomp,
    Subscribe,
    Suback,
    Unsubscribe,
    Unsuback,
    Pingreq,
    Pingresp,
    Disconnect,
    Auth,
}

/// The packet kind whose number is `n`.
pub open spec fn type_of_nibble(n: u8) -> PacketType {
    match n {
        1 => PacketType::Connect,
        2 => PacketType::Connack,
        3 => PacketType::Publish,
        4 => PacketType::Puback,
        5 => PacketType::Pubrec,
        6 => PacketType::Pubrel,
        7 => PacketType::Pubcomp,
        8 => PacketType::Subscribe,
        9 => PacketType::Suback,
        10 => PacketType::Unsubscribe,
        11 => PacketType::Unsuback,
        12 => PacketType::Pingreq,
        13 => PacketType::Pingresp,
        14 => PacketType::Disconnect,
        15 => PacketType::Auth,
        _ => PacketType::Reserved,
    }
}

/// The packet kind named by the high nibble of a fixed-header byte.
pub open spec fn type_of_header(b: u8) -> PacketType {
    type_of_nibble(b / 16)
}

/// Number of a packet kind.
pub open spec fn nibble_of(t: PacketType) -> u8 {
    match t {
        PacketType::Reserved => 0,
        PacketType::Connect => 1,
        PacketType::Connack => 2,
        PacketType::Publish => 3,
        PacketType::Puback => 4,
        PacketType::Pubrec => 5,
        PacketType::Pubrel => 6,
        PacketType::Pubcomp => 7,
        PacketType::Subscribe => 8,
        PacketType::Suback => 9,
        PacketType::Unsubscribe => 10,
        PacketType::Unsuback => 11,
        PacketType::Pingreq => 12,
        PacketType::Pingresp => 13,
        PacketType::Disconnect => 14,
        PacketType::Auth => 15,
    }
}

impl PacketType {
    /// The kind named by the high nibble of a fixed-header byte; the low nibble holds
    /// flags and plays no part.
    pub fn from_header(b: u8) -> (r: PacketType)
        ensures
            r == type_of_header(b),
    {
        match b / 16 {
            1 => PacketType::Connect,
            2 => PacketType::Connack,
            3 => PacketType::Publish,
            4 => PacketType::Puback,
            5 => PacketType::Pubrec,
            6 => PacketType::Pubrel,
            7 => PacketType::Pubcomp,
            8 => PacketType::Subscribe,
            9 => PacketType::Suback,
            10 => PacketType::Unsubscribe,
            11 => PacketType::Unsuback,
            12 => PacketType::Pingreq,
            13 => PacketType::Pingresp,
            14 => PacketType::Disconnect,
            15 => PacketType::Auth,
            _ => PacketType::Reserved,
        }
    }

    /// The fixed-header byte of this kind with no flags: its number in the high nibble.
    pub fn header_bits(self) -> (r: u8)
        ensures
            r == nibble_of(self) * 16,
            type_of_header(r) == self,
    {
        let n: u8 = match self {
            PacketType::Reserved => 0,
            PacketType::Connect => 1,
            PacketType::Connack => 2,
            PacketType::Publish => 3,
            PacketType::Puback => 4,
            PacketType::Pubrec => 5,
            PacketType::Pubrel => 6,
            PacketType::Pubcomp => 7,
            PacketType::Subscribe => 8,
            PacketType::Suback => 9,
            PacketType::Unsubscribe => 10,
            PacketType::Unsuback => 11,
            PacketType::Pingreq => 12,
            PacketType::Pingresp => 13,
            PacketType::Disconnect => 14,
            PacketType::Auth => 15,
        };
        n * 16
    }
}

} // verus!
