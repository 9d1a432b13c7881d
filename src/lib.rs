//! Decoding of MQTT v5 control packets from a byte buffer, with bounds-checked
//! zero-copy views and a cursor that never leaves the buffer.

pub mod buffer_reader;
pub mod variable_byte_integer;
pub mod packet_type;
pub mod property;
pub mod property_list;
pub mod connack_packet;
pub mod control_packet;
