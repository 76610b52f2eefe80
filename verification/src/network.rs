//! Mesh packets on the wire: the four magic bytes, then the packet's
//! encoding.

use crate::error::MeshError;
use crate::packet::{
    lemma_canonical_of_distinct, lemma_parse_packet, parse_packet, ser_packet, MeshPacket,
    PacketView,
};
use crate::routing_policy::has_mesh_magic;
use vstd::prelude::*;
use vstd::string::StringExecFns;

verus! {

/// The magic bytes, `MESH`.
pub open spec fn mesh_magic() -> Seq<u8> {
    seq![0x4Du8, 0x45u8, 0x53u8, 0x48u8]
}

/// The bytes that carry a packet: the magic, then its encoding.
pub open spec fn wire_form(p: PacketView) -> Seq<u8> {
    mesh_magic() + ser_packet(p)
}

/// The packet that bytes carry: they start with the magic, and a packet's
/// encoding follows. Bytes after the packet are not looked at.
pub open spec fn read_wire(data: Seq<u8>) -> Option<PacketView> {
    if has_mesh_magic(data) {
        match parse_packet(data, 4) {
            Some((v, _)) => Some(v),
            None => None,
        }
    } else {
        None
    }
}

/// Reading undoes writing: the bytes that carry a packet give back that
/// very packet, field for field. (A packet whose metadata would hold a key
/// twice comes back with the fields merged, the last value of a key
/// counting.)
pub proof fn lemma_wire_roundtrip(p: PacketView)
    requires
        p.wf(),
    ensures
        read_wire(wire_form(p)) == Some(p.canonical()),
        p.keys_distinct() ==> read_wire(wire_form(p)) == Some(p),
{
    if p.keys_distinct() {
        lemma_canonical_of_distinct(p);
    }
    let s = wire_form(p);
    assert(s.subrange(4, 4 + ser_packet(p).len() as int) =~= ser_packet(p));
    lemma_parse_packet(s, 4, p);
}

/// Whether data starts with the mesh magic.
pub fn is_mesh_packet(data: &[u8]) -> (r: bool)
    ensures
        r == has_mesh_magic(data@),
{
    data.len() >= 4 && data[0] == 0x4D && data[1] == 0x45 && data[2] == 0x53 && data[3] == 0x48
}

/// Reads a packet from its bytes on the wire. Bytes that do not start with
/// the magic, or that hold no packet after it, are an invalid packet.
pub fn deserialize_mesh_packet(data: &[u8]) -> (r: Result<MeshPacket, MeshError>)
    ensures
        match r {
            Ok(p) => read_wire(data@) == Some(p@),
            Err(e) => read_wire(data@) is None && e.is_invalid_packet(
                if has_mesh_magic(data@) {
                    "Failed to deserialize packet"@
                } else {
                    "Not a mesh packet (invalid magic bytes)"@
                },
            ),
        },
{
    if !is_mesh_packet(data) {
        return Err(
            MeshError::InvalidPacket(String::from_str("Not a mesh packet (invalid magic bytes)")),
        );
    }
    match MeshPacket::decode(data, 4) {
        Some((packet, _)) => Ok(packet),
        None => Err(MeshError::InvalidPacket(String::from_str("Failed to deserialize packet"))),
    }
}

/// Writes a packet as bytes for the wire, after checking its structural
/// rules. A packet that breaks one is an invalid packet, and the error
/// names the rule.
pub fn serialize_mesh_packet(packet: &MeshPacket) -> (r: Result<Vec<u8>, MeshError>)
    ensures
        match r {
            Ok(bytes) => packet.valid() && bytes@ == wire_form(packet@) && read_wire(bytes@)
                == Some(packet@.canonical()) && (packet@.keys_distinct() ==> read_wire(bytes@)
                == Some(packet@)),
            Err(e) => !packet.valid() && e.is_invalid_packet(packet.complaint()),
        },
{
    match packet.validate() {
        Ok(()) => {},
        Err(m) => {
            return Err(MeshError::InvalidPacket(m));
        },
    }
    let mut out: Vec<u8> = Vec::new();
    out.push(0x4D);
    out.push(0x45);
    out.push(0x53);
    out.push(0x48);
    assert(out@ =~= mesh_magic());
    packet.encode(&mut out);
    proof {
        lemma_wire_roundtrip(packet@);
    }
    Ok(out)
}

/// The packet in a network message, if the message starts with the mesh
/// magic: `None` for any other message.
pub fn extract_mesh_packet(data: &[u8]) -> (r: Option<Result<MeshPacket, MeshError>>)
    ensures
        r is Some <==> has_mesh_magic(data@),
        r matches Some(Ok(p)) ==> read_wire(data@) == Some(p@),
        r matches Some(Err(e)) ==> read_wire(data@) is None && e.is_invalid_packet(
            "Failed to deserialize packet"@,
        ),
{
    if is_mesh_packet(data) {
        Some(deserialize_mesh_packet(data))
    } else {
        None
    }
}

} // verus!
