//! The mesh packet: its fields, its structural rules and its wire encoding.

use crate::bytes::{array32_eq, array32_is_zero, is_zero_hash, slice_eq};
use crate::clock::unix_now;
use crate::payment_proof::{lemma_parse_proof, parse_proof, ser_proof, PaymentProof, ProofView};
use crate::text::{decimal_string, decimal_text};
use crate::wire::{
    add_capped, all_ids, capped, copy_bytes, copy_ids, get_bytes, get_id, get_ids, get_text,
    get_u32, get_u64, get_u8, ids_len_capped, ids_view, lemma_append_assoc, lemma_parse_bytes,
    lemma_parse_ids, lemma_parse_text, lemma_parse_u32, lemma_parse_u64, lemma_parse_u8,
    lemma_ser_lengths, parse_bytes, parse_id, parse_ids, parse_text, parse_u32, parse_u64,
    parse_u8, put_bytes, put_id, put_ids, put_text, put_u32, put_u64, put_u8, ser_bytes, ser_ids,
    ser_text, ser_u32, ser_u64, ser_u8,
};
use vstd::prelude::*;
use vstd::string::StringExecFns;
use vstd::utf8::{encode_utf8, encode_utf8_decode_utf8};

verus! {

/// Node identifier: the SHA-256 digest of a node's long-term public key.
pub type NodeId = [u8; 32];

/// The bytes with which a mesh packet starts on the wire: `MESH`.
pub const MESH_PACKET_MAGIC: [u8; 4] = [0x4D, 0x45, 0x53, 0x48];

/// The packet version that this library speaks.
pub const MESH_PACKET_VERSION: u8 = 1;

/// Largest size of a packet, in bytes.
pub const MAX_PACKET_SIZE: usize = 1_000_000;

/// Most hops that a route of an accepted packet can have.
pub const MAX_ROUTE_LEN: usize = 31_250;

/// What a packet carries.
#[derive(Debug, Clone, Copy, PartialEq, Eq, Structural)]
pub enum PacketType {
    /// Bitcoin P2P protocol message.
    BitcoinP2P,
    /// Commons governance message.
    CommonsGovernance,
    /// Stratum V2 message.
    StratumV2,
    /// Paid traffic: arbitrary data.
    Paid,
}

/// Protocol-specific notes that a packet may carry.
#[derive(Debug)]
pub struct PacketMetadata {
    /// Name of the protocol, such as `bitcoin-p2p` or `stratum-v2`.
    pub protocol: Option<String>,
    /// Further fields, as pairs of a key and a value. A key stands for one
    /// field: see `keys_distinct`. Where a list put together by hand holds
    /// a key twice, the last pair counts.
    pub fields: Vec<(String, String)>,
}

/// What packet metadata holds, as mathematical values.
pub struct MetadataView {
    pub protocol: Option<Seq<char>>,
    pub fields: Seq<(Seq<char>, Seq<char>)>,
}

/// Mesh packet for routing through the network.
#[derive(Debug)]
pub struct MeshPacket {
    /// Packet version.
    pub version: u8,
    /// Packet type.
    pub packet_type: PacketType,
    /// Source node.
    pub source: NodeId,
    /// Destination node.
    pub destination: NodeId,
    /// Route from the source to the destination, both included.
    pub route: Vec<NodeId>,
    /// Sequence number, for ordering and duplicate detection.
    pub sequence: u64,
    /// Time of creation, seconds since the epoch.
    pub timestamp: u64,
    /// Payment proof, required for paid packets.
    pub payment_proof: Option<PaymentProof>,
    /// Packet payload.
    pub payload: Vec<u8>,
    /// Optional metadata.
    pub metadata: Option<PacketMetadata>,
}

/// What a packet holds, as mathematical values.
pub struct PacketView {
    pub version: u8,
    pub packet_type: PacketType,
    pub source: Seq<u8>,
    pub destination: Seq<u8>,
    pub route: Seq<Seq<u8>>,
    pub sequence: u64,
    pub timestamp: u64,
    pub payment_proof: Option<ProofView>,
    pub payload: Seq<u8>,
    pub metadata: Option<MetadataView>,
}

/// The views of a list of pairs of texts.
pub open spec fn pairs_view(l: Seq<(String, String)>) -> Seq<(Seq<char>, Seq<char>)> {
    Seq::new(l.len(), |i: int| (l[i].0@, l[i].1@))
}

impl View for PacketMetadata {
    type V = MetadataView;

    open spec fn view(&self) -> MetadataView {
        MetadataView {
            protocol: match self.protocol {
                Some(p) => Some(p@),
                None => None,
            },
            fields: pairs_view(self.fields@),
        }
    }
}

impl View for MeshPacket {
    type V = PacketView;

    open spec fn view(&self) -> PacketView {
        PacketView {
            version: self.version,
            packet_type: self.packet_type,
            source: self.source@,
            destination: self.destination@,
            route: ids_view(self.route@),
            sequence: self.sequence,
            timestamp: self.timestamp,
            payment_proof: match self.payment_proof {
                Some(p) => Some(p@),
                None => None,
            },
            payload: self.payload@,
            metadata: match self.metadata {
                Some(m) => Some(m@),
                None => None,
            },
        }
    }
}

/// Index of a packet type on the wire.
pub open spec fn type_index(t: PacketType) -> u32 {
    match t {
        PacketType::BitcoinP2P => 0,
        PacketType::CommonsGovernance => 1,
        PacketType::StratumV2 => 2,
        PacketType::Paid => 3,
    }
}

/// The packet type with a given index.
pub open spec fn type_of_index(i: u32) -> Option<PacketType> {
    if i == 0 {
        Some(PacketType::BitcoinP2P)
    } else if i == 1 {
        Some(PacketType::CommonsGovernance)
    } else if i == 2 {
        Some(PacketType::StratumV2)
    } else if i == 3 {
        Some(PacketType::Paid)
    } else {
        None
    }
}

/// Wire encoding of an optional text: a byte that says whether it is there,
/// then the text.
pub open spec fn ser_opt_text(o: Option<Seq<char>>) -> Seq<u8> {
    match o {
        None => ser_u8(0),
        Some(t) => ser_u8(1) + ser_text(t),
    }
}

/// Parser for an optional text at `pos`.
pub open spec fn parse_opt_text(s: Seq<u8>, pos: int) -> Option<(Option<Seq<char>>, int)> {
    match parse_u8(s, pos) {
        Some((tag, p)) => if tag == 0 {
            Some((None, p))
        } else if tag == 1 {
            match parse_text(s, p) {
                Some((t, q)) => Some((Some(t), q)),
                None => None,
            }
        } else {
            None
        },
        None => None,
    }
}

/// Wire encoding of pairs of texts, one after the other.
pub open spec fn ser_pairs(l: Seq<(Seq<char>, Seq<char>)>) -> Seq<u8>
    decreases l.len(),
{
    if l.len() == 0 {
        Seq::empty()
    } else {
        ser_text(l[0].0) + ser_text(l[0].1) + ser_pairs(l.drop_first())
    }
}

/// Parser for `n` pairs of texts at `pos`.
pub open spec fn parse_pairs(s: Seq<u8>, pos: int, n: nat) -> Option<
    (Seq<(Seq<char>, Seq<char>)>, int),
>
    decreases n,
{
    if n == 0 {
        Some((Seq::empty(), pos))
    } else {
        match parse_text(s, pos) {
            Some((k, at1)) => match parse_text(s, at1) {
                Some((v, at2)) => match parse_pairs(s, at2, (n - 1) as nat) {
                    Some((rest, at3)) => Some((seq![(k, v)] + rest, at3)),
                    None => None,
                },
                None => None,
            },
            None => None,
        }
    }
}

/// Every text of the pairs fits the length prefix.
pub open spec fn pairs_fit(l: Seq<(Seq<char>, Seq<char>)>) -> bool {
    forall|i: int|
        0 <= i < l.len() ==> encode_utf8((#[trigger] l[i]).0).len() <= u64::MAX && encode_utf8(
            l[i].1,
        ).len() <= u64::MAX
}

/// Wire encoding of metadata: the protocol name, the number of fields, the
/// fields.
pub open spec fn ser_metadata(m: MetadataView) -> Seq<u8> {
    ser_opt_text(m.protocol) + ser_u64(m.fields.len() as u64) + ser_pairs(m.fields)
}

/// No key stands in two pairs.
pub open spec fn distinct_keys(l: Seq<(Seq<char>, Seq<char>)>) -> bool {
    forall|i: int, j: int| 0 <= i < j < l.len() ==> l[i].0 != l[j].0
}

/// The place of the last pair with a key, or -1 where no pair has it.
pub open spec fn place_of_key(l: Seq<(Seq<char>, Seq<char>)>, key: Seq<char>) -> int
    decreases l.len(),
{
    if l.len() == 0 {
        -1
    } else if l.last().0 == key {
        l.len() - 1
    } else {
        place_of_key(l.drop_last(), key)
    }
}

/// The pairs with a key given a value: the last pair with the key gets the
/// value, or a pair is added where none has the key.
pub open spec fn with_pair(l: Seq<(Seq<char>, Seq<char>)>, key: Seq<char>, value: Seq<char>)
    -> Seq<(Seq<char>, Seq<char>)> {
    if place_of_key(l, key) >= 0 {
        l.update(place_of_key(l, key), (key, value))
    } else {
        l.push((key, value))
    }
}

/// The pairs as a map holds them: each key once, at the place where it came
/// first, with the value that came last.
pub open spec fn merged(l: Seq<(Seq<char>, Seq<char>)>) -> Seq<(Seq<char>, Seq<char>)>
    decreases l.len(),
{
    if l.len() == 0 {
        Seq::empty()
    } else {
        with_pair(merged(l.drop_last()), l.last().0, l.last().1)
    }
}

/// Parser for metadata at `pos`. Of the pairs that the bytes hold, the last
/// one of a key counts: the fields are the merged pairs.
pub open spec fn parse_metadata(s: Seq<u8>, pos: int) -> Option<(MetadataView, int)> {
    match parse_opt_text(s, pos) {
        Some((protocol, at1)) => match parse_u64(s, at1) {
            Some((n, at2)) => match parse_pairs(s, at2, n as nat) {
                Some((fields, at3)) => Some(
                    (MetadataView { protocol, fields: merged(fields) }, at3),
                ),
                None => None,
            },
            None => None,
        },
        None => None,
    }
}

/// Wire encoding of an optional proof.
pub open spec fn ser_opt_proof(o: Option<ProofView>) -> Seq<u8> {
    match o {
        None => ser_u8(0),
        Some(p) => ser_u8(1) + ser_proof(p),
    }
}

/// Parser for an optional proof at `pos`.
pub open spec fn parse_opt_proof(s: Seq<u8>, pos: int) -> Option<(Option<ProofView>, int)> {
    match parse_u8(s, pos) {
        Some((tag, p)) => if tag == 0 {
            Some((None, p))
        } else if tag == 1 {
            match parse_proof(s, p) {
                Some((v, q)) => Some((Some(v), q)),
                None => None,
            }
        } else {
            None
        },
        None => None,
    }
}

/// Wire encoding of optional metadata.
pub open spec fn ser_opt_metadata(o: Option<MetadataView>) -> Seq<u8> {
    match o {
        None => ser_u8(0),
        Some(m) => ser_u8(1) + ser_metadata(m),
    }
}

/// Parser for optional metadata at `pos`.
pub open spec fn parse_opt_metadata(s: Seq<u8>, pos: int) -> Option<(Option<MetadataView>, int)> {
    match parse_u8(s, pos) {
        Some((tag, p)) => if tag == 0 {
            Some((None, p))
        } else if tag == 1 {
            match parse_metadata(s, p) {
                Some((m, q)) => Some((Some(m), q)),
                None => None,
            }
        } else {
            None
        },
        None => None,
    }
}

impl MetadataView {
    /// The metadata as it is read back: with its fields merged.
    pub open spec fn canonical(self) -> MetadataView {
        MetadataView { fields: merged(self.fields), ..self }
    }

    /// The metadata can be written.
    pub open spec fn wf(self) -> bool {
        &&& self.fields.len() <= u64::MAX
        &&& pairs_fit(self.fields)
        &&& match self.protocol {
            Some(p) => encode_utf8(p).len() <= u64::MAX,
            None => true,
        }
    }
}

impl PacketView {
    /// No key of the metadata stands for two fields.
    pub open spec fn keys_distinct(self) -> bool {
        match self.metadata {
            Some(m) => distinct_keys(m.fields),
            None => true,
        }
    }

    /// The packet as it is read back: with the fields of its metadata
    /// merged.
    pub open spec fn canonical(self) -> PacketView {
        PacketView {
            metadata: match self.metadata {
                Some(m) => Some(m.canonical()),
                None => None,
            },
            ..self
        }
    }

    /// The packet can be written: its identifiers have 32 bytes and its
    /// lengths fit the length prefix.
    pub open spec fn wf(self) -> bool {
        &&& self.source.len() == 32
        &&& self.destination.len() == 32
        &&& self.route.len() <= u64::MAX
        &&& all_ids(self.route)
        &&& self.payload.len() <= u64::MAX
        &&& match self.payment_proof {
            Some(p) => p.wf(),
            None => true,
        }
        &&& match self.metadata {
            Some(m) => m.wf(),
            None => true,
        }
    }
}

/// Wire encoding of a packet: its fields in order.
pub open spec fn ser_packet(v: PacketView) -> Seq<u8> {
    ser_u8(v.version) + ser_u32(type_index(v.packet_type)) + v.source + v.destination + ser_ids(
        v.route,
    ) + ser_u64(v.sequence) + ser_u64(v.timestamp) + ser_opt_proof(v.payment_proof) + ser_bytes(
        v.payload,
    ) + ser_opt_metadata(v.metadata)
}

/// Parser for a packet at `pos`.
pub open spec fn parse_packet(s: Seq<u8>, pos: int) -> Option<(PacketView, int)> {
    match parse_u8(s, pos) {
        Some((version, at1)) => match parse_u32(s, at1) {
            Some((index, at2)) => match type_of_index(index) {
                Some(packet_type) => match parse_id(s, at2) {
                    Some((source, at3)) => match parse_id(s, at3) {
                        Some((destination, at4)) => match parse_ids(s, at4) {
                            Some((route, at5)) => match parse_u64(s, at5) {
                                Some((sequence, at6)) => match parse_u64(s, at6) {
                                    Some((timestamp, at7)) => match parse_opt_proof(s, at7) {
                                        Some((payment_proof, at8)) => match parse_bytes(s, at8) {
                                            Some((payload, at9)) => match parse_opt_metadata(s, at9) {
                                                Some((metadata, at10)) => Some(
                                                    (
                                                        PacketView {
                                                            version,
                                                            packet_type,
                                                            source,
                                                            destination,
                                                            route,
                                                            sequence,
                                                            timestamp,
                                                            payment_proof,
                                                            payload,
                                                            metadata,
                                                        },
                                                        at10,
                                                    ),
                                                ),
                                                None => None,
                                            },
                                            None => None,
                                        },
                                        None => None,
                                    },
                                    None => None,
                                },
                                None => None,
                            },
                            None => None,
                        },
                        None => None,
                    },
                    None => None,
                },
                None => None,
            },
            None => None,
        },
        None => None,
    }
}

/// An optional text is found where its encoding stands.
pub proof fn lemma_parse_opt_text(s: Seq<u8>, pos: int, o: Option<Seq<char>>)
    requires
        0 <= pos,
        o matches Some(t) ==> encode_utf8(t).len() <= u64::MAX,
        pos + ser_opt_text(o).len() <= s.len(),
        s.subrange(pos, pos + ser_opt_text(o).len()) == ser_opt_text(o),
    ensures
        parse_opt_text(s, pos) == Some((o, pos + ser_opt_text(o).len())),
{
    lemma_ser_lengths();
    let w = s.subrange(pos, pos + ser_opt_text(o).len());
    match o {
        None => {
            assert(s[pos] == w[0]);
        },
        Some(t) => {
            let n = encode_utf8(t).len() as int;
            assert(s[pos] == w[0]);
            assert(s.subrange(pos + 1, pos + 9 + n) =~= w.subrange(1, 9 + n));
            assert(w.subrange(1, 9 + n) =~= ser_text(t));
            lemma_parse_text(s, pos + 1, t);
        },
    }
}

/// Pairs of texts are found where their encoding stands.
pub proof fn lemma_parse_pairs(s: Seq<u8>, pos: int, l: Seq<(Seq<char>, Seq<char>)>)
    requires
        0 <= pos,
        pairs_fit(l),
        pos + ser_pairs(l).len() <= s.len(),
        s.subrange(pos, pos + ser_pairs(l).len()) == ser_pairs(l),
    ensures
        parse_pairs(s, pos, l.len()) == Some((l, pos + ser_pairs(l).len())),
    decreases l.len(),
{
    lemma_ser_lengths();
    if l.len() == 0 {
        assert(l =~= Seq::empty());
    } else {
        let w = s.subrange(pos, pos + ser_pairs(l).len());
        let a = encode_utf8(l[0].0).len() as int;
        let b = encode_utf8(l[0].1).len() as int;
        let rest = l.drop_first();
        let r = ser_pairs(rest).len() as int;
        assert(s.subrange(pos, pos + 8 + a) =~= w.subrange(0, 8 + a));
        assert(w.subrange(0, 8 + a) =~= ser_text(l[0].0));
        lemma_parse_text(s, pos, l[0].0);
        assert(s.subrange(pos + 8 + a, pos + 16 + a + b) =~= w.subrange(8 + a, 16 + a + b));
        assert(w.subrange(8 + a, 16 + a + b) =~= ser_text(l[0].1));
        lemma_parse_text(s, pos + 8 + a, l[0].1);
        assert(s.subrange(pos + 16 + a + b, pos + 16 + a + b + r) =~= w.subrange(
            16 + a + b,
            16 + a + b + r,
        ));
        assert(w.subrange(16 + a + b, 16 + a + b + r) =~= ser_pairs(rest));
        assert forall|i: int| 0 <= i < rest.len() implies encode_utf8((#[trigger] rest[i]).0).len()
            <= u64::MAX && encode_utf8(rest[i].1).len() <= u64::MAX by {
            assert(rest[i] == l[i + 1]);
        }
        lemma_parse_pairs(s, pos + 16 + a + b, rest);
        assert(seq![l[0]] + rest =~= l);
    }
}

/// Metadata is found where its encoding stands.
pub proof fn lemma_parse_metadata(s: Seq<u8>, pos: int, m: MetadataView)
    requires
        0 <= pos,
        m.wf(),
        pos + ser_metadata(m).len() <= s.len(),
        s.subrange(pos, pos + ser_metadata(m).len()) == ser_metadata(m),
    ensures
        parse_metadata(s, pos) == Some((m.canonical(), pos + ser_metadata(m).len())),
{
    lemma_ser_lengths();
    let w = s.subrange(pos, pos + ser_metadata(m).len());
    let a = ser_opt_text(m.protocol).len() as int;
    let r = ser_pairs(m.fields).len() as int;
    assert(s.subrange(pos, pos + a) =~= w.subrange(0, a));
    assert(w.subrange(0, a) =~= ser_opt_text(m.protocol));
    lemma_parse_opt_text(s, pos, m.protocol);
    assert(s.subrange(pos + a, pos + a + 8) =~= w.subrange(a, a + 8));
    assert(w.subrange(a, a + 8) =~= ser_u64(m.fields.len() as u64));
    lemma_parse_u64(s, pos + a, m.fields.len() as u64);
    assert(s.subrange(pos + a + 8, pos + a + 8 + r) =~= w.subrange(a + 8, a + 8 + r));
    assert(w.subrange(a + 8, a + 8 + r) =~= ser_pairs(m.fields));
    lemma_parse_pairs(s, pos + a + 8, m.fields);
}

/// An optional proof is found where its encoding stands.
pub proof fn lemma_parse_opt_proof(s: Seq<u8>, pos: int, o: Option<ProofView>)
    requires
        0 <= pos,
        o matches Some(p) ==> p.wf(),
        pos + ser_opt_proof(o).len() <= s.len(),
        s.subrange(pos, pos + ser_opt_proof(o).len()) == ser_opt_proof(o),
    ensures
        parse_opt_proof(s, pos) == Some((o, pos + ser_opt_proof(o).len())),
{
    let w = s.subrange(pos, pos + ser_opt_proof(o).len());
    assert(s[pos] == w[0]);
    match o {
        None => {},
        Some(p) => {
            let n = ser_proof(p).len() as int;
            assert(s.subrange(pos + 1, pos + 1 + n) =~= w.subrange(1, 1 + n));
            assert(w.subrange(1, 1 + n) =~= ser_proof(p));
            lemma_parse_proof(s, pos + 1, p);
        },
    }
}

/// Optional metadata is found where its encoding stands.
pub proof fn lemma_parse_opt_metadata(s: Seq<u8>, pos: int, o: Option<MetadataView>)
    requires
        0 <= pos,
        o matches Some(m) ==> m.wf(),
        pos + ser_opt_metadata(o).len() <= s.len(),
        s.subrange(pos, pos + ser_opt_metadata(o).len()) == ser_opt_metadata(o),
    ensures
        parse_opt_metadata(s, pos) == Some(
            (
                match o {
                    Some(m) => Some(m.canonical()),
                    None => None,
                },
                pos + ser_opt_metadata(o).len(),
            ),
        ),
{
    let w = s.subrange(pos, pos + ser_opt_metadata(o).len());
    assert(s[pos] == w[0]);
    match o {
        None => {},
        Some(m) => {
            let n = ser_metadata(m).len() as int;
            assert(s.subrange(pos + 1, pos + 1 + n) =~= w.subrange(1, 1 + n));
            assert(w.subrange(1, 1 + n) =~= ser_metadata(m));
            lemma_parse_metadata(s, pos + 1, m);
        },
    }
}

/// The two parts of a window that holds a concatenation.
pub proof fn lemma_split_window(s: Seq<u8>, pos: int, a: Seq<u8>, b: Seq<u8>)
    requires
        0 <= pos,
        pos + a.len() + b.len() <= s.len(),
        s.subrange(pos, pos + a.len() + b.len()) == a + b,
    ensures
        s.subrange(pos, pos + a.len()) == a,
        s.subrange(pos + a.len(), pos + a.len() + b.len()) == b,
{
    let w = s.subrange(pos, pos + a.len() + b.len());
    assert(s.subrange(pos, pos + a.len()) =~= w.subrange(0, a.len() as int));
    assert(w.subrange(0, a.len() as int) =~= a);
    assert(s.subrange(pos + a.len(), pos + a.len() + b.len()) =~= w.subrange(
        a.len() as int,
        a.len() + b.len() as int,
    ));
    assert(w.subrange(a.len() as int, a.len() + b.len() as int) =~= b);
}

/// A packet is found where its encoding stands: parsing undoes encoding,
/// but for the fields of the metadata, which come back merged.
pub proof fn lemma_parse_packet(s: Seq<u8>, pos: int, v: PacketView)
    requires
        0 <= pos,
        v.wf(),
        pos + ser_packet(v).len() <= s.len(),
        s.subrange(pos, pos + ser_packet(v).len()) == ser_packet(v),
    ensures
        parse_packet(s, pos) == Some((v.canonical(), pos + ser_packet(v).len())),
{
    lemma_ser_lengths();
    let f1 = ser_u8(v.version);
    let f2 = ser_u32(type_index(v.packet_type));
    let f5 = ser_ids(v.route);
    let f6 = ser_u64(v.sequence);
    let f7 = ser_u64(v.timestamp);
    let f8 = ser_opt_proof(v.payment_proof);
    let f9 = ser_bytes(v.payload);
    let f10 = ser_opt_metadata(v.metadata);
    let x2 = f1 + f2;
    let x3 = x2 + v.source;
    let x4 = x3 + v.destination;
    let x5 = x4 + f5;
    let x6 = x5 + f6;
    let x7 = x6 + f7;
    let x8 = x7 + f8;
    let x9 = x8 + f9;
    assert(ser_packet(v) == x9 + f10);
    lemma_split_window(s, pos, x9, f10);
    lemma_split_window(s, pos, x8, f9);
    lemma_split_window(s, pos, x7, f8);
    lemma_split_window(s, pos, x6, f7);
    lemma_split_window(s, pos, x5, f6);
    lemma_split_window(s, pos, x4, f5);
    lemma_split_window(s, pos, x3, v.destination);
    lemma_split_window(s, pos, x2, v.source);
    lemma_split_window(s, pos, f1, f2);
    let at1 = pos + 1;
    let at2 = at1 + 4;
    let at3 = at2 + 32;
    let at4 = at3 + 32;
    let at5 = at4 + f5.len();
    let at6 = at5 + 8;
    let at7 = at6 + 8;
    let at8 = at7 + f8.len();
    let at9 = at8 + f9.len();
    lemma_parse_u8(s, pos, v.version);
    lemma_parse_u32(s, at1, type_index(v.packet_type));
    lemma_parse_ids(s, at4, v.route);
    lemma_parse_u64(s, at5, v.sequence);
    lemma_parse_u64(s, at6, v.timestamp);
    lemma_parse_opt_proof(s, at7, v.payment_proof);
    lemma_parse_bytes(s, at8, v.payload);
    lemma_parse_opt_metadata(s, at9, v.metadata);
}

/// The route position at which `id` first stands.
pub open spec fn is_first_index(route: Seq<NodeId>, id: NodeId, i: int) -> bool {
    &&& 0 <= i < route.len()
    &&& route[i] == id
    &&& forall|j: int| 0 <= j < i ==> route[j] != id
}

/// Whether `id` is one of the nodes of `route`.
pub fn route_contains(route: &[NodeId], id: &NodeId) -> (r: bool)
    ensures
        r == route@.contains(*id),
{
    let mut i: usize = 0;
    while i < route.len()
        invariant
            i <= route@.len(),
            forall|j: int| 0 <= j < i ==> route@[j] != *id,
        decreases route@.len() - i,
    {
        if array32_eq(&route[i], id) {
            return true;
        }
        i += 1;
    }
    false
}

impl Clone for PacketMetadata {
    fn clone(&self) -> (r: Self)
        ensures
            r@ == self@,
    {
        let mut fields: Vec<(String, String)> = Vec::new();
        let mut i: usize = 0;
        while i < self.fields.len()
            invariant
                i <= self.fields@.len(),
                fields@.len() == i,
                forall|j: int|
                    0 <= j < i ==> (#[trigger] fields@[j]).0@ == self.fields@[j].0@ && fields@[j].1@
                        == self.fields@[j].1@,
            decreases self.fields@.len() - i,
        {
            fields.push((self.fields[i].0.clone(), self.fields[i].1.clone()));
            i += 1;
        }
        let r = PacketMetadata { protocol: self.protocol.clone(), fields };
        assert(r@.fields =~= self@.fields);
        r
    }
}

impl Clone for MeshPacket {
    fn clone(&self) -> (r: Self)
        ensures
            r@ == self@,
            r.version == self.version,
            r.packet_type == self.packet_type,
            r.source == self.source,
            r.destination == self.destination,
            r.route@ == self.route@,
            r.sequence == self.sequence,
            r.timestamp == self.timestamp,
            r.payment_proof is Some == self.payment_proof is Some,
            r.payload@ == self.payload@,
            r.metadata is Some == self.metadata is Some,
    {
        MeshPacket {
            version: self.version,
            packet_type: self.packet_type,
            source: self.source,
            destination: self.destination,
            route: copy_ids(self.route.as_slice()),
            sequence: self.sequence,
            timestamp: self.timestamp,
            payment_proof: match &self.payment_proof {
                Some(p) => Some(p.clone()),
                None => None,
            },
            payload: copy_bytes(self.payload.as_slice()),
            metadata: match &self.metadata {
                Some(m) => Some(m.clone()),
                None => None,
            },
        }
    }
}

impl PacketView {
    /// The size of the packet: the length of its wire encoding.
    pub open spec fn encoded_len(self) -> int {
        ser_packet(self).len() as int
    }

    /// A quick estimate of the size: 82 bytes of header, 32 for each hop, a
    /// flat 500 for a proof, the payload, a flat 100 for metadata.
    pub open spec fn estimate(self) -> int {
        82 + 32 * self.route.len() + (if self.payment_proof is Some {
            500int
        } else {
            0int
        }) + self.payload.len() + (if self.metadata is Some {
            100int
        } else {
            0int
        })
    }

    /// The structural rules: the version is the current one, the wire
    /// encoding is within the size limit, the route runs from the source to
    /// the destination, a paid packet carries a proof, and the destination
    /// is not the zero hash.
    pub open spec fn valid(self) -> bool {
        &&& self.version == MESH_PACKET_VERSION
        &&& self.encoded_len() <= MAX_PACKET_SIZE
        &&& self.route.len() > 0
        &&& self.route[0] == self.source
        &&& self.route.last() == self.destination
        &&& (self.packet_type == PacketType::Paid ==> self.payment_proof is Some)
        &&& !is_zero_hash(self.destination)
    }

    /// The complaint about the first structural rule that the packet breaks,
    /// in the order of `valid`.
    pub open spec fn complaint(self) -> Seq<char> {
        if self.version != MESH_PACKET_VERSION {
            "Invalid packet version: "@ + decimal_text(self.version as nat)
        } else if self.encoded_len() > MAX_PACKET_SIZE {
            "Packet size exceeds maximum: "@ + decimal_text(capped(self.encoded_len()) as nat)
                + " > "@ + decimal_text(MAX_PACKET_SIZE as nat)
        } else if self.route.len() == 0 {
            "Route cannot be empty"@
        } else if self.route[0] != self.source {
            "Route must start with source node"@
        } else if self.route.last() != self.destination {
            "Route must end with destination node"@
        } else if self.packet_type == PacketType::Paid && self.payment_proof is None {
            "Paid packets require payment proof"@
        } else {
            "Invalid destination (zero hash)"@
        }
    }
}

impl MeshPacket {
    /// The packet keeps the structural rules.
    pub open spec fn valid(&self) -> bool {
        self@.valid()
    }

    /// The complaint about the first structural rule that the packet breaks.
    pub open spec fn complaint(&self) -> Seq<char> {
        self@.complaint()
    }

    /// Creates a packet stamped with the time `now`. Its route holds the
    /// source alone, its sequence number is zero, and it has no proof and no
    /// metadata.
    pub fn new_at(
        packet_type: PacketType,
        source: NodeId,
        destination: NodeId,
        payload: Vec<u8>,
        now: u64,
    ) -> (r: Self)
        ensures
            r.version == MESH_PACKET_VERSION,
            r.packet_type == packet_type,
            r.source == source,
            r.destination == destination,
            r.route@ == seq![source],
            r.sequence == 0,
            r.timestamp == now,
            r.payment_proof is None,
            r.payload == payload,
            r.metadata is None,
    {
        let mut route: Vec<NodeId> = Vec::new();
        route.push(source);
        assert(route@ =~= seq![source]);
        MeshPacket {
            version: MESH_PACKET_VERSION,
            packet_type,
            source,
            destination,
            route,
            sequence: 0,
            timestamp: now,
            payment_proof: None,
            payload,
            metadata: None,
        }
    }

    /// Creates a packet stamped with the machine's time.
    pub fn new(packet_type: PacketType, source: NodeId, destination: NodeId, payload: Vec<u8>) -> (r:
        Self)
        ensures
            r.version == MESH_PACKET_VERSION,
            r.packet_type == packet_type,
            r.source == source,
            r.destination == destination,
            r.route@ == seq![source],
            r.sequence == 0,
            r.payment_proof is None,
            r.payload == payload,
            r.metadata is None,
    {
        let now = unix_now();
        Self::new_at(packet_type, source, destination, payload, now)
    }

    /// Creates a paid packet, which carries its payment proof.
    pub fn new_paid(
        source: NodeId,
        destination: NodeId,
        payload: Vec<u8>,
        payment_proof: PaymentProof,
    ) -> (r: Self)
        ensures
            r.version == MESH_PACKET_VERSION,
            r.packet_type == PacketType::Paid,
            r.source == source,
            r.destination == destination,
            r.route@ == seq![source],
            r.sequence == 0,
            r.payment_proof == Some(payment_proof),
            r.payload == payload,
            r.metadata is None,
    {
        let mut packet = Self::new(PacketType::Paid, source, destination, payload);
        packet.payment_proof = Some(payment_proof);
        packet
    }

    /// Checks the structural rules, and names the first one that is broken.
    pub fn validate(&self) -> (r: Result<(), String>)
        ensures
            r is Ok <==> self.valid(),
            r matches Err(m) ==> m@ == self.complaint(),
    {
        if self.version != MESH_PACKET_VERSION {
            return Err(
                String::from_str("Invalid packet version: ").concat(
                    decimal_string(self.version as u64).as_str(),
                ),
            );
        }
        let size = self.encoded_len();
        if size > MAX_PACKET_SIZE {
            return Err(
                String::from_str("Packet size exceeds maximum: ").concat(
                    decimal_string(size as u64).as_str(),
                ).concat(" > ").concat(decimal_string(MAX_PACKET_SIZE as u64).as_str()),
            );
        }
        if self.route.len() == 0 {
            return Err(String::from_str("Route cannot be empty"));
        }
        if !array32_eq(&self.route[0], &self.source) {
            return Err(String::from_str("Route must start with source node"));
        }
        if !array32_eq(&self.route[self.route.len() - 1], &self.destination) {
            return Err(String::from_str("Route must end with destination node"));
        }
        if self.packet_type == PacketType::Paid && self.payment_proof.is_none() {
            return Err(String::from_str("Paid packets require payment proof"));
        }
        if array32_is_zero(&self.destination) {
            return Err(String::from_str("Invalid destination (zero hash)"));
        }
        Ok(())
    }

    /// The size of the packet: the length of its wire encoding, capped.
    pub fn encoded_len(&self) -> (r: usize)
        ensures
            r == capped(self@.encoded_len()),
    {
        proof {
            lemma_ser_lengths();
            assert(ids_view(self.route@).len() == self.route@.len());
            assert(self.source@.len() == 32 && self.destination@.len() == 32);
        }
        let route = add_capped(101, ids_len_capped(self.route.len()));
        let payload = add_capped(route, self.payload.len());
        let proof_len = match &self.payment_proof {
            Some(p) => add_capped(1, p.encoded_len()),
            None => 1,
        };
        let metadata_len = match &self.metadata {
            Some(m) => add_capped(1, m.encoded_len()),
            None => 1,
        };
        add_capped(add_capped(payload, proof_len), metadata_len)
    }

    /// A quick estimate of the size of the packet, without a look into
    /// proof and metadata: `estimate`, capped.
    pub fn serialized_size(&self) -> (r: usize)
        ensures
            r == capped(self@.estimate()),
    {
        let mut size: u128 = 82;
        size += 32 * (self.route.len() as u128);
        if self.payment_proof.is_some() {
            size += 500;
        }
        size += self.payload.len() as u128;
        if self.metadata.is_some() {
            size += 100;
        }
        if size > usize::MAX as u128 {
            usize::MAX
        } else {
            size as usize
        }
    }

    /// Whether the packet is addressed to this node.
    pub fn is_for_me(&self, my_node_id: &NodeId) -> (r: bool)
        ensures
            r == (self.destination == *my_node_id),
    {
        array32_eq(&self.destination, my_node_id)
    }

    /// Whether this node should pass the packet on: it is not the
    /// destination, and it stands in the route.
    pub fn should_forward(&self, my_node_id: &NodeId) -> (r: bool)
        ensures
            r == (self.destination != *my_node_id && self.route@.contains(*my_node_id)),
    {
        if self.is_for_me(my_node_id) {
            return false;
        }
        route_contains(self.route.as_slice(), my_node_id)
    }

    /// The node after this one in the route: the one that follows the first
    /// place at which this node stands, if it stands there and is not last.
    pub fn get_next_hop(&self, my_node_id: &NodeId) -> (r: Option<NodeId>)
        ensures
            match r {
                Some(h) => exists|i: int|
                    is_first_index(self.route@, *my_node_id, i) && i + 1 < self.route@.len() && h
                        == self.route@[i + 1],
                None => !self.route@.contains(*my_node_id) || is_first_index(
                    self.route@,
                    *my_node_id,
                    self.route@.len() - 1,
                ),
            },
    {
        let mut i: usize = 0;
        while i < self.route.len()
            invariant
                i <= self.route@.len(),
                forall|j: int| 0 <= j < i ==> self.route@[j] != *my_node_id,
            decreases self.route@.len() - i,
        {
            if array32_eq(&self.route[i], my_node_id) {
                assert(is_first_index(self.route@, *my_node_id, i as int));
                if i + 1 < self.route.len() {
                    return Some(self.route[i + 1]);
                } else {
                    return None;
                }
            }
            i += 1;
        }
        None
    }

    /// Puts a node into the route, just before the destination, unless it
    /// stands in the route already.
    pub fn add_to_route(&mut self, node_id: NodeId)
        requires
            old(self).route@.len() > 0,
        ensures
            final(self).route@ == if old(self).route@.contains(node_id) {
                old(self).route@
            } else {
                old(self).route@.insert(old(self).route@.len() - 1, node_id)
            },
            final(self).version == old(self).version,
            final(self).packet_type == old(self).packet_type,
            final(self).source == old(self).source,
            final(self).destination == old(self).destination,
            final(self).sequence == old(self).sequence,
            final(self).timestamp == old(self).timestamp,
            final(self).payment_proof == old(self).payment_proof,
            final(self).payload == old(self).payload,
            final(self).metadata == old(self).metadata,
    {
        if !route_contains(self.route.as_slice(), &node_id) {
            let dest_index = self.route.len() - 1;
            self.route.insert(dest_index, node_id);
        }
    }

    /// Appends the wire encoding of the packet.
    pub fn encode(&self, out: &mut Vec<u8>)
        ensures
            final(out)@ == old(out)@ + ser_packet(self@),
            self@.wf(),
    {
        let ghost base = out@;
        let route_len: usize = self.route.len();
        let payload_len: usize = self.payload.len();
        put_u8(out, self.version);
        let ghost acc1 = ser_u8(self.version);
        put_u32(out, type_code(self.packet_type));
        let ghost acc2 = acc1 + ser_u32(type_index(self.packet_type));
        proof {
            lemma_append_assoc(base, acc1, ser_u32(type_index(self.packet_type)));
        }
        put_id(out, &self.source);
        let ghost acc3 = acc2 + self.source@;
        proof {
            lemma_append_assoc(base, acc2, self.source@);
        }
        put_id(out, &self.destination);
        let ghost acc4 = acc3 + self.destination@;
        proof {
            lemma_append_assoc(base, acc3, self.destination@);
        }
        put_ids(out, self.route.as_slice());
        let ghost acc5 = acc4 + ser_ids(ids_view(self.route@));
        proof {
            lemma_append_assoc(base, acc4, ser_ids(ids_view(self.route@)));
        }
        put_u64(out, self.sequence);
        let ghost acc6 = acc5 + ser_u64(self.sequence);
        proof {
            lemma_append_assoc(base, acc5, ser_u64(self.sequence));
        }
        put_u64(out, self.timestamp);
        let ghost acc7 = acc6 + ser_u64(self.timestamp);
        proof {
            lemma_append_assoc(base, acc6, ser_u64(self.timestamp));
        }
        assert(out@ == base + acc7);
        match &self.payment_proof {
            Some(p) => {
                put_u8(out, 1);
                p.encode(out);
                proof {
                    lemma_append_assoc(base + acc7, ser_u8(1), ser_proof(p@));
                }
            },
            None => {
                put_u8(out, 0);
            },
        }
        let ghost acc8 = acc7 + ser_opt_proof(self@.payment_proof);
        proof {
            lemma_append_assoc(base, acc7, ser_opt_proof(self@.payment_proof));
        }
        assert(out@ == base + acc8);
        put_bytes(out, self.payload.as_slice());
        let ghost acc9 = acc8 + ser_bytes(self.payload@);
        proof {
            lemma_append_assoc(base, acc8, ser_bytes(self.payload@));
        }
        assert(out@ == base + acc9);
        match &self.metadata {
            Some(m) => {
                put_u8(out, 1);
                m.encode(out);
                proof {
                    lemma_append_assoc(base + acc9, ser_u8(1), ser_metadata(m@));
                }
            },
            None => {
                put_u8(out, 0);
            },
        }
        proof {
            lemma_append_assoc(base, acc9, ser_opt_metadata(self@.metadata));
        }
        assert(acc9 + ser_opt_metadata(self@.metadata) == ser_packet(self@));
        assert(all_ids(ids_view(self.route@)));
        assert(self.source@.len() == 32 && self.destination@.len() == 32);
    }

    /// Reads a packet at `pos`.
    pub fn decode(data: &[u8], pos: usize) -> (r: Option<(MeshPacket, usize)>)
        requires
            pos <= data@.len(),
        ensures
            match r {
                Some((v, next)) => parse_packet(data@, pos as int) == Some((v@, next as int))
                    && next <= data@.len(),
                None => parse_packet(data@, pos as int) is None,
            },
    {
        let (version, at1) = match get_u8(data, pos) {
            Some(x) => x,
            None => { return None; },
        };
        let (index, at2) = match get_u32(data, at1) {
            Some(x) => x,
            None => { return None; },
        };
        let packet_type = match type_with_code(index) {
            Some(x) => x,
            None => { return None; },
        };
        let (source, at3) = match get_id(data, at2) {
            Some(x) => x,
            None => { return None; },
        };
        let (destination, at4) = match get_id(data, at3) {
            Some(x) => x,
            None => { return None; },
        };
        let (route, at5) = match get_ids(data, at4) {
            Some(x) => x,
            None => { return None; },
        };
        let (sequence, at6) = match get_u64(data, at5) {
            Some(x) => x,
            None => { return None; },
        };
        let (timestamp, at7) = match get_u64(data, at6) {
            Some(x) => x,
            None => { return None; },
        };
        let (proof_tag, at7b) = match get_u8(data, at7) {
            Some(x) => x,
            None => { return None; },
        };
        let (payment_proof, at8) = if proof_tag == 0 {
            (None, at7b)
        } else if proof_tag == 1 {
            match PaymentProof::decode(data, at7b) {
                Some((p, q)) => (Some(p), q),
                None => { return None; },
            }
        } else {
            return None;
        };
        let (payload, at9) = match get_bytes(data, at8) {
            Some(x) => x,
            None => { return None; },
        };
        let (meta_tag, at9b) = match get_u8(data, at9) {
            Some(x) => x,
            None => { return None; },
        };
        let (metadata, at10) = if meta_tag == 0 {
            (None, at9b)
        } else if meta_tag == 1 {
            match PacketMetadata::decode(data, at9b) {
                Some((m, q)) => (Some(m), q),
                None => { return None; },
            }
        } else {
            return None;
        };
        Some(
            (
                MeshPacket {
                    version,
                    packet_type,
                    source,
                    destination,
                    route,
                    sequence,
                    timestamp,
                    payment_proof,
                    payload,
                    metadata,
                },
                at10,
            ),
        )
    }
}

fn type_code(t: PacketType) -> (r: u32)
    ensures
        r == type_index(t),
{
    match t {
        PacketType::BitcoinP2P => 0,
        PacketType::CommonsGovernance => 1,
        PacketType::StratumV2 => 2,
        PacketType::Paid => 3,
    }
}

fn type_with_code(i: u32) -> (r: Option<PacketType>)
    ensures
        r == type_of_index(i),
{
    if i == 0 {
        Some(PacketType::BitcoinP2P)
    } else if i == 1 {
        Some(PacketType::CommonsGovernance)
    } else if i == 2 {
        Some(PacketType::StratumV2)
    } else if i == 3 {
        Some(PacketType::Paid)
    } else {
        None
    }
}

impl PacketMetadata {
    /// No key stands for two fields.
    pub open spec fn keys_distinct(&self) -> bool {
        distinct_keys(self@.fields)
    }

    /// Metadata without fields.
    pub fn new(protocol: Option<String>) -> (r: Self)
        ensures
            r.protocol == protocol,
            r.fields@.len() == 0,
            r.keys_distinct(),
    {
        PacketMetadata { protocol, fields: Vec::new() }
    }

    /// The place of the last field with a key.
    fn place_of(&self, key: &str) -> (r: Option<usize>)
        ensures
            match r {
                Some(i) => place_of_key(self@.fields, key@) == i && i < self.fields@.len(),
                None => place_of_key(self@.fields, key@) == -1,
            },
    {
        let ghost all = self@.fields;
        let mut i: usize = self.fields.len();
        assert(all.take(i as int) =~= all);
        while i > 0
            invariant
                i <= self.fields@.len(),
                all == self@.fields,
                place_of_key(all, key@) == place_of_key(all.take(i as int), key@),
            decreases i,
        {
            proof {
                assert(all.take(i as int).last() == all[i - 1]);
                assert(all.take(i as int).drop_last() =~= all.take(i - 1));
            }
            if slice_eq(self.fields[i - 1].0.as_str().as_bytes(), key.as_bytes()) {
                proof {
                    lemma_same_bytes_same_text(self.fields@[i - 1].0@, key@);
                }
                return Some(i - 1);
            }
            i -= 1;
        }
        None
    }

    /// The value of a key: that of the last field with the key.
    pub fn field(&self, key: &str) -> (r: Option<&String>)
        ensures
            match r {
                Some(v) => place_of_key(self@.fields, key@) >= 0 && *v == self.fields@[place_of_key(
                    self@.fields,
                    key@,
                )].1,
                None => place_of_key(self@.fields, key@) == -1,
            },
    {
        match self.place_of(key) {
            Some(i) => Some(&self.fields[i].1),
            None => None,
        }
    }

    /// Gives a key a value: the last field with the key gets the value, or a
    /// field is added where none has the key. No key comes to stand for two
    /// fields so.
    pub fn set_field(&mut self, key: String, value: String)
        ensures
            final(self).protocol == old(self).protocol,
            final(self)@.fields == with_pair(old(self)@.fields, key@, value@),
            old(self).keys_distinct() ==> final(self).keys_distinct(),
    {
        let ghost before = self@.fields;
        proof {
            lemma_place_of_key(before, key@);
            if distinct_keys(before) {
                lemma_with_pair_distinct(before, key@, value@);
            }
        }
        match self.place_of(key.as_str()) {
            Some(i) => {
                self.fields.set(i, (key, value));
                assert(self@.fields =~= before.update(i as int, (key@, value@)));
            },
            None => {
                self.fields.push((key, value));
                assert(self@.fields =~= before.push((key@, value@)));
            },
        }
    }

    /// The length of the wire encoding of the metadata, capped.
    pub fn encoded_len(&self) -> (r: usize)
        ensures
            r == capped(ser_metadata(self@).len() as int),
    {
        proof {
            lemma_ser_lengths();
        }
        let head: usize = match &self.protocol {
            Some(p) => add_capped(17, p.as_str().as_bytes().len()),
            None => 9,
        };
        let ghost all = self@.fields;
        let ghost mut exact: int = ser_opt_text(self@.protocol).len() as int + 8;
        let mut total: usize = head;
        let mut i: usize = 0;
        assert(all.skip(0) =~= all);
        while i < self.fields.len()
            invariant
                i <= self.fields@.len(),
                all == self@.fields,
                0 <= exact,
                total == capped(exact),
                exact + ser_pairs(all.skip(i as int)).len() == ser_opt_text(
                    self@.protocol,
                ).len() + 8 + ser_pairs(all).len(),
            decreases self.fields@.len() - i,
        {
            proof {
                lemma_ser_lengths();
                let cur = all.skip(i as int);
                assert(cur[0] == all[i as int]);
                assert(cur.drop_first() =~= all.skip(i + 1));
                assert(ser_pairs(cur) == ser_text(cur[0].0) + ser_text(cur[0].1) + ser_pairs(
                    all.skip(i + 1),
                ));
                exact = exact + 16 + encode_utf8(all[i as int].0).len() + encode_utf8(
                    all[i as int].1,
                ).len();
            }
            let key_len = self.fields[i].0.as_str().as_bytes().len();
            let value_len = self.fields[i].1.as_str().as_bytes().len();
            total = add_capped(add_capped(add_capped(total, 16), key_len), value_len);
            i += 1;
        }
        assert(all.skip(i as int) =~= Seq::empty());
        total
    }

    /// Appends the wire encoding of the metadata.
    pub fn encode(&self, out: &mut Vec<u8>)
        ensures
            final(out)@ == old(out)@ + ser_metadata(self@),
            self@.wf(),
    {
        let ghost base = out@;
        match &self.protocol {
            Some(p) => {
                put_u8(out, 1);
                put_text(out, p.as_str());
                proof {
                    lemma_append_assoc(base, ser_u8(1), ser_text(p@));
                }
            },
            None => {
                put_u8(out, 0);
            },
        }
        assert(out@ == base + ser_opt_text(self@.protocol));
        let count: usize = self.fields.len();
        put_u64(out, count as u64);
        let ghost all = pairs_view(self.fields@);
        let ghost start = out@;
        let mut i: usize = 0;
        assert(all.skip(0) =~= all);
        while i < self.fields.len()
            invariant
                i <= self.fields@.len(),
                all == pairs_view(self.fields@),
                out@ + ser_pairs(all.skip(i as int)) == start + ser_pairs(all),
                forall|j: int|
                    0 <= j < i ==> encode_utf8((#[trigger] all[j]).0).len() <= u64::MAX
                        && encode_utf8(all[j].1).len() <= u64::MAX,
            decreases self.fields@.len() - i,
        {
            let ghost before = out@;
            put_text(out, self.fields[i].0.as_str());
            put_text(out, self.fields[i].1.as_str());
            proof {
                let cur = all.skip(i as int);
                let k = ser_text(cur[0].0);
                let v = ser_text(cur[0].1);
                let rest = ser_pairs(all.skip(i + 1));
                assert(cur[0] == all[i as int]);
                assert(cur.drop_first() =~= all.skip(i + 1));
                assert(ser_pairs(cur) == k + v + rest);
                lemma_append_assoc(before, k, v);
                lemma_append_assoc(before, k + v, rest);
            }
            i += 1;
        }
        proof {
            assert(all.skip(i as int) =~= Seq::empty());
            assert(out@ + Seq::empty() =~= out@);
            lemma_append_assoc(base, ser_opt_text(self@.protocol), ser_u64(count as u64));
            lemma_append_assoc(
                base,
                ser_opt_text(self@.protocol) + ser_u64(count as u64),
                ser_pairs(all),
            );
        }
    }

    /// Reads metadata at `pos`. Of the pairs that the bytes hold, the last
    /// one of a key counts.
    pub fn decode(data: &[u8], pos: usize) -> (r: Option<(PacketMetadata, usize)>)
        requires
            pos <= data@.len(),
        ensures
            match r {
                Some((v, next)) => parse_metadata(data@, pos as int) == Some((v@, next as int))
                    && next <= data@.len() && v.keys_distinct(),
                None => parse_metadata(data@, pos as int) is None,
            },
    {
        let (tag, at0) = match get_u8(data, pos) {
            Some(x) => x,
            None => { return None; },
        };
        let (protocol, at1) = if tag == 0 {
            (None, at0)
        } else if tag == 1 {
            match get_text(data, at0) {
                Some((t, q)) => (Some(t), q),
                None => { return None; },
            }
        } else {
            return None;
        };
        let ghost named = text_option_view(protocol);
        assert(parse_opt_text(data@, pos as int) == Some((named, at1 as int)));
        let (n, at2) = match get_u64(data, at1) {
            Some(x) => x,
            None => { return None; },
        };
        let mut read = PacketMetadata::new(protocol);
        let ghost mut raw: Seq<(Seq<char>, Seq<char>)> = Seq::empty();
        let mut at: usize = at2;
        let mut i: u64 = 0;
        assert(read@.fields =~= merged(raw));
        proof {
            match parse_pairs(data@, at2 as int, n as nat) {
                Some((rest, e)) => {
                    assert(raw + rest =~= rest);
                },
                None => {},
            }
        }
        while i < n
            invariant
                i <= n,
                at <= data@.len(),
                text_option_view(read.protocol) == named,
                read@.fields == merged(raw),
                parse_opt_text(data@, pos as int) == Some((named, at1 as int)),
                parse_u64(data@, at1 as int) == Some((n, at2 as int)),
                parse_pairs(data@, at2 as int, n as nat) == prepend_pairs(
                    raw,
                    parse_pairs(data@, at as int, (n - i) as nat),
                ),
            decreases n - i,
        {
            let (k, q1) = match get_text(data, at) {
                Some(x) => x,
                None => { return None; },
            };
            let (v, q2) = match get_text(data, q1) {
                Some(x) => x,
                None => { return None; },
            };
            proof {
                let grown = raw.push((k@, v@));
                assert(grown.drop_last() =~= raw);
                match parse_pairs(data@, q2 as int, (n - i - 1) as nat) {
                    Some((rest, e)) => {
                        assert(raw + (seq![(k@, v@)] + rest) =~= grown + rest);
                    },
                    None => {},
                }
                raw = grown;
            }
            read.set_field(k, v);
            at = q2;
            i += 1;
        }
        proof {
            assert(raw + Seq::empty() =~= raw);
            lemma_merged_distinct(raw);
        }
        Some((read, at))
    }
}

/// The view of an optional text.
pub open spec fn text_option_view(o: Option<String>) -> Option<Seq<char>> {
    match o {
        Some(t) => Some(t@),
        None => None,
    }
}

/// The pairs read so far, put before what the rest of the input gives.
pub open spec fn prepend_pairs(
    head: Seq<(Seq<char>, Seq<char>)>,
    tail: Option<(Seq<(Seq<char>, Seq<char>)>, int)>,
) -> Option<(Seq<(Seq<char>, Seq<char>)>, int)> {
    match tail {
        Some((rest, e)) => Some((head + rest, e)),
        None => None,
    }
}

/// The route of a packet that passes validation starts at its source, ends
/// at its destination, and has between one hop and `MAX_ROUTE_LEN` hops.
pub proof fn lemma_valid_route_shape(p: PacketView)
    requires
        p.valid(),
    ensures
        p.route[0] == p.source,
        p.route.last() == p.destination,
        1 <= p.route.len() <= MAX_ROUTE_LEN,
{
    lemma_ser_lengths();
}

/// A packet whose route is its source alone, whose source is not the zero
/// hash, and which breaks no other rule, passes validation exactly if it is
/// addressed to its own source.
pub proof fn lemma_single_hop_route(p: PacketView)
    requires
        p.route == seq![p.source],
        !is_zero_hash(p.source),
        p.version == MESH_PACKET_VERSION,
        p.encoded_len() <= MAX_PACKET_SIZE,
        p.packet_type == PacketType::Paid ==> p.payment_proof is Some,
    ensures
        p.valid() <==> p.source == p.destination,
{
}

/// Texts with the same UTF-8 encoding are the same text.
pub proof fn lemma_same_bytes_same_text(a: Seq<char>, b: Seq<char>)
    requires
        encode_utf8(a) == encode_utf8(b),
    ensures
        a == b,
{
    encode_utf8_decode_utf8(a);
    encode_utf8_decode_utf8(b);
}

/// The place of a key is that of the last pair with the key.
pub proof fn lemma_place_of_key(l: Seq<(Seq<char>, Seq<char>)>, key: Seq<char>)
    ensures
        -1 <= place_of_key(l, key) < l.len(),
        place_of_key(l, key) >= 0 ==> l[place_of_key(l, key)].0 == key,
        forall|j: int| place_of_key(l, key) < j < l.len() ==> (#[trigger] l[j]).0 != key,
    decreases l.len(),
{
    if l.len() > 0 && l.last().0 != key {
        lemma_place_of_key(l.drop_last(), key);
        assert forall|j: int| place_of_key(l, key) < j < l.len() implies (#[trigger] l[j]).0
            != key by {
            if j < l.len() - 1 {
                assert(l.drop_last()[j].0 != key);
            }
        }
    }
}

/// Giving a key a value leaves no key in two pairs.
pub proof fn lemma_with_pair_distinct(
    l: Seq<(Seq<char>, Seq<char>)>,
    key: Seq<char>,
    value: Seq<char>,
)
    requires
        distinct_keys(l),
    ensures
        distinct_keys(with_pair(l, key, value)),
{
    lemma_place_of_key(l, key);
    let w = with_pair(l, key, value);
    let at = place_of_key(l, key);
    assert forall|i: int, j: int| 0 <= i < j < w.len() implies w[i].0 != w[j].0 by {
        if at >= 0 {
            assert(w[i].0 == l[i].0 && w[j].0 == l[j].0);
        } else if j < l.len() {
            assert(w[i] == l[i] && w[j] == l[j]);
        } else {
            assert(w[i] == l[i]);
            assert(l[i].0 != key);
        }
    }
}

/// Merged pairs hold each key once.
pub proof fn lemma_merged_distinct(l: Seq<(Seq<char>, Seq<char>)>)
    ensures
        distinct_keys(merged(l)),
    decreases l.len(),
{
    if l.len() > 0 {
        lemma_merged_distinct(l.drop_last());
        lemma_with_pair_distinct(merged(l.drop_last()), l.last().0, l.last().1);
    }
}

/// Pairs that hold each key once are their own merged pairs.
pub proof fn lemma_merged_of_distinct(l: Seq<(Seq<char>, Seq<char>)>)
    requires
        distinct_keys(l),
    ensures
        merged(l) == l,
    decreases l.len(),
{
    if l.len() > 0 {
        let front = l.drop_last();
        assert forall|i: int, j: int| 0 <= i < j < front.len() implies front[i].0
            != front[j].0 by {
            assert(l[i].0 != l[j].0);
        }
        lemma_merged_of_distinct(front);
        lemma_place_of_key(front, l.last().0);
        if place_of_key(front, l.last().0) >= 0 {
            let at = place_of_key(front, l.last().0);
            assert(l[at].0 != l[l.len() - 1].0);
        }
        assert(front.push(l.last()) =~= l);
    } else {
        assert(merged(l) =~= l);
    }
}

/// A packet whose metadata holds each key once is read back as it is.
pub proof fn lemma_canonical_of_distinct(p: PacketView)
    requires
        p.keys_distinct(),
    ensures
        p.canonical() == p,
{
    match p.metadata {
        Some(m) => {
            lemma_merged_of_distinct(m.fields);
        },
        None => {},
    }
}

} // verus!
