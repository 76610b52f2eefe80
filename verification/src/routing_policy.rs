//! Protocol detection and the routing policy that follows from it.
//!
//! A message is classified by its leading bytes alone; the policy is a table
//! over the detected protocol and the engine's operating mode.

use crate::bytes::slice_eq;
use vstd::prelude::*;
use vstd::slice::slice_subrange;
use vstd::std_specs::convert::FromSpecImpl;
use vstd::string::StringSliceAdditionalSpecFns;

verus! {

/// Routing policy for a message.
#[derive(Debug, Clone, Copy, PartialEq, Eq, Structural)]
pub enum RoutingPolicy {
    /// Forwarded without payment.
    Free,
    /// Forwarded only with a valid payment proof.
    PaymentRequired,
}

/// Protocol recognised from the leading bytes of a message.
#[derive(Debug, Clone, Copy, PartialEq, Eq, Structural)]
pub enum DetectedProtocol {
    /// Bitcoin P2P: network magic followed by a known command.
    BitcoinP2P,
    /// Commons governance: network magic followed by a governance command.
    CommonsGovernance,
    /// Stratum V2 mining protocol, by its message type tag.
    StratumV2,
    /// Mesh packet, by the mesh magic.
    MeshPacket,
    /// Anything else.
    Unknown,
}

/// Operating mode of the mesh.
#[derive(Debug, Clone, Copy, PartialEq, Eq, Structural)]
pub enum MeshMode {
    /// Only the privileged protocols travel; mesh traffic needs a proof.
    BitcoinOnly,
    /// Privileged protocols are free, everything else is paid.
    PaymentGated,
    /// All traffic is free.
    Open,
}

/// Bitcoin mainnet network magic, as a little-endian u32.
pub const BITCOIN_MAINNET_MAGIC: u32 = 0xd9b4bef9;

/// Bitcoin testnet network magic, as a little-endian u32.
pub const BITCOIN_TESTNET_MAGIC: u32 = 0x0709110b;

/// Bitcoin regtest network magic, as a little-endian u32.
pub const BITCOIN_REGTEST_MAGIC: u32 = 0xdab5bffa;

/// Number of leading bytes that classification depends on.
pub const DETECTION_PREFIX_LEN: usize = 12;

/// The first four bytes read as a little-endian u32.
pub open spec fn magic_of(m: Seq<u8>) -> int
    recommends
        m.len() >= 4,
{
    m[0] as int + 256 * (m[1] as int) + 65536 * (m[2] as int) + 16777216 * (m[3] as int)
}

/// The message starts with one of the three Bitcoin network magics.
pub open spec fn has_bitcoin_magic(m: Seq<u8>) -> bool {
    m.len() >= 4 && (magic_of(m) == BITCOIN_MAINNET_MAGIC || magic_of(m) == BITCOIN_TESTNET_MAGIC
        || magic_of(m) == BITCOIN_REGTEST_MAGIC)
}

/// A byte string without its trailing NUL bytes.
pub open spec fn trim_trailing_nuls(s: Seq<u8>) -> Seq<u8>
    decreases s.len(),
{
    if s.len() > 0 && s.last() == 0u8 {
        trim_trailing_nuls(s.drop_last())
    } else {
        s
    }
}

/// The command field of a Bitcoin-framed message: bytes 4 to 12, trailing
/// NULs removed.
pub open spec fn command_of(m: Seq<u8>) -> Seq<u8>
    recommends
        m.len() >= 12,
{
    trim_trailing_nuls(m.subrange(4, 12))
}

/// The commands of the Bitcoin P2P protocol, as the bytes of their names.
pub open spec fn is_bitcoin_command_name(c: Seq<u8>) -> bool {
    ||| c == "version".spec_bytes()
    ||| c == "verack".spec_bytes()
    ||| c == "ping".spec_bytes()
    ||| c == "pong".spec_bytes()
    ||| c == "getheaders".spec_bytes()
    ||| c == "headers".spec_bytes()
    ||| c == "getblocks".spec_bytes()
    ||| c == "block".spec_bytes()
    ||| c == "getdata".spec_bytes()
    ||| c == "inv".spec_bytes()
    ||| c == "tx".spec_bytes()
    ||| c == "notfound".spec_bytes()
    ||| c == "getaddr".spec_bytes()
    ||| c == "addr".spec_bytes()
    ||| c == "mempool".spec_bytes()
    ||| c == "feefilter".spec_bytes()
    ||| c == "sendheaders".spec_bytes()
    ||| c == "sendcmpct".spec_bytes()
    ||| c == "cmpctblock".spec_bytes()
    ||| c == "getblocktxn".spec_bytes()
    ||| c == "blocktxn".spec_bytes()
    ||| c == "getcfilters".spec_bytes()
    ||| c == "cfilter".spec_bytes()
    ||| c == "getcfheaders".spec_bytes()
    ||| c == "cfheaders".spec_bytes()
    ||| c == "getcfcheckpt".spec_bytes()
    ||| c == "cfcheckpt".spec_bytes()
    ||| c == "sendpkgtxn".spec_bytes()
    ||| c == "pkgtxn".spec_bytes()
    ||| c == "pkgtxnreject".spec_bytes()
}

/// The commands of Commons governance, as the bytes of their names.
pub open spec fn is_governance_command_name(c: Seq<u8>) -> bool {
    ||| c == "econreg".spec_bytes()
    ||| c == "econveto".spec_bytes()
    ||| c == "econstat".spec_bytes()
    ||| c == "econfork".spec_bytes()
    ||| c == "getbanlist".spec_bytes()
    ||| c == "banlist".spec_bytes()
}

/// The first two bytes, read as a little-endian u16, lie in 0x0100..=0x01FF
/// or 0x0200..=0x02FF.
pub open spec fn has_stratum_v2_tag(m: Seq<u8>) -> bool {
    m.len() >= 2 && (m[1] == 1u8 || m[1] == 2u8)
}

/// The message starts with the ASCII bytes `MESH`.
pub open spec fn has_mesh_magic(m: Seq<u8>) -> bool {
    m.len() >= 4 && m[0] == 0x4Du8 && m[1] == 0x45u8 && m[2] == 0x53u8 && m[3] == 0x48u8
}

/// Classification of a message, in priority order: Bitcoin-framed commands,
/// then the Stratum V2 tag, then the mesh magic.
pub open spec fn detect_protocol_spec(m: Seq<u8>) -> DetectedProtocol {
    if has_bitcoin_magic(m) && m.len() >= 12 && is_bitcoin_command_name(command_of(m)) {
        DetectedProtocol::BitcoinP2P
    } else if has_bitcoin_magic(m) && m.len() >= 12 && is_governance_command_name(command_of(m)) {
        DetectedProtocol::CommonsGovernance
    } else if has_stratum_v2_tag(m) {
        DetectedProtocol::StratumV2
    } else if has_mesh_magic(m) {
        DetectedProtocol::MeshPacket
    } else {
        DetectedProtocol::Unknown
    }
}

/// The policy table: the three privileged protocols are always free; mesh
/// packets and unknown traffic are free only in open mode.
pub open spec fn policy_for(protocol: DetectedProtocol, mode: MeshMode) -> RoutingPolicy {
    match protocol {
        DetectedProtocol::BitcoinP2P => RoutingPolicy::Free,
        DetectedProtocol::CommonsGovernance => RoutingPolicy::Free,
        DetectedProtocol::StratumV2 => RoutingPolicy::Free,
        DetectedProtocol::MeshPacket | DetectedProtocol::Unknown => match mode {
            MeshMode::Open => RoutingPolicy::Free,
            _ => RoutingPolicy::PaymentRequired,
        },
    }
}

/// The part of a message that classification reads: its first twelve bytes,
/// or all of it when it is shorter.
pub open spec fn detection_prefix(m: Seq<u8>) -> Seq<u8> {
    if m.len() <= DETECTION_PREFIX_LEN {
        m
    } else {
        m.subrange(0, DETECTION_PREFIX_LEN as int)
    }
}

/// Classification depends on the detection prefix only.
pub proof fn lemma_detection_reads_prefix_only(m: Seq<u8>)
    ensures
        detect_protocol_spec(m) == detect_protocol_spec(detection_prefix(m)),
{
    let p = detection_prefix(m);
    if m.len() > 12 {
        assert(p.len() == 12);
        assert(p.subrange(4, 12) =~= m.subrange(4, 12));
        assert(p[0] == m[0] && p[1] == m[1] && p[2] == m[2] && p[3] == m[3]);
    }
}

/// Two messages that agree on their detection prefix get the same protocol
/// and, in any one mode, the same policy: nothing after the prefix matters.
pub proof fn lemma_policy_independent_of_payload_tail(a: Seq<u8>, b: Seq<u8>, mode: MeshMode)
    requires
        detection_prefix(a) == detection_prefix(b),
    ensures
        detect_protocol_spec(a) == detect_protocol_spec(b),
        policy_for(detect_protocol_spec(a), mode) == policy_for(detect_protocol_spec(b), mode),
{
    lemma_detection_reads_prefix_only(a);
    lemma_detection_reads_prefix_only(b);
}

/// A byte with an ASCII capital letter replaced by its small letter.
pub open spec fn ascii_lower(b: u8) -> u8 {
    if 0x41 <= b <= 0x5A {
        (b + 32) as u8
    } else {
        b
    }
}

/// A byte string with every ASCII capital letter replaced by its small letter.
pub open spec fn ascii_lowercase(s: Seq<u8>) -> Seq<u8> {
    Seq::new(s.len(), |i: int| ascii_lower(s[i]))
}

/// The mode that a configuration string names, compared without regard to
/// ASCII case: `bitcoin_only` or `bitcoin-only`, `open`, and for
/// payment-gated mode `payment_gated`, `payment-gated` or `paymentgated`. A
/// string that names no mode selects payment-gated mode too.
pub open spec fn mode_from_name(name: Seq<u8>) -> MeshMode {
    let l = ascii_lowercase(name);
    if l == "bitcoin_only".spec_bytes() || l == "bitcoin-only".spec_bytes() {
        MeshMode::BitcoinOnly
    } else if l == "open".spec_bytes() {
        MeshMode::Open
    } else {
        MeshMode::PaymentGated
    }
}

fn lowercase_bytes(s: &[u8]) -> (r: Vec<u8>)
    ensures
        r@ == ascii_lowercase(s@),
{
    let mut out: Vec<u8> = Vec::new();
    let mut i: usize = 0;
    while i < s.len()
        invariant
            i <= s@.len(),
            out@.len() == i,
            forall|j: int| 0 <= j < i ==> out@[j] == ascii_lower(s@[j]),
        decreases s@.len() - i,
    {
        let b: u8 = s[i];
        if 0x41 <= b && b <= 0x5A {
            out.push(b + 32);
        } else {
            out.push(b);
        }
        i += 1;
    }
    assert(out@ =~= ascii_lowercase(s@));
    out
}

impl From<&str> for MeshMode {
    /// Reads a mode from its configuration name.
    fn from(s: &str) -> (r: MeshMode) {
        let lower = lowercase_bytes(s.as_bytes());
        let l = lower.as_slice();
        if slice_eq(l, "bitcoin_only".as_bytes()) || slice_eq(l, "bitcoin-only".as_bytes()) {
            MeshMode::BitcoinOnly
        } else if slice_eq(l, "open".as_bytes()) {
            MeshMode::Open
        } else {
            MeshMode::PaymentGated
        }
    }
}

impl FromSpecImpl<&str> for MeshMode {
    open spec fn obeys_from_spec() -> bool {
        true
    }

    open spec fn from_spec(s: &str) -> MeshMode {
        mode_from_name(s.spec_bytes())
    }
}

/// Routing policy engine: a mode, and the pure functions over it.
pub struct RoutingPolicyEngine {
    mode: MeshMode,
}

impl RoutingPolicyEngine {
    /// The engine's mode.
    pub closed spec fn spec_mode(&self) -> MeshMode {
        self.mode
    }

    /// Creates an engine in the given mode.
    pub fn new(mode: MeshMode) -> (r: Self)
        ensures
            r.spec_mode() == mode,
    {
        Self { mode }
    }

    /// Classifies a message by its leading bytes.
    pub fn detect_protocol(&self, message: &[u8]) -> (r: DetectedProtocol)
        ensures
            r == detect_protocol_spec(message@),
    {
        if message.len() >= 12 {
            let magic: u32 = message[0] as u32 + 256 * (message[1] as u32) + 65536 * (
            message[2] as u32) + 16777216 * (message[3] as u32);
            if magic == BITCOIN_MAINNET_MAGIC || magic == BITCOIN_TESTNET_MAGIC || magic
                == BITCOIN_REGTEST_MAGIC {
                let mut end: usize = 12;
                while end > 4 && message[end - 1] == 0
                    invariant
                        4 <= end <= 12,
                        message@.len() >= 12,
                        trim_trailing_nuls(message@.subrange(4, 12)) == trim_trailing_nuls(
                            message@.subrange(4, end as int),
                        ),
                    decreases end,
                {
                    assert(message@.subrange(4, end as int).drop_last() =~= message@.subrange(
                        4,
                        end - 1,
                    ));
                    end -= 1;
                }
                let command = slice_subrange(message, 4, end);
                assert(trim_trailing_nuls(command@) == command@);
                if self.is_bitcoin_command_bytes(command) {
                    return DetectedProtocol::BitcoinP2P;
                }
                if self.is_governance_command_bytes(command) {
                    return DetectedProtocol::CommonsGovernance;
                }
            }
        }
        if self.is_stratum_v2_message(message) {
            return DetectedProtocol::StratumV2;
        }
        if message.len() >= 4 && message[0] == 0x4D && message[1] == 0x45 && message[2] == 0x53
            && message[3] == 0x48 {
            return DetectedProtocol::MeshPacket;
        }
        DetectedProtocol::Unknown
    }

    /// The policy for a detected protocol in the engine's mode.
    pub fn determine_policy(&self, protocol: DetectedProtocol) -> (r: RoutingPolicy)
        ensures
            r == policy_for(protocol, self.spec_mode()),
    {
        match protocol {
            DetectedProtocol::BitcoinP2P => RoutingPolicy::Free,
            DetectedProtocol::CommonsGovernance => RoutingPolicy::Free,
            DetectedProtocol::StratumV2 => RoutingPolicy::Free,
            DetectedProtocol::MeshPacket | DetectedProtocol::Unknown => match self.mode {
                MeshMode::Open => RoutingPolicy::Free,
                _ => RoutingPolicy::PaymentRequired,
            },
        }
    }

    /// Whether a command name belongs to the Bitcoin P2P protocol.
    pub fn is_bitcoin_command(&self, command: &str) -> (r: bool)
        ensures
            r == is_bitcoin_command_name(command.spec_bytes()),
    {
        self.is_bitcoin_command_bytes(command.as_bytes())
    }

    /// Whether a command name belongs to Commons governance.
    pub fn is_governance_command(&self, command: &str) -> (r: bool)
        ensures
            r == is_governance_command_name(command.spec_bytes()),
    {
        self.is_governance_command_bytes(command.as_bytes())
    }

    fn is_bitcoin_command_bytes(&self, c: &[u8]) -> (r: bool)
        ensures
            r == is_bitcoin_command_name(c@),
    {
        slice_eq(c, "version".as_bytes()) || slice_eq(c, "verack".as_bytes()) || slice_eq(
            c,
            "ping".as_bytes(),
        ) || slice_eq(c, "pong".as_bytes()) || slice_eq(c, "getheaders".as_bytes()) || slice_eq(
            c,
            "headers".as_bytes(),
        ) || slice_eq(c, "getblocks".as_bytes()) || slice_eq(c, "block".as_bytes()) || slice_eq(
            c,
            "getdata".as_bytes(),
        ) || slice_eq(c, "inv".as_bytes()) || slice_eq(c, "tx".as_bytes()) || slice_eq(
            c,
            "notfound".as_bytes(),
        ) || slice_eq(c, "getaddr".as_bytes()) || slice_eq(c, "addr".as_bytes()) || slice_eq(
            c,
            "mempool".as_bytes(),
        ) || slice_eq(c, "feefilter".as_bytes()) || slice_eq(c, "sendheaders".as_bytes())
            || slice_eq(c, "sendcmpct".as_bytes()) || slice_eq(c, "cmpctblock".as_bytes())
            || slice_eq(c, "getblocktxn".as_bytes()) || slice_eq(c, "blocktxn".as_bytes())
            || slice_eq(c, "getcfilters".as_bytes()) || slice_eq(c, "cfilter".as_bytes())
            || slice_eq(c, "getcfheaders".as_bytes()) || slice_eq(c, "cfheaders".as_bytes())
            || slice_eq(c, "getcfcheckpt".as_bytes()) || slice_eq(c, "cfcheckpt".as_bytes())
            || slice_eq(c, "sendpkgtxn".as_bytes()) || slice_eq(c, "pkgtxn".as_bytes())
            || slice_eq(c, "pkgtxnreject".as_bytes())
    }

    fn is_governance_command_bytes(&self, c: &[u8]) -> (r: bool)
        ensures
            r == is_governance_command_name(c@),
    {
        slice_eq(c, "econreg".as_bytes()) || slice_eq(c, "econveto".as_bytes()) || slice_eq(
            c,
            "econstat".as_bytes(),
        ) || slice_eq(c, "econfork".as_bytes()) || slice_eq(c, "getbanlist".as_bytes())
            || slice_eq(c, "banlist".as_bytes())
    }

    /// Whether a message carries a Stratum V2 message type tag.
    pub fn is_stratum_v2_message(&self, message: &[u8]) -> (r: bool)
        ensures
            r == has_stratum_v2_tag(message@),
    {
        message.len() >= 2 && (message[1] == 1 || message[1] == 2)
    }

    /// The current mode.
    pub fn mode(&self) -> (r: MeshMode)
        ensures
            r == self.spec_mode(),
    {
        self.mode
    }

    /// Changes the mode.
    pub fn set_mode(&mut self, mode: MeshMode)
        ensures
            final(self).spec_mode() == mode,
    {
        self.mode = mode;
    }
}

} // verus!
