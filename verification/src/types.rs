//! Plain value types shared by the whole crate.

use vstd::prelude::*;

verus! {

/// A point in time: seconds and microseconds since the Unix epoch.
#[derive(Clone, Copy, Debug, PartialEq, Eq, Structural)]
pub struct Timeval {
    pub sec: i64,
    pub usec: i64,
}

impl Default for Timeval {
    fn default() -> (t: Timeval)
        ensures
            t == Timeval::zero(),
    {
        Timeval { sec: 0, usec: 0 }
    }
}

impl Timeval {
    /// The timestamp that stands for "never".
    pub open spec fn zero() -> Timeval {
        Timeval { sec: 0, usec: 0 }
    }

    /// Microseconds from `earlier` to `self`, as a mathematical integer.
    pub open spec fn micros_since_spec(self, earlier: Timeval) -> int {
        (self.sec - earlier.sec) * 1_000_000 + (self.usec - earlier.usec)
    }

    /// Whole seconds from `earlier` to `self`; microseconds are not looked at.
    pub open spec fn seconds_since_spec(self, earlier: Timeval) -> int {
        self.sec - earlier.sec
    }

    /// True iff this is the zero timestamp.
    pub fn is_zero(&self) -> (z: bool)
        ensures
            z == (*self == Timeval::zero()),
    {
        self.sec == 0 && self.usec == 0
    }

    /// Microseconds elapsed from `earlier` to `self`. The result is exact for
    /// every pair of timestamps: it cannot overflow 128 bits.
    pub fn micros_since(&self, earlier: Timeval) -> (d: i128)
        ensures
            d == self.micros_since_spec(earlier),
    {
        let secs: i128 = self.sec as i128 - earlier.sec as i128;
        let usecs: i128 = self.usec as i128 - earlier.usec as i128;
        secs * 1_000_000 + usecs
    }

    /// Whole seconds elapsed from `earlier` to `self`.
    pub fn seconds_since(&self, earlier: Timeval) -> (d: i128)
        ensures
            d == self.seconds_since_spec(earlier),
    {
        self.sec as i128 - earlier.sec as i128
    }
}

/// The direction of a packet relative to the flow it belongs to.
#[derive(Clone, Copy, Debug, PartialEq, Eq, Structural)]
pub enum PacketDir {
    Src2Dst,
    Dst2Src,
}

impl PacketDir {
    pub fn is_src2_dest(&self) -> (b: bool)
        ensures
            b == (*self == PacketDir::Src2Dst),
    {
        match self {
            PacketDir::Src2Dst => true,
            PacketDir::Dst2Src => false,
        }
    }
}

/// The transport protocols that are told apart.
#[derive(Clone, Copy, Debug, PartialEq, Eq, Structural)]
pub enum L4Proto {
    TCP,
    UDP,
    ICMP,
    UNKNOWN,
}

impl L4Proto {
    /// The protocol that an IP protocol number stands for.
    pub open spec fn of(proto: u8) -> L4Proto {
        if proto == 1 {
            L4Proto::ICMP
        } else if proto == 6 {
            L4Proto::TCP
        } else if proto == 17 {
            L4Proto::UDP
        } else {
            L4Proto::UNKNOWN
        }
    }
}

impl From<u8> for L4Proto {
    fn from(proto: u8) -> (p: L4Proto) {
        match proto {
            1 => L4Proto::ICMP,
            6 => L4Proto::TCP,
            17 => L4Proto::UDP,
            _ => L4Proto::UNKNOWN,
        }
    }
}

impl vstd::std_specs::convert::FromSpecImpl<u8> for L4Proto {
    open spec fn obeys_from_spec() -> bool {
        true
    }

    open spec fn from_spec(proto: u8) -> L4Proto {
        L4Proto::of(proto)
    }
}

/// The application protocol that a flow was found to carry, as the numbers
/// of the protocol itself and of the protocol beneath it. Zero stands for
/// "unknown".
#[derive(Clone, Copy, Debug, PartialEq, Eq, Structural)]
pub struct Classification {
    pub master_protocol: u16,
    pub app_protocol: u16,
}

impl Default for Classification {
    fn default() -> (c: Classification)
        ensures
            c == Classification::unknown(),
    {
        Classification { master_protocol: 0, app_protocol: 0 }
    }
}

impl Classification {
    /// The classification of a flow of which nothing is known.
    pub open spec fn unknown() -> Classification {
        Classification { master_protocol: 0, app_protocol: 0 }
    }

    /// A classification is definitive once it names an application protocol.
    pub open spec fn definitive(self) -> bool {
        self.app_protocol != 0
    }

    pub fn is_definitive(&self) -> (b: bool)
        ensures
            b == self.definitive(),
    {
        self.app_protocol != 0
    }
}

/// The 5-tuple that identifies a flow.
#[derive(Clone, Copy, Debug, PartialEq, Eq, Hash, Structural)]
pub struct PacketTuple {
    pub proto: u8,
    pub saddr: u32,
    pub daddr: u32,
    pub sport: u16,
    pub dport: u16,
}

impl Default for PacketTuple {
    fn default() -> (t: PacketTuple)
        ensures
            t == (PacketTuple { proto: 0, saddr: 0, daddr: 0, sport: 0, dport: 0 }),
    {
        PacketTuple { proto: 0, saddr: 0, daddr: 0, sport: 0, dport: 0 }
    }
}

impl PacketTuple {
    /// A tuple is valid iff none of its five fields is zero.
    pub open spec fn valid(self) -> bool {
        self.proto != 0 && self.saddr != 0 && self.daddr != 0 && self.sport != 0 && self.dport != 0
    }

    /// The table key of the tuple: its five fields side by side in 104 bits,
    /// protocol first.
    pub open spec fn key_spec(self) -> u128 {
        (self.proto as int * 0x1_0000_0000_0000_0000_0000_0000 + self.saddr as int
            * 0x1_0000_0000_0000_0000 + self.daddr as int * 0x1_0000_0000 + self.sport as int
            * 0x1_0000 + self.dport as int) as u128
    }

    /// The tuple that is read off a key, field by field.
    pub open spec fn of_key(key: u128) -> PacketTuple {
        PacketTuple {
            proto: ((key / 0x1_0000_0000_0000_0000_0000_0000) % 0x100) as u8,
            saddr: ((key / 0x1_0000_0000_0000_0000) % 0x1_0000_0000) as u32,
            daddr: ((key / 0x1_0000_0000) % 0x1_0000_0000) as u32,
            sport: ((key / 0x1_0000) % 0x1_0000) as u16,
            dport: (key % 0x1_0000) as u16,
        }
    }

    /// The tuple that the same conversation shows in the other direction.
    pub open spec fn reversed_spec(self) -> PacketTuple {
        PacketTuple {
            proto: self.proto,
            saddr: self.daddr,
            daddr: self.saddr,
            sport: self.dport,
            dport: self.sport,
        }
    }

    pub fn ok(&self) -> (b: bool)
        ensures
            b == self.valid(),
    {
        (self.proto != 0) && (self.saddr != 0) && (self.daddr != 0) && (self.sport != 0) && (
        self.dport != 0)
    }

    /// The key under which the flow of this tuple is stored.
    pub fn key(&self) -> (k: u128)
        ensures
            k == self.key_spec(),
    {
        (self.proto as u128) * 0x1_0000_0000_0000_0000_0000_0000 + (self.saddr as u128)
            * 0x1_0000_0000_0000_0000 + (self.daddr as u128) * 0x1_0000_0000 + (self.sport as u128)
            * 0x1_0000 + (self.dport as u128)
    }

    /// The same conversation seen from the other endpoint.
    pub fn reversed(&self) -> (r: PacketTuple)
        ensures
            r == self.reversed_spec(),
    {
        PacketTuple {
            proto: self.proto,
            saddr: self.daddr,
            daddr: self.saddr,
            sport: self.dport,
            dport: self.sport,
        }
    }

    /// Every field of a tuple can be read back from its key.
    pub proof fn lemma_key_fields(self)
        ensures
            self.key_spec() % 0x1_0000 == self.dport,
            (self.key_spec() / 0x1_0000) % 0x1_0000 == self.sport,
            (self.key_spec() / 0x1_0000_0000) % 0x1_0000_0000 == self.daddr,
            (self.key_spec() / 0x1_0000_0000_0000_0000) % 0x1_0000_0000 == self.saddr,
            self.key_spec() / 0x1_0000_0000_0000_0000_0000_0000 == self.proto,
    {
        let p = self.proto as int;
        let s = self.saddr as int;
        let d = self.daddr as int;
        let sp = self.sport as int;
        let dp = self.dport as int;
        let k4 = p;
        let k3 = k4 * 0x1_0000_0000 + s;
        let k2 = k3 * 0x1_0000_0000 + d;
        let k1 = k2 * 0x1_0000 + sp;
        let k0 = k1 * 0x1_0000 + dp;
        assert(0 <= k3 < 0x100_0000_0000);
        assert(0 <= k2 < 0x100_0000_0000_0000_0000);
        assert(0 <= k1 < 0x100_0000_0000_0000_0000_0000);
        assert(0 <= k0 < 0x100_0000_0000_0000_0000_0000_0000);
        assert(k0 == p * 0x1_0000_0000_0000_0000_0000_0000 + s * 0x1_0000_0000_0000_0000 + d
            * 0x1_0000_0000 + sp * 0x1_0000 + dp);
        assert(self.key_spec() == k0);
        assert(k0 % 0x1_0000 == dp && k0 / 0x1_0000 == k1);
        assert(k1 % 0x1_0000 == sp && k1 / 0x1_0000 == k2);
        assert(k2 % 0x1_0000_0000 == d && k2 / 0x1_0000_0000 == k3);
        assert(k3 % 0x1_0000_0000 == s && k3 / 0x1_0000_0000 == k4);
        assert(k0 / 0x1_0000_0000 == k2);
        assert(k0 / 0x1_0000_0000_0000_0000 == k3) by {
            assert(k0 == k3 * 0x1_0000_0000_0000_0000 + (d * 0x1_0000_0000 + sp * 0x1_0000 + dp));
            assert(0 <= d * 0x1_0000_0000 + sp * 0x1_0000 + dp < 0x1_0000_0000_0000_0000);
        }
        assert(k0 / 0x1_0000_0000_0000_0000_0000_0000 == k4) by {
            assert(k0 == k4 * 0x1_0000_0000_0000_0000_0000_0000 + (s * 0x1_0000_0000_0000_0000 + d
                * 0x1_0000_0000 + sp * 0x1_0000 + dp));
            assert(0 <= s * 0x1_0000_0000_0000_0000 + d * 0x1_0000_0000 + sp * 0x1_0000 + dp
                < 0x1_0000_0000_0000_0000_0000_0000);
        }
    }

    /// Reversing a tuple twice gives it back, and a reversed tuple is as
    /// valid as the tuple itself. Its key is another one, unless reversing
    /// changes nothing: so a conversation is looked up under both.
    pub proof fn lemma_key_of_reversed(self)
        ensures
            self.reversed_spec().key_spec() == self.key_spec() <==> (self.saddr == self.daddr
                && self.sport == self.dport),
            self.reversed_spec().reversed_spec() == self,
            self.reversed_spec().valid() == self.valid(),
    {
        PacketTuple::lemma_key_injective(self.reversed_spec(), self);
    }

    /// Reading the key of a tuple gives the tuple back.
    pub proof fn lemma_of_key(self)
        ensures
            PacketTuple::of_key(self.key_spec()) == self,
    {
        self.lemma_key_fields();
    }

    /// Two tuples have the same key exactly when they are the same tuple.
    pub proof fn lemma_key_injective(a: PacketTuple, b: PacketTuple)
        ensures
            a.key_spec() == b.key_spec() <==> a == b,
    {
        a.lemma_key_fields();
        b.lemma_key_fields();
    }
}

/// The four octets of the IPv4 address that a 32-bit number stands for, the
/// most significant first.
pub open spec fn ipv4_octets(val: u32) -> [u8; 4] {
    [
        (val / 0x100_0000) as u8,
        ((val / 0x1_0000) % 0x100) as u8,
        ((val / 0x100) % 0x100) as u8,
        (val % 0x100) as u8,
    ]
}

/// The 32-bit number of an IPv4 address given by its four octets.
pub open spec fn ipv4_number(octets: [u8; 4]) -> u32 {
    (octets@[0] * 0x100_0000 + octets@[1] * 0x1_0000 + octets@[2] * 0x100 + octets@[3]) as u32
}

pub fn u32_to_ipv4(val: u32) -> (octets: [u8; 4])
    ensures
        octets == ipv4_octets(val),
{
    let a: u8 = (val / 0x100_0000) as u8;
    let b: u8 = ((val / 0x1_0000) % 0x100) as u8;
    let c: u8 = ((val / 0x100) % 0x100) as u8;
    let d: u8 = (val % 0x100) as u8;
    [a, b, c, d]
}

/// The inverse of `u32_to_ipv4`.
pub fn ipv4_to_u32(octets: [u8; 4]) -> (val: u32)
    ensures
        val == ipv4_number(octets),
{
    (octets[0] as u32) * 0x100_0000 + (octets[1] as u32) * 0x1_0000 + (octets[2] as u32) * 0x100
        + (octets[3] as u32)
}

/// Splitting an address into its octets and joining them again gives the
/// address back.
pub proof fn lemma_ipv4_split_join(val: u32)
    ensures
        ipv4_number(ipv4_octets(val)) == val,
{
    let v = val as int;
    let a = v / 0x100_0000;
    let b = (v / 0x1_0000) % 0x100;
    let c = (v / 0x100) % 0x100;
    let d = v % 0x100;
    assert(0 <= a < 0x100);
    assert(v / 0x100 == (v / 0x1_0000) * 0x100 + c);
    assert(v / 0x1_0000 == a * 0x100 + b);
    assert(v == (v / 0x100) * 0x100 + d);
    assert(ipv4_octets(val)@[0] == a);
    assert(ipv4_octets(val)@[1] == b);
    assert(ipv4_octets(val)@[2] == c);
    assert(ipv4_octets(val)@[3] == d);
}

/// Joining four octets to an address and splitting it again gives the octets
/// back.
pub proof fn lemma_ipv4_join_split(octets: [u8; 4])
    ensures
        ipv4_octets(ipv4_number(octets)) == octets,
{
    let a = octets@[0] as int;
    let b = octets@[1] as int;
    let c = octets@[2] as int;
    let d = octets@[3] as int;
    let v = a * 0x100_0000 + b * 0x1_0000 + c * 0x100 + d;
    assert(0 <= v <= u32::MAX);
    assert(ipv4_number(octets) == v);
    assert(v % 0x100 == d);
    assert(v / 0x100 == a * 0x1_0000 + b * 0x100 + c);
    assert((v / 0x100) % 0x100 == c);
    assert(v / 0x1_0000 == a * 0x100 + b);
    assert((v / 0x1_0000) % 0x100 == b);
    assert(v / 0x100_0000 == a);
    assert(ipv4_octets(v as u32)@ =~= octets@);
    assert(ipv4_octets(v as u32) =~= octets);
}

} // verus!
