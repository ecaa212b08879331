//! Address bookkeeping for the shared bridge network: one record per
//! hostname with a MAC, an IPv4 address, and two independent flags --
//! `allocated` (held by the machine-creation workflow) and `leased`
//! (observed in a DHCP lease). A record survives as long as either flag is
//! set. Addresses are plain `u32` values here; callers translate dotted
//! notation at the edge. Loading, saving and locking the table file is the
//! caller's business: every operation takes the table by `&mut` and states
//! exactly how it changes.

use vstd::prelude::*;

use crate::error::Error;
use crate::text::{dec_chars, hex_pair, push_dec_u64, push_hex_pair};

verus! {

/// The mathematical content of one reservation record.
pub struct NetInfoV {
    pub mac: Seq<char>,
    pub ip: u32,
    pub hostname: Seq<char>,
    pub allocated: bool,
    pub leased: bool,
}

/// One reservation record.
#[derive(Debug)]
pub struct NetInfo {
    mac: String,
    ip: u32,
    hostname: String,
    allocated: bool,
    leased: bool,
}

impl View for NetInfo {
    type V = NetInfoV;

    closed spec fn view(&self) -> NetInfoV {
        NetInfoV {
            mac: self.mac@,
            ip: self.ip,
            hostname: self.hostname@,
            allocated: self.allocated,
            leased: self.leased,
        }
    }
}

impl NetInfo {
    /// Assemble a record from its parts.
    pub fn new(mac: String, ip: u32, hostname: String, allocated: bool, leased: bool) -> (r:
        NetInfo)
        ensures
            r@ == (NetInfoV { mac: mac@, ip, hostname: hostname@, allocated, leased }),
    {
        NetInfo { mac, ip, hostname, allocated, leased }
    }

    /// The record's MAC address text.
    pub fn mac(&self) -> (r: &str)
        ensures
            r@ == self@.mac,
    {
        self.mac.as_str()
    }

    /// The record's IPv4 address.
    pub fn ip(&self) -> (r: u32)
        ensures
            r == self@.ip,
    {
        self.ip
    }

    /// The record's hostname.
    pub fn hostname(&self) -> (r: &str)
        ensures
            r@ == self@.hostname,
    {
        self.hostname.as_str()
    }

    /// Whether the machine-creation workflow holds this address.
    pub fn allocated(&self) -> (r: bool)
        ensures
            r == self@.allocated,
    {
        self.allocated
    }

    /// Whether a DHCP lease for this address has been observed.
    pub fn leased(&self) -> (r: bool)
        ensures
            r == self@.leased,
    {
        self.leased
    }

    /// An identical record.
    fn duplicate(&self) -> (r: NetInfo)
        ensures
            r@ == self@,
    {
        NetInfo {
            mac: self.mac.clone(),
            ip: self.ip,
            hostname: self.hostname.clone(),
            allocated: self.allocated,
            leased: self.leased,
        }
    }
}

/// The managed network: a base address and a prefix length.
#[derive(Debug, Clone, Copy, PartialEq, Eq, Structural)]
pub struct Cidr {
    pub addr: u32,
    pub prefix: u8,
}

/// 2 to the power `e`.
pub open spec fn two_pow(e: nat) -> nat
    decreases e,
{
    if e == 0 {
        1
    } else {
        2 * two_pow((e - 1) as nat)
    }
}

/// A usable network: a prefix short enough to leave host addresses, and a
/// base address aligned on the block it names.
pub open spec fn cidr_wf(c: Cidr) -> bool {
    &&& c.prefix <= 30
    &&& (c.addr as int) % (two_pow((32 - c.prefix) as nat) as int) == 0
}

/// The smallest address the allocator may hand out: the base address,
/// skipping the network address and the first usable address.
pub open spec fn alloc_lo(c: Cidr) -> int {
    c.addr + 2
}

/// The largest address the allocator may hand out: the broadcast address
/// minus one for the last usable address and one more to skip it.
pub open spec fn alloc_hi(c: Cidr) -> int {
    c.addr + two_pow((32 - c.prefix) as nat) - 3
}

/// The mathematical content of the whole table.
pub struct NetStateV {
    pub cidr: Cidr,
    pub reservations: Seq<NetInfoV>,
}

/// The reservation table: the managed network and its records.
#[derive(Debug)]
pub struct NetState {
    cidr: Cidr,
    reservations: Vec<NetInfo>,
}

/// The record sequence a record vector stands for.
pub open spec fn infos_view(s: Seq<NetInfo>) -> Seq<NetInfoV> {
    Seq::new(s.len(), |i: int| s[i]@)
}

impl View for NetState {
    type V = NetStateV;

    closed spec fn view(&self) -> NetStateV {
        NetStateV { cidr: self.cidr, reservations: infos_view(self.reservations@) }
    }
}

/// Index of the first record for `h`, or -1 when there is none.
pub open spec fn first_hostname_index(rs: Seq<NetInfoV>, h: Seq<char>) -> int
    decreases rs.len(),
{
    if rs.len() == 0 {
        -1
    } else if rs[0].hostname == h {
        0
    } else {
        let t = first_hostname_index(rs.drop_first(), h);
        if t == -1 {
            -1
        } else {
            t + 1
        }
    }
}

/// Index of the first record for address `ip`, or -1 when there is none.
pub open spec fn first_ip_index(rs: Seq<NetInfoV>, ip: u32) -> int
    decreases rs.len(),
{
    if rs.len() == 0 {
        -1
    } else if rs[0].ip == ip {
        0
    } else {
        let t = first_ip_index(rs.drop_first(), ip);
        if t == -1 {
            -1
        } else {
            t + 1
        }
    }
}

/// Some record holds address `ip`.
pub open spec fn ip_taken(rs: Seq<NetInfoV>, ip: u32) -> bool {
    exists|i: int| 0 <= i < rs.len() && (#[trigger] rs[i]).ip == ip
}

/// Some record holds MAC `mac`.
pub open spec fn mac_taken(rs: Seq<NetInfoV>, mac: Seq<char>) -> bool {
    exists|i: int| 0 <= i < rs.len() && (#[trigger] rs[i]).mac == mac
}

/// The text of a generated MAC: the fixed locally-administered prefix
/// 00:16:3e, then three generated bytes in lower-case hex.
pub open spec fn mac_chars(b3: u8, b4: u8, b5: u8) -> Seq<char> {
    hex_pair(0x00) + seq![':'] + hex_pair(0x16) + seq![':'] + hex_pair(0x3e) + seq![':']
        + hex_pair(b3) + seq![':'] + hex_pair(b4) + seq![':'] + hex_pair(b5)
}

/// A MAC the generator could have produced: the fixed prefix and three
/// bytes inside the generator's ranges.
pub open spec fn generated_mac(mac: Seq<char>) -> bool {
    exists|b3: u8, b4: u8, b5: u8|
        b3 < 0x7f && b4 < 0xff && b5 < 0xff && mac == #[trigger] mac_chars(b3, b4, b5)
}

/// `n` is the first allocatable address of `c` free in `rs`.
pub open spec fn first_free_in(c: Cidr, rs: Seq<NetInfoV>, n: u32) -> bool {
    &&& alloc_lo(c) <= n <= alloc_hi(c)
    &&& !ip_taken(rs, n)
    &&& forall|m: u32| alloc_lo(c) <= m < n ==> ip_taken(rs, m)
}

/// What a reservation does when a record for the hostname already exists:
/// that first record is marked allocated and returned; nothing else moves.
pub open spec fn reserve_known_post(
    rs0: Seq<NetInfoV>,
    i: int,
    info: NetInfoV,
    rs1: Seq<NetInfoV>,
) -> bool {
    &&& info == (NetInfoV { allocated: true, ..rs0[i] })
    &&& rs1 == rs0.update(i, info)
}

/// What a reservation does for a new hostname: a record with the first
/// free address, a fresh generated MAC, `allocated` set and `leased`
/// clear is appended.
pub open spec fn reserve_fresh_post(
    c: Cidr,
    rs0: Seq<NetInfoV>,
    h: Seq<char>,
    info: NetInfoV,
    rs1: Seq<NetInfoV>,
) -> bool {
    &&& info.hostname == h
    &&& info.allocated
    &&& !info.leased
    &&& first_free_in(c, rs0, info.ip)
    &&& !mac_taken(rs0, info.mac)
    &&& generated_mac(info.mac)
    &&& rs1 == rs0.push(info)
}

/// The full effect of a successful reservation.
pub open spec fn reserve_post(
    c: Cidr,
    rs0: Seq<NetInfoV>,
    h: Seq<char>,
    info: NetInfoV,
    rs1: Seq<NetInfoV>,
) -> bool {
    if first_hostname_index(rs0, h) >= 0 {
        reserve_known_post(rs0, first_hostname_index(rs0, h), info, rs1)
    } else {
        reserve_fresh_post(c, rs0, h, info, rs1)
    }
}

/// The effect of dropping a reservation: the first record for the
/// hostname, if any, loses `allocated`, and disappears entirely unless a
/// lease still holds it.
pub open spec fn remove_post(rs0: Seq<NetInfoV>, h: Seq<char>, rs1: Seq<NetInfoV>) -> bool {
    let i = first_hostname_index(rs0, h);
    if i < 0 {
        rs1 == rs0
    } else if rs0[i].leased {
        rs1 == rs0.update(i, NetInfoV { allocated: false, ..rs0[i] })
    } else {
        rs1 == rs0.remove(i)
    }
}

/// The effect of a lease notification: the first record for the address
/// is marked leased; an address nobody reserved gets a synthesized record
/// so it is not handed out later.
pub open spec fn add_lease_post(
    rs0: Seq<NetInfoV>,
    mac: Seq<char>,
    ip: u32,
    hostname: Option<Seq<char>>,
    rs1: Seq<NetInfoV>,
) -> bool {
    let i = first_ip_index(rs0, ip);
    if i >= 0 {
        rs1 == rs0.update(i, NetInfoV { leased: true, ..rs0[i] })
    } else {
        rs1 == rs0.push(
            NetInfoV {
                mac,
                ip,
                hostname: match hostname {
                    Some(h) => h,
                    None => Seq::empty(),
                },
                allocated: false,
                leased: true,
            },
        )
    }
}

/// The effect of a lease expiry: the first record for the address, if
/// any, loses `leased`, and disappears unless still allocated.
pub open spec fn del_lease_post(rs0: Seq<NetInfoV>, ip: u32, rs1: Seq<NetInfoV>) -> bool {
    let i = first_ip_index(rs0, ip);
    if i < 0 {
        rs1 == rs0
    } else if rs0[i].allocated {
        rs1 == rs0.update(i, NetInfoV { leased: false, ..rs0[i] })
    } else {
        rs1 == rs0.remove(i)
    }
}

/// Relies on rand: `thread_rng().gen_range(lo..hi)` samples uniformly
/// from `[lo, hi)` and panics only when the range is empty.
#[verifier::external_body]
fn random_in(lo: u8, hi: u8) -> (r: u8)
    requires
        lo < hi,
    ensures
        lo <= r < hi,
{
    rand::Rng::gen_range(&mut rand::thread_rng(), lo..hi)
}

/// The colon-separated lower-case hex text of a prefixed MAC.
fn mac_string(b3: u8, b4: u8, b5: u8) -> (r: String)
    ensures
        r@ == mac_chars(b3, b4, b5),
{
    let mut s = String::new();
    push_hex_pair(&mut s, 0x00);
    s.push(':');
    push_hex_pair(&mut s, 0x16);
    s.push(':');
    push_hex_pair(&mut s, 0x3e);
    s.push(':');
    push_hex_pair(&mut s, b3);
    s.push(':');
    push_hex_pair(&mut s, b4);
    s.push(':');
    push_hex_pair(&mut s, b5);
    proof {
        assert(s@ =~= mac_chars(b3, b4, b5));
    }
    s
}

/// Generate a MAC address: the fixed 00:16:3e prefix and three random
/// bytes, in lower-case hex separated by colons.
pub fn generate_mac() -> (r: String)
    ensures
        generated_mac(r@),
{
    let b3 = random_in(0x00, 0x7f);
    let b4 = random_in(0x00, 0xff);
    let b5 = random_in(0x00, 0xff);
    mac_string(b3, b4, b5)
}

/// The first MAC in the generator's range that no record holds, walking
/// the range in order; nothing, when every generated MAC is taken.
fn find_free_mac(rs: &Vec<NetInfo>) -> (r: Option<String>)
    ensures
        match r {
            Some(m) => generated_mac(m@) && !mac_taken(infos_view(rs@), m@),
            None => forall|x3: u8, x4: u8, x5: u8|
                x3 < 0x7f && x4 < 0xff && x5 < 0xff ==> mac_taken(
                    infos_view(rs@),
                    #[trigger] mac_chars(x3, x4, x5),
                ),
        },
{
    let ghost v = infos_view(rs@);
    let mut b3: u8 = 0;
    while b3 < 0x7f
        invariant
            v == infos_view(rs@),
            b3 <= 0x7f,
            forall|x3: u8, x4: u8, x5: u8|
                x3 < b3 && x4 < 0xff && x5 < 0xff ==> mac_taken(v, #[trigger] mac_chars(x3, x4, x5)),
        decreases 0x7f - b3,
    {
        let mut b4: u8 = 0;
        while b4 < 0xff
            invariant
                v == infos_view(rs@),
                b3 < 0x7f,
                b4 <= 0xff,
                forall|x3: u8, x4: u8, x5: u8|
                    x3 < b3 && x4 < 0xff && x5 < 0xff ==> mac_taken(
                        v,
                        #[trigger] mac_chars(x3, x4, x5),
                    ),
                forall|x4: u8, x5: u8|
                    x4 < b4 && x5 < 0xff ==> mac_taken(v, #[trigger] mac_chars(b3, x4, x5)),
            decreases 0xff - b4,
        {
            let mut b5: u8 = 0;
            while b5 < 0xff
                invariant
                    v == infos_view(rs@),
                    b3 < 0x7f,
                    b4 < 0xff,
                    b5 <= 0xff,
                    forall|x5: u8| x5 < b5 ==> mac_taken(v, #[trigger] mac_chars(b3, b4, x5)),
                decreases 0xff - b5,
            {
                let m = mac_string(b3, b4, b5);
                if !mac_in_use(rs, &m) {
                    return Some(m);
                }
                b5 = b5 + 1;
            }
            b4 = b4 + 1;
        }
        b3 = b3 + 1;
    }
    None
}

/// First record index for hostname `h`, scanning from the front.
fn find_by_hostname(rs: &Vec<NetInfo>, h: &String) -> (r: Option<usize>)
    ensures
        match r {
            Some(i) => i < rs@.len() && first_hostname_index(infos_view(rs@), h@) == i,
            None => first_hostname_index(infos_view(rs@), h@) == -1,
        },
{
    let ghost v = infos_view(rs@);
    let mut i: usize = 0;
    while i < rs.len()
        invariant
            0 <= i <= rs@.len(),
            v == infos_view(rs@),
            forall|k: int| 0 <= k < i ==> (#[trigger] v[k]).hostname != h@,
        decreases rs@.len() - i,
    {
        if rs[i].hostname == *h {
            proof {
                lemma_first_hostname_at(v, h@, i as int);
            }
            return Some(i);
        }
        i = i + 1;
    }
    proof {
        lemma_first_hostname_none(v, h@);
    }
    None
}

/// First record index for address `ip`, scanning from the front.
fn find_by_ip(rs: &Vec<NetInfo>, ip: u32) -> (r: Option<usize>)
    ensures
        match r {
            Some(i) => i < rs@.len() && first_ip_index(infos_view(rs@), ip) == i,
            None => first_ip_index(infos_view(rs@), ip) == -1,
        },
{
    let ghost v = infos_view(rs@);
    let mut i: usize = 0;
    while i < rs.len()
        invariant
            0 <= i <= rs@.len(),
            v == infos_view(rs@),
            forall|k: int| 0 <= k < i ==> (#[trigger] v[k]).ip != ip,
        decreases rs@.len() - i,
    {
        if rs[i].ip == ip {
            proof {
                lemma_first_ip_at(v, ip, i as int);
            }
            return Some(i);
        }
        i = i + 1;
    }
    proof {
        lemma_first_ip_none(v, ip);
    }
    None
}

/// Whether some record holds address `ip`.
fn ip_in_use(rs: &Vec<NetInfo>, ip: u32) -> (r: bool)
    ensures
        r == ip_taken(infos_view(rs@), ip),
{
    let ghost v = infos_view(rs@);
    let mut i: usize = 0;
    while i < rs.len()
        invariant
            0 <= i <= rs@.len(),
            v == infos_view(rs@),
            forall|k: int| 0 <= k < i ==> (#[trigger] v[k]).ip != ip,
        decreases rs@.len() - i,
    {
        if rs[i].ip == ip {
            assert(v[i as int].ip == ip);
            return true;
        }
        i = i + 1;
    }
    false
}

/// Whether some record holds MAC `mac`.
fn mac_in_use(rs: &Vec<NetInfo>, mac: &String) -> (r: bool)
    ensures
        r == mac_taken(infos_view(rs@), mac@),
{
    let ghost v = infos_view(rs@);
    let mut i: usize = 0;
    while i < rs.len()
        invariant
            0 <= i <= rs@.len(),
            v == infos_view(rs@),
            forall|k: int| 0 <= k < i ==> (#[trigger] v[k]).mac != mac@,
        decreases rs@.len() - i,
    {
        if rs[i].mac == *mac {
            assert(v[i as int].mac == mac@);
            return true;
        }
        i = i + 1;
    }
    false
}

/// A scan that stops at the first match finds the first index.
proof fn lemma_first_hostname_at(rs: Seq<NetInfoV>, h: Seq<char>, i: int)
    requires
        0 <= i < rs.len(),
        rs[i].hostname == h,
        forall|k: int| 0 <= k < i ==> (#[trigger] rs[k]).hostname != h,
    ensures
        first_hostname_index(rs, h) == i,
    decreases rs.len(),
{
    if i == 0 {
    } else {
        let t = rs.drop_first();
        assert forall|k: int| 0 <= k < i - 1 implies (#[trigger] t[k]).hostname != h by {
            assert(t[k] == rs[k + 1]);
        }
        assert(t[i - 1] == rs[i]);
        lemma_first_hostname_at(t, h, i - 1);
    }
}

/// A scan that matches nothing means there is no first index.
proof fn lemma_first_hostname_none(rs: Seq<NetInfoV>, h: Seq<char>)
    requires
        forall|k: int| 0 <= k < rs.len() ==> (#[trigger] rs[k]).hostname != h,
    ensures
        first_hostname_index(rs, h) == -1,
    decreases rs.len(),
{
    if rs.len() > 0 {
        let t = rs.drop_first();
        assert forall|k: int| 0 <= k < t.len() implies (#[trigger] t[k]).hostname != h by {
            assert(t[k] == rs[k + 1]);
        }
        lemma_first_hostname_none(t, h);
    }
}

/// A scan that stops at the first match finds the first index.
proof fn lemma_first_ip_at(rs: Seq<NetInfoV>, ip: u32, i: int)
    requires
        0 <= i < rs.len(),
        rs[i].ip == ip,
        forall|k: int| 0 <= k < i ==> (#[trigger] rs[k]).ip != ip,
    ensures
        first_ip_index(rs, ip) == i,
    decreases rs.len(),
{
    if i == 0 {
    } else {
        let t = rs.drop_first();
        assert forall|k: int| 0 <= k < i - 1 implies (#[trigger] t[k]).ip != ip by {
            assert(t[k] == rs[k + 1]);
        }
        assert(t[i - 1] == rs[i]);
        lemma_first_ip_at(t, ip, i - 1);
    }
}

/// A scan that matches nothing means there is no first index.
proof fn lemma_first_ip_none(rs: Seq<NetInfoV>, ip: u32)
    requires
        forall|k: int| 0 <= k < rs.len() ==> (#[trigger] rs[k]).ip != ip,
    ensures
        first_ip_index(rs, ip) == -1,
    decreases rs.len(),
{
    if rs.len() > 0 {
        let t = rs.drop_first();
        assert forall|k: int| 0 <= k < t.len() implies (#[trigger] t[k]).ip != ip by {
            assert(t[k] == rs[k + 1]);
        }
        lemma_first_ip_none(t, ip);
    }
}

impl NetState {
    /// A fresh table for the fixed management network 172.20.0.0/24.
    pub fn new() -> (r: NetState)
        ensures
            r@.cidr == (Cidr { addr: 0xAC140000, prefix: 24 }),
            r@.reservations =~= Seq::<NetInfoV>::empty(),
            cidr_wf(r@.cidr),
    {
        let c = Cidr { addr: 0xAC140000, prefix: 24 };
        proof {
            lemma_fixed_cidr_wf();
        }
        NetState { cidr: c, reservations: Vec::new() }
    }

    /// Assemble a table from its parts, as read back from disk.
    pub fn from_parts(cidr: Cidr, reservations: Vec<NetInfo>) -> (r: NetState)
        ensures
            r@.cidr == cidr,
            r@.reservations == infos_view(reservations@),
    {
        NetState { cidr, reservations }
    }

    /// The managed network.
    pub fn cidr(&self) -> (r: Cidr)
        ensures
            r == self@.cidr,
    {
        self.cidr
    }

    /// The records, for serialization and display.
    pub fn reservations(&self) -> (r: &Vec<NetInfo>)
        ensures
            infos_view(r@) == self@.reservations,
    {
        &self.reservations
    }

    /// Whether the stored network is usable for allocation.
    pub fn cidr_ok(&self) -> (r: bool)
        ensures
            r == cidr_wf(self@.cidr),
    {
        if self.cidr.prefix > 30 {
            return false;
        }
        let block = two_pow_exec(32 - self.cidr.prefix as u32);
        proof {
            lemma_two_pow_monotone(0, (32 - self.cidr.prefix) as nat);
        }
        (self.cidr.addr as u64) % block == 0
    }
}

/// 2 to the power `e`, executable.
fn two_pow_exec(e: u32) -> (r: u64)
    requires
        e <= 32,
    ensures
        r == two_pow(e as nat),
    decreases e,
{
    proof {
        lemma_two_pow_monotone(e as nat, 32);
        lemma_two_pow_32();
    }
    if e == 0 {
        1
    } else {
        let half = two_pow_exec(e - 1);
        proof {
            lemma_two_pow_monotone((e - 1) as nat, 32);
        }
        2 * half
    }
}

/// The full 32-bit block size, as a number.
proof fn lemma_two_pow_32()
    ensures
        two_pow(32) == 0x100000000,
{
    reveal_with_fuel(two_pow, 9);
    assert(two_pow(8) == 256);
    lemma_two_pow_add(8, 8);
    assert(two_pow(16) == 65536);
    lemma_two_pow_add(16, 16);
}

/// Powers of two grow with the exponent.
proof fn lemma_two_pow_monotone(a: nat, b: nat)
    requires
        a <= b,
    ensures
        two_pow(a) <= two_pow(b),
    decreases b,
{
    if a < b {
        lemma_two_pow_monotone(a, (b - 1) as nat);
    }
}

/// Powers of two multiply when exponents add.
proof fn lemma_two_pow_add(a: nat, b: nat)
    ensures
        two_pow(a + b) == two_pow(a) * two_pow(b),
    decreases a,
{
    if a == 0 {
        assert(two_pow(0) == 1);
    } else {
        let a1 = (a - 1) as nat;
        lemma_two_pow_add(a1, b);
        assert(a + b == (a1 + b) + 1);
        assert(two_pow(a1 + b + 1) == 2 * two_pow(a1 + b));
        assert(two_pow(a) == 2 * two_pow(a1));
        assert(2 * (two_pow(a1) * two_pow(b)) == (2 * two_pow(a1)) * two_pow(b))
            by (nonlinear_arith);
    }
}

/// The fixed management network is well formed.
proof fn lemma_fixed_cidr_wf()
    ensures
        cidr_wf(Cidr { addr: 0xAC140000, prefix: 24 }),
{
    reveal_with_fuel(two_pow, 9);
    assert(two_pow(8) == 256);
    assert(0xAC140000int % 256 == 0);
}

/// An aligned block lies inside the 32-bit address space.
proof fn lemma_block_fits(c: Cidr)
    requires
        cidr_wf(c),
    ensures
        c.addr + two_pow((32 - c.prefix) as nat) <= 0x100000000,
{
    let b = two_pow((32 - c.prefix) as nat) as int;
    let m = two_pow(c.prefix as nat) as int;
    lemma_two_pow_add(c.prefix as nat, (32 - c.prefix) as nat);
    lemma_two_pow_32();
    assert(m * b == 0x100000000);
    assert(b >= 1);
    let q = (c.addr as int) / b;
    vstd::arithmetic::div_mod::lemma_fundamental_div_mod(c.addr as int, b);
    assert(c.addr as int == q * b);
    assert(q >= 0) by (nonlinear_arith)
        requires
            c.addr as int == q * b,
            c.addr >= 0,
            b >= 1,
    ;
    assert(q < m) by (nonlinear_arith)
        requires
            c.addr as int == q * b,
            c.addr < 0x100000000,
            m * b == 0x100000000,
            b >= 1,
            q >= 0,
    ;
    assert((q + 1) * b <= m * b) by (nonlinear_arith)
        requires
            q + 1 <= m,
            b >= 1,
    ;
    assert((q + 1) * b == q * b + b) by (nonlinear_arith);
}

impl NetState {
    /// Reserve an address for `hostname`.
    ///
    /// An existing record for the hostname is re-used unchanged apart from
    /// its `allocated` flag, so repeating a reservation returns the same
    /// address and MAC. Otherwise the first free allocatable address and a
    /// fresh random MAC make a new record. When every allocatable address
    /// is taken, the table is left alone and the capacity error is
    /// returned.
    pub fn new_reservation(&mut self, hostname: &str) -> (r: Result<NetInfo, Error>)
        requires
            cidr_wf(old(self)@.cidr) || first_hostname_index(
                old(self)@.reservations,
                hostname@,
            ) >= 0,
        ensures
            final(self)@.cidr == old(self)@.cidr,
            match r {
                Ok(info) => reserve_post(
                    old(self)@.cidr,
                    old(self)@.reservations,
                    hostname@,
                    info@,
                    final(self)@.reservations,
                ),
                Err(e) => {
                    &&& e == Error::Capacity
                    &&& final(self)@ == old(self)@
                    &&& first_hostname_index(old(self)@.reservations, hostname@) == -1
                    &&& {
                        ||| forall|m: u32|
                            alloc_lo(old(self)@.cidr) <= m <= alloc_hi(old(self)@.cidr)
                                ==> ip_taken(old(self)@.reservations, m)
                        ||| forall|x3: u8, x4: u8, x5: u8|
                            x3 < 0x7f && x4 < 0xff && x5 < 0xff ==> mac_taken(
                                old(self)@.reservations,
                                #[trigger] mac_chars(x3, x4, x5),
                            )
                    }
                },
            },
    {
        let ghost rs0 = infos_view(self.reservations@);
        let h = hostname.to_owned();
        match find_by_hostname(&self.reservations, &h) {
            Some(i) => {
                let mut el = self.reservations.remove(i);
                el.allocated = true;
                let out = el.duplicate();
                self.reservations.insert(i, el);
                proof {
                    assert(infos_view(self.reservations@) =~= rs0.update(i as int, out@));
                }
                Ok(out)
            },
            None => {
                let c = self.cidr;
                proof {
                    lemma_block_fits(c);
                }
                let block = two_pow_exec(32 - c.prefix as u32);
                let lo: u64 = c.addr as u64 + 2;
                if block < 6 || lo > c.addr as u64 + block - 3 {
                    // the block has no allocatable addresses at all
                    assert(alloc_lo(c) > alloc_hi(c));
                    return Err(Error::Capacity);
                }
                let hi: u64 = c.addr as u64 + block - 3;
                let mut n: u64 = lo;
                let mut free: Option<u32> = None;
                while n <= hi
                    invariant_except_break
                        lo <= n <= hi + 1,
                        free is None,
                        forall|m: u32| lo <= m < n ==> ip_taken(rs0, m),
                    invariant
                        hi < 0x100000000,
                        lo == alloc_lo(c),
                        hi == alloc_hi(c),
                        rs0 == infos_view(self.reservations@),
                    ensures
                        match free {
                            Some(f) => first_free_in(c, rs0, f),
                            None => forall|m: u32| lo <= m <= hi ==> ip_taken(rs0, m),
                        },
                    decreases hi + 1 - n,
                {
                    if !ip_in_use(&self.reservations, n as u32) {
                        free = Some(n as u32);
                        break ;
                    }
                    n = n + 1;
                }
                let picked: u32 = match free {
                    Some(f) => f,
                    None => {
                        return Err(Error::Capacity);
                    },
                };
                let mut mac = generate_mac();
                let mut tries: u32 = 0;
                loop
                    invariant_except_break
                        generated_mac(mac@),
                        tries <= 32,
                        rs0 == infos_view(self.reservations@),
                    ensures
                        generated_mac(mac@),
                        rs0 == infos_view(self.reservations@),
                    decreases 32 - tries,
                {
                    if tries >= 32 {
                        break ;
                    }
                    if !mac_in_use(&self.reservations, &mac) {
                        break ;
                    }
                    mac = generate_mac();
                    tries = tries + 1;
                }
                if mac_in_use(&self.reservations, &mac) {
                    // random draws kept colliding: walk the space instead
                    match find_free_mac(&self.reservations) {
                        Some(m) => {
                            mac = m;
                        },
                        None => {
                            return Err(Error::Capacity);
                        },
                    }
                }
                let el = NetInfo {
                    mac,
                    ip: picked,
                    hostname: h,
                    allocated: true,
                    leased: false,
                };
                let out = el.duplicate();
                self.reservations.push(el);
                proof {
                    assert(infos_view(self.reservations@) =~= rs0.push(out@));
                }
                Ok(out)
            },
        }
    }

    /// Drop the reservation for `hostname`: the record loses `allocated`
    /// and is purged unless a lease still holds it. A hostname with no
    /// record is not an error.
    pub fn remove_reservation(&mut self, hostname: &str) -> (r: Result<(), Error>)
        ensures
            final(self)@.cidr == old(self)@.cidr,
            r == Ok::<(), Error>(()),
            remove_post(old(self)@.reservations, hostname@, final(self)@.reservations),
    {
        let ghost rs0 = infos_view(self.reservations@);
        let h = hostname.to_owned();
        match find_by_hostname(&self.reservations, &h) {
            Some(i) => {
                let mut el = self.reservations.remove(i);
                el.allocated = false;
                if el.leased {
                    let ghost elv = el@;
                    self.reservations.insert(i, el);
                    proof {
                        assert(infos_view(self.reservations@) =~= rs0.update(i as int, elv));
                    }
                } else {
                    proof {
                        assert(infos_view(self.reservations@) =~= rs0.remove(i as int));
                    }
                }
                Ok(())
            },
            None => {
                // nothing to remove: de-reservation is best-effort
                Ok(())
            },
        }
    }

    /// Record a DHCP lease for `ip`: the record holding the address is
    /// marked leased; an unknown address gets a synthesized record so the
    /// allocator will not hand it out.
    pub fn add_lease(&mut self, mac: &str, ip: u32, hostname: Option<String>) -> (r: Result<
        (),
        Error,
    >)
        ensures
            final(self)@.cidr == old(self)@.cidr,
            r == Ok::<(), Error>(()),
            add_lease_post(
                old(self)@.reservations,
                mac@,
                ip,
                match hostname {
                    Some(h) => Some(h@),
                    None => None,
                },
                final(self)@.reservations,
            ),
    {
        let ghost rs0 = infos_view(self.reservations@);
        match find_by_ip(&self.reservations, ip) {
            Some(i) => {
                let mut el = self.reservations.remove(i);
                el.leased = true;
                let ghost elv = el@;
                self.reservations.insert(i, el);
                proof {
                    assert(infos_view(self.reservations@) =~= rs0.update(i as int, elv));
                }
                Ok(())
            },
            None => {
                let host = match hostname {
                    Some(name) => name,
                    None => String::new(),
                };
                let el = NetInfo {
                    mac: mac.to_owned(),
                    ip,
                    hostname: host,
                    allocated: false,
                    leased: true,
                };
                let ghost elv = el@;
                self.reservations.push(el);
                proof {
                    assert(infos_view(self.reservations@) =~= rs0.push(elv));
                }
                Ok(())
            },
        }
    }

    /// Record a DHCP lease expiry for `ip`: the record holding the
    /// address loses `leased` and is purged unless still allocated.
    pub fn del_lease(&mut self, _mac: &str, ip: u32, _hostname: Option<String>) -> (r: Result<
        (),
        Error,
    >)
        ensures
            final(self)@.cidr == old(self)@.cidr,
            r == Ok::<(), Error>(()),
            del_lease_post(old(self)@.reservations, ip, final(self)@.reservations),
    {
        let ghost rs0 = infos_view(self.reservations@);
        match find_by_ip(&self.reservations, ip) {
            Some(i) => {
                let mut el = self.reservations.remove(i);
                el.leased = false;
                if el.allocated {
                    let ghost elv = el@;
                    self.reservations.insert(i, el);
                    proof {
                        assert(infos_view(self.reservations@) =~= rs0.update(i as int, elv));
                    }
                } else {
                    proof {
                        assert(infos_view(self.reservations@) =~= rs0.remove(i as int));
                    }
                }
                Ok(())
            },
            None => Ok(()),
        }
    }
}


/// What a first-index result means: -1 when no record matches, otherwise
/// the position of the first matching record.
pub proof fn lemma_first_hostname_spec(rs: Seq<NetInfoV>, h: Seq<char>)
    ensures
        first_hostname_index(rs, h) == -1 ==> forall|k: int|
            0 <= k < rs.len() ==> (#[trigger] rs[k]).hostname != h,
        first_hostname_index(rs, h) != -1 ==> {
            let i = first_hostname_index(rs, h);
            &&& 0 <= i < rs.len()
            &&& rs[i].hostname == h
            &&& forall|k: int| 0 <= k < i ==> (#[trigger] rs[k]).hostname != h
        },
    decreases rs.len(),
{
    if rs.len() > 0 && rs[0].hostname != h {
        let t = rs.drop_first();
        lemma_first_hostname_spec(t, h);
        assert forall|k: int| 1 <= k < rs.len() implies rs[k] == t[k - 1] by {}
    }
}

/// What a first-index result means, for lookup by address.
pub proof fn lemma_first_ip_spec(rs: Seq<NetInfoV>, ip: u32)
    ensures
        first_ip_index(rs, ip) == -1 ==> forall|k: int|
            0 <= k < rs.len() ==> (#[trigger] rs[k]).ip != ip,
        first_ip_index(rs, ip) != -1 ==> {
            let i = first_ip_index(rs, ip);
            &&& 0 <= i < rs.len()
            &&& rs[i].ip == ip
            &&& forall|k: int| 0 <= k < i ==> (#[trigger] rs[k]).ip != ip
        },
    decreases rs.len(),
{
    if rs.len() > 0 && rs[0].ip != ip {
        let t = rs.drop_first();
        lemma_first_ip_spec(t, ip);
        assert forall|k: int| 1 <= k < rs.len() implies rs[k] == t[k - 1] by {}
    }
}

/// Tables whose records carry the same hostnames, position by position,
/// give the same first index for every hostname.
proof fn lemma_first_hostname_same(rs1: Seq<NetInfoV>, rs2: Seq<NetInfoV>, h: Seq<char>)
    requires
        rs1.len() == rs2.len(),
        forall|k: int| 0 <= k < rs1.len() ==> (#[trigger] rs1[k]).hostname == rs2[k].hostname,
    ensures
        first_hostname_index(rs1, h) == first_hostname_index(rs2, h),
    decreases rs1.len(),
{
    if rs1.len() > 0 {
        let t1 = rs1.drop_first();
        let t2 = rs2.drop_first();
        assert forall|k: int| 0 <= k < t1.len() implies (#[trigger] t1[k]).hostname
            == t2[k].hostname by {
            assert(t1[k] == rs1[k + 1]);
            assert(t2[k] == rs2[k + 1]);
        }
        lemma_first_hostname_same(t1, t2, h);
    }
}

/// Tables whose records carry the same addresses, position by position,
/// give the same first index for every address.
proof fn lemma_first_ip_same(rs1: Seq<NetInfoV>, rs2: Seq<NetInfoV>, ip: u32)
    requires
        rs1.len() == rs2.len(),
        forall|k: int| 0 <= k < rs1.len() ==> (#[trigger] rs1[k]).ip == rs2[k].ip,
    ensures
        first_ip_index(rs1, ip) == first_ip_index(rs2, ip),
    decreases rs1.len(),
{
    if rs1.len() > 0 {
        let t1 = rs1.drop_first();
        let t2 = rs2.drop_first();
        assert forall|k: int| 0 <= k < t1.len() implies (#[trigger] t1[k]).ip == t2[k].ip by {
            assert(t1[k] == rs1[k + 1]);
            assert(t2[k] == rs2[k + 1]);
        }
        lemma_first_ip_same(t1, t2, ip);
    }
}

/// Law: reservations for two hostnames new to the table receive distinct
/// addresses and distinct MACs, and both addresses lie in the allocatable
/// range of the network -- inside the prefix block, past the first usable
/// address and short of the last.
pub proof fn lemma_reservations_disjoint(
    c: Cidr,
    rs0: Seq<NetInfoV>,
    h1: Seq<char>,
    info1: NetInfoV,
    rs1: Seq<NetInfoV>,
    h2: Seq<char>,
    info2: NetInfoV,
    rs2: Seq<NetInfoV>,
)
    requires
        h1 != h2,
        first_hostname_index(rs0, h1) == -1,
        first_hostname_index(rs0, h2) == -1,
        reserve_post(c, rs0, h1, info1, rs1),
        reserve_post(c, rs1, h2, info2, rs2),
    ensures
        info1.ip != info2.ip,
        info1.mac != info2.mac,
        alloc_lo(c) <= info1.ip <= alloc_hi(c),
        alloc_lo(c) <= info2.ip <= alloc_hi(c),
{
    lemma_first_hostname_spec(rs0, h1);
    lemma_first_hostname_spec(rs0, h2);
    let n0 = rs0.len() as int;
    assert(rs1 == rs0.push(info1));
    assert forall|k: int| 0 <= k < rs1.len() implies (#[trigger] rs1[k]).hostname != h2 by {
        if k < n0 {
            assert(rs1[k] == rs0[k]);
        } else {
            assert(rs1[k] == info1);
        }
    }
    lemma_first_hostname_none(rs1, h2);
    assert(reserve_fresh_post(c, rs1, h2, info2, rs2));
    assert(rs1[n0] == info1);
    assert(ip_taken(rs1, info1.ip));
    assert(mac_taken(rs1, info1.mac));
}

/// Law: reserving the same hostname twice, with no removal in between,
/// returns the very same record both times, and the second call leaves
/// the table exactly as the first left it.
pub proof fn lemma_reservation_idempotent(
    c: Cidr,
    rs0: Seq<NetInfoV>,
    h: Seq<char>,
    info1: NetInfoV,
    rs1: Seq<NetInfoV>,
    info2: NetInfoV,
    rs2: Seq<NetInfoV>,
)
    requires
        reserve_post(c, rs0, h, info1, rs1),
        reserve_post(c, rs1, h, info2, rs2),
    ensures
        info2 == info1,
        rs2 == rs1,
{
    lemma_first_hostname_spec(rs0, h);
    let i = first_hostname_index(rs0, h);
    if i >= 0 {
        assert(rs1 == rs0.update(i, info1));
        assert forall|k: int| 0 <= k < rs1.len() implies (#[trigger] rs1[k]).hostname
            == rs0[k].hostname by {
            if k == i {
                assert(rs1[k] == info1);
            }
        }
        lemma_first_hostname_same(rs1, rs0, h);
        assert(first_hostname_index(rs1, h) == i);
        assert(rs1[i] == info1);
        assert(info2 == (NetInfoV { allocated: true, ..info1 }));
        assert(info2 == info1);
        assert(rs2 == rs1.update(i, info2));
        assert(rs2 =~= rs1);
    } else {
        let n0 = rs0.len() as int;
        assert(rs1 == rs0.push(info1));
        assert(rs1[n0] == info1);
        assert(info1.hostname == h);
        assert forall|k: int| 0 <= k < n0 implies (#[trigger] rs1[k]).hostname != h by {
            assert(rs1[k] == rs0[k]);
        }
        lemma_first_hostname_at(rs1, h, n0);
        assert(first_hostname_index(rs1, h) == n0);
        assert(info2 == (NetInfoV { allocated: true, ..info1 }));
        assert(info2 == info1);
        assert(rs2 == rs1.update(n0, info2));
        assert(rs2 =~= rs1);
    }
}

/// Law: a lease keeps a record alive through de-reservation. After
/// reserving a new hostname, recording a lease on its address, and then
/// removing the reservation, the record is still in the table -- leased,
/// no longer allocated; a following lease removal purges it entirely.
pub proof fn lemma_lease_outlives_reservation(
    c: Cidr,
    rs0: Seq<NetInfoV>,
    h: Seq<char>,
    info: NetInfoV,
    rs1: Seq<NetInfoV>,
    hn: Option<Seq<char>>,
    rs2: Seq<NetInfoV>,
    rs3: Seq<NetInfoV>,
    rs4: Seq<NetInfoV>,
)
    requires
        first_hostname_index(rs0, h) == -1,
        reserve_post(c, rs0, h, info, rs1),
        add_lease_post(rs1, info.mac, info.ip, hn, rs2),
        remove_post(rs2, h, rs3),
        del_lease_post(rs3, info.ip, rs4),
    ensures
        ip_taken(rs3, info.ip),
        exists|j: int|
            0 <= j < rs3.len() && (#[trigger] rs3[j]).ip == info.ip && rs3[j].leased
                && !rs3[j].allocated,
        !ip_taken(rs4, info.ip),
{
    lemma_first_hostname_spec(rs0, h);
    let n0 = rs0.len() as int;
    assert(reserve_fresh_post(c, rs0, h, info, rs1));
    assert(rs1 == rs0.push(info));
    assert(rs1[n0] == info);

    // the lease lands on the reserved record
    assert forall|k: int| 0 <= k < n0 implies (#[trigger] rs1[k]).ip != info.ip by {
        assert(rs1[k] == rs0[k]);
    }
    lemma_first_ip_at(rs1, info.ip, n0);
    let leased = NetInfoV { leased: true, ..info };
    assert(rs2 == rs1.update(n0, leased));

    // the de-reservation finds the same record, now leased, and keeps it
    assert forall|k: int| 0 <= k < rs2.len() implies (#[trigger] rs2[k]).hostname
        == rs1[k].hostname by {
        if k == n0 {
            assert(rs2[k] == leased);
        }
    }
    assert forall|k: int| 0 <= k < n0 implies (#[trigger] rs2[k]).hostname != h by {
        assert(rs2[k].hostname == rs1[k].hostname);
        assert(rs1[k] == rs0[k]);
    }
    assert(rs2[n0].hostname == h);
    lemma_first_hostname_at(rs2, h, n0);
    assert(rs2[n0].leased);
    let retained = NetInfoV { allocated: false, ..rs2[n0] };
    assert(rs3 == rs2.update(n0, retained));
    assert(rs3[n0] == retained);
    assert(rs3[n0].ip == info.ip && rs3[n0].leased && !rs3[n0].allocated);

    // the lease removal purges it
    assert forall|k: int| 0 <= k < n0 implies (#[trigger] rs3[k]).ip != info.ip by {
        assert(rs3[k] == rs2[k]);
        assert(rs2[k] == rs1[k]);
        assert(rs1[k] == rs0[k]);
    }
    lemma_first_ip_at(rs3, info.ip, n0);
    assert(!rs3[n0].allocated);
    assert(rs4 == rs3.remove(n0));
    assert(rs4.len() == n0);
    assert forall|j: int| 0 <= j < rs4.len() implies (#[trigger] rs4[j]).ip != info.ip by {
        assert(rs4[j] == rs3[j]);
        assert(rs3[j] == rs1[j]);
        assert(rs1[j] == rs0[j]);
    }
}


/// The dotted decimal text of an IPv4 address.
pub open spec fn ipv4_chars(n: u32) -> Seq<char> {
    dec_chars((n / 0x1000000) as nat) + seq!['.'] + dec_chars(((n / 0x10000) % 0x100) as nat)
        + seq!['.'] + dec_chars(((n / 0x100) % 0x100) as nat) + seq!['.'] + dec_chars(
        (n % 0x100) as nat,
    )
}

/// Write an IPv4 address in dotted decimal.
pub fn ipv4_string(n: u32) -> (r: String)
    ensures
        r@ == ipv4_chars(n),
{
    let mut s = String::new();
    push_dec_u64(&mut s, (n / 0x1000000) as u64);
    s.push('.');
    push_dec_u64(&mut s, ((n / 0x10000) % 0x100) as u64);
    s.push('.');
    push_dec_u64(&mut s, ((n / 0x100) % 0x100) as u64);
    s.push('.');
    push_dec_u64(&mut s, (n % 0x100) as u64);
    proof {
        assert(s@ =~= ipv4_chars(n));
    }
    s
}


/// Law: a live lease survives de-reservation on its own: when the first
/// record for a hostname is leased, dropping the reservation keeps the
/// table's length, and that record keeps its MAC, address and lease,
/// losing only `allocated`.
pub proof fn lemma_remove_keeps_leased(rs0: Seq<NetInfoV>, h: Seq<char>, rs1: Seq<NetInfoV>)
    requires
        remove_post(rs0, h, rs1),
        first_hostname_index(rs0, h) >= 0,
        rs0[first_hostname_index(rs0, h)].leased,
    ensures
        rs1.len() == rs0.len(),
        ({
            let i = first_hostname_index(rs0, h);
            &&& rs1[i].mac == rs0[i].mac
            &&& rs1[i].ip == rs0[i].ip
            &&& rs1[i].hostname == h
            &&& !rs1[i].allocated
            &&& rs1[i].leased
        }),
{
    lemma_first_hostname_spec(rs0, h);
    let i = first_hostname_index(rs0, h);
    assert(rs1 == rs0.update(i, NetInfoV { allocated: false, ..rs0[i] }));
    assert(rs1[i] == (NetInfoV { allocated: false, ..rs0[i] }));
}

/// Law: ending the last signal purges the address: when exactly one
/// record carries an address and it is no longer allocated, a lease
/// removal leaves no record with that address at all.
pub proof fn lemma_del_lease_purges(rs0: Seq<NetInfoV>, ip: u32, rs1: Seq<NetInfoV>)
    requires
        del_lease_post(rs0, ip, rs1),
        first_ip_index(rs0, ip) >= 0,
        !rs0[first_ip_index(rs0, ip)].allocated,
        forall|k: int|
            0 <= k < rs0.len() && (#[trigger] rs0[k]).ip == ip ==> k == first_ip_index(rs0, ip),
    ensures
        !ip_taken(rs1, ip),
{
    lemma_first_ip_spec(rs0, ip);
    let i = first_ip_index(rs0, ip);
    assert(rs1 == rs0.remove(i));
    assert forall|j: int| 0 <= j < rs1.len() implies (#[trigger] rs1[j]).ip != ip by {
        if j < i {
            assert(rs1[j] == rs0[j]);
        } else {
            assert(rs1[j] == rs0[j + 1]);
        }
    }
}

} // verus!
