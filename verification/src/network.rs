//! The container network: IPv4 addresses as text, the address range the
//! bridge hands out for a subnet, and the address a CNI result gives a
//! container.

use vstd::prelude::*;
use crate::rootfs::{char_views, hex_char, split_on, split_text};
use crate::text::{
    all_digits, chars_of, debug_quoted, debug_text, decimal, digit_char, digits_value, first_index,
    find_first, lemma_first_index_is,
    is_digit, lemma_decimal_value, slice_chars, string_of, u64_text,
};

verus! {

/// One decimal octet as `Ipv4Addr::from_str` reads it: one to three
/// digits, no leading zero, at most 255.
pub open spec fn octet_ok(d: Seq<char>) -> bool {
    &&& 1 <= d.len() <= 3
    &&& all_digits(d)
    &&& (d.len() == 1 || d[0] != '0')
    &&& digits_value(d) <= 255
}

/// The address that dotted-quad text writes, where it is one.
pub open spec fn parsed_ipv4(s: Seq<char>) -> Option<u32> {
    let p = split_on(s, '.');
    if p.len() == 4 && octet_ok(p[0]) && octet_ok(p[1]) && octet_ok(p[2]) && octet_ok(p[3]) {
        Some(
            (digits_value(p[0]) * 16777216 + digits_value(p[1]) * 65536 + digits_value(p[2])
                * 256 + digits_value(p[3])) as u32,
        )
    } else {
        None
    }
}

fn parse_octet(d: &[char]) -> (r: Option<u32>)
    ensures
        octet_ok(d@) ==> r == Some(digits_value(d@) as u32),
        !octet_ok(d@) ==> r is None,
{
    if d.len() < 1 || d.len() > 3 {
        return None;
    }
    if d.len() > 1 && d[0] == '0' {
        return None;
    }
    let mut v: u32 = 0;
    let mut i: usize = 0;
    while i < d.len()
        invariant
            1 <= d@.len() <= 3,
            i <= d@.len(),
            forall|j: int| 0 <= j < i ==> is_digit(#[trigger] d@[j]),
            v as nat == digits_value(d@.take(i as int)),
            v < 1000,
            i == 0 ==> v == 0,
            i == 1 ==> v < 10,
            i == 2 ==> v < 100,
        decreases d.len() - i,
    {
        let c = d[i];
        if !('0' <= c && c <= '9') {
            assert(!is_digit(d@[i as int]));
            return None;
        }
        proof {
            let t = d@.take(i + 1);
            assert(t.drop_last() =~= d@.take(i as int));
            assert(t.last() == c);
        }
        v = v * 10 + (c as u32 - 48);
        i = i + 1;
    }
    assert(d@.take(d@.len() as int) =~= d@);
    if v > 255 {
        None
    } else {
        Some(v)
    }
}

/// Reads dotted-quad IPv4 text (`Ipv4Addr::from_str`).
pub fn parse_ipv4(text: &str) -> (r: Option<u32>)
    ensures
        r == parsed_ipv4(text@),
{
    let chars = chars_of(text);
    let parts = split_text(chars.as_slice(), '.');
    let ghost p = char_views(parts@);
    if parts.len() != 4 {
        return None;
    }
    assert(p[0] == parts@[0]@ && p[1] == parts@[1]@ && p[2] == parts@[2]@ && p[3] == parts@[3]@);
    let a = match parse_octet(parts[0].as_slice()) {
        Some(a) => a,
        None => return None,
    };
    let b = match parse_octet(parts[1].as_slice()) {
        Some(b) => b,
        None => return None,
    };
    let c = match parse_octet(parts[2].as_slice()) {
        Some(c) => c,
        None => return None,
    };
    let d = match parse_octet(parts[3].as_slice()) {
        Some(d) => d,
        None => return None,
    };
    Some(a * 16777216 + b * 65536 + c * 256 + d)
}

/// An address in dotted-quad form (`Ipv4Addr`'s `Display`).
pub open spec fn ipv4_text(a: u32) -> Seq<char> {
    decimal((a / 16777216) as nat) + "."@ + decimal(((a / 65536) % 256) as nat) + "."@ + decimal(
        ((a / 256) % 256) as nat,
    ) + "."@ + decimal((a % 256) as nat)
}

pub fn ipv4_to_string(a: u32) -> (s: String)
    ensures
        s@ == ipv4_text(a),
{
    let mut s = u64_text((a / 16777216) as u64);
    s.append(".");
    let t = u64_text(((a / 65536) % 256) as u64);
    s.append(t.as_str());
    s.append(".");
    let t = u64_text(((a / 256) % 256) as u64);
    s.append(t.as_str());
    s.append(".");
    let t = u64_text((a % 256) as u64);
    s.append(t.as_str());
    s
}

/// Digits followed by a dot split off as one piece.
proof fn lemma_split_after_digits(d: Seq<char>, rest: Seq<char>)
    requires
        all_digits(d),
    ensures
        split_on(d + seq!['.'] + rest, '.') == seq![d] + split_on(rest, '.'),
{
    let s = d + seq!['.'] + rest;
    assert forall|j: int| 0 <= j < d.len() implies s[j] != '.' by {
        assert(s[j] == d[j]);
        assert(is_digit(d[j]));
    }
    lemma_first_index_is(s, '.', d.len() as int);
    assert(s.take(d.len() as int) =~= d);
    assert(s.skip(d.len() as int + 1) =~= rest);
}

/// Digits alone are one piece.
proof fn lemma_split_digits(d: Seq<char>)
    requires
        all_digits(d),
    ensures
        split_on(d, '.') == seq![d],
{
    assert forall|j: int| 0 <= j < d.len() implies d[j] != '.' by {
        assert(is_digit(d[j]));
    }
    lemma_first_index_is(d, '.', d.len() as int);
}

/// A byte written in decimal is an octet that reads back as the byte.
proof fn lemma_octet_text(n: nat)
    requires
        n <= 255,
    ensures
        octet_ok(decimal(n)),
        digits_value(decimal(n)) == n,
{
    lemma_decimal_value(n);
    reveal_with_fuel(decimal, 3);
    if n >= 100 {
        assert(decimal(n / 10) == decimal(n / 100).push(digit_char((n / 10) % 10)));
        assert(decimal(n / 100) == seq![digit_char(n / 100)]);
        assert(decimal(n)[0] == digit_char(n / 100));
    } else if n >= 10 {
        assert(decimal(n / 10) == seq![digit_char(n / 10)]);
        assert(decimal(n)[0] == digit_char(n / 10));
    }
}

/// Four runs of digits joined by dots split back into the four runs.
proof fn lemma_split_quad(d0: Seq<char>, d1: Seq<char>, d2: Seq<char>, d3: Seq<char>)
    requires
        all_digits(d0),
        all_digits(d1),
        all_digits(d2),
        all_digits(d3),
    ensures
        split_on(d0 + seq!['.'] + (d1 + seq!['.'] + (d2 + seq!['.'] + d3)), '.') == seq![
            d0,
            d1,
            d2,
            d3,
        ],
{
    let tail2 = d2 + seq!['.'] + d3;
    let tail1 = d1 + seq!['.'] + tail2;
    lemma_split_digits(d3);
    lemma_split_after_digits(d2, d3);
    lemma_split_after_digits(d1, tail2);
    lemma_split_after_digits(d0, tail1);
    assert(seq![d0] + (seq![d1] + (seq![d2] + seq![d3])) =~= seq![d0, d1, d2, d3]);
}

/// The four bytes of an address, most significant first, make it up again.
proof fn lemma_octets_value(a: u32)
    ensures
        a / 16777216 <= 255,
        (a / 16777216) * 16777216 + ((a / 65536) % 256) * 65536 + ((a / 256) % 256) * 256 + a
            % 256 == a,
{
    assert(a / 16777216 <= 255) by (bit_vector);
    assert((a / 16777216) * 16777216 + ((a / 65536) % 256) * 65536 + ((a / 256) % 256) * 256 + a
        % 256 == a) by (bit_vector);
}

/// Writing an address in dotted-quad form and reading it back gives the
/// address.
pub proof fn lemma_ipv4_text_round_trip(a: u32)
    ensures
        parsed_ipv4(ipv4_text(a)) == Some(a),
{
    lemma_octets_value(a);
    let n0 = (a / 16777216) as nat;
    let n1 = ((a / 65536) % 256) as nat;
    let n2 = ((a / 256) % 256) as nat;
    let n3 = (a % 256) as nat;
    lemma_octet_text(n0);
    lemma_octet_text(n1);
    lemma_octet_text(n2);
    lemma_octet_text(n3);
    let d0 = decimal(n0);
    let d1 = decimal(n1);
    let d2 = decimal(n2);
    let d3 = decimal(n3);
    reveal_strlit(".");
    assert(ipv4_text(a) =~= d0 + seq!['.'] + (d1 + seq!['.'] + (d2 + seq!['.'] + d3)));
    lemma_split_quad(d0, d1, d2, d3);
}

/// The addresses of a subnet that the bridge uses: the gateway and the range
/// it hands out to containers.
#[derive(Clone, Copy, Debug, PartialEq, Eq, Structural)]
pub struct Ipv4Range {
    pub gateway: u32,
    pub range_start: u32,
    pub range_end: u32,
}

/// The netmask of a prefix length.
pub open spec fn mask_of(prefix: u32) -> u32 {
    if prefix == 0 {
        0
    } else {
        (0xffff_ffffu32 << ((32 - prefix) as u32)) as u32
    }
}

/// The gateway is the subnet's first address, the range runs from the next
/// one to the one before the broadcast address.
pub open spec fn range_of(address: u32, prefix: u32) -> Ipv4Range {
    let network = address & mask_of(prefix);
    let broadcast = network | !mask_of(prefix);
    Ipv4Range {
        gateway: if network < u32::MAX {
            (network + 1) as u32
        } else {
            u32::MAX
        },
        range_start: if network < u32::MAX - 1 {
            (network + 2) as u32
        } else {
            u32::MAX
        },
        range_end: if broadcast > 0 {
            (broadcast - 1) as u32
        } else {
            0
        },
    }
}

/// The text of a `u32` parse error (`ParseIntError`'s `Display`).
pub open spec fn int_error_text(s: Seq<char>) -> Seq<char> {
    let d = crate::text::unsigned_digits(s);
    if s.len() == 0 {
        "cannot parse integer from empty string"@
    } else if d.len() == 0 || !all_digits(d) {
        "invalid digit found in string"@
    } else {
        "number too large to fit in target type"@
    }
}

pub open spec fn subnet_parts(subnet: Seq<char>) -> (Seq<char>, Seq<char>) {
    let i = first_index(subnet, '/');
    (subnet.take(i), subnet.skip(i + 1))
}

/// What `Ipv4Range::from_subnet` gives for `<address>/<prefix>` text.
pub open spec fn subnet_range(subnet: Seq<char>) -> Result<Ipv4Range, Seq<char>> {
    let q = debug_quoted(subnet);
    if first_index(subnet, '/') >= subnet.len() {
        Err("invalid CNI subnet "@ + q)
    } else {
        let (network, prefix) = subnet_parts(subnet);
        match parsed_ipv4(network) {
            None => Err("invalid CNI subnet address "@ + q + ": invalid IPv4 address syntax"@),
            Some(address) => match crate::text::parsed_unsigned(prefix, u32::MAX as nat) {
                None => Err("invalid CNI subnet prefix "@ + q + ": "@ + int_error_text(prefix)),
                Some(p) => if p > 30 {
                    Err("CNI subnet "@ + q + " must have at least two usable addresses"@)
                } else {
                    Ok(range_of(address, p as u32))
                },
            },
        }
    }
}

fn int_error(v: &Vec<char>) -> (e: String)
    requires
        crate::text::parsed_unsigned(v@, u32::MAX as nat) is None,
    ensures
        e@ == int_error_text(v@),
{
    if v.len() == 0 {
        return String::from_str("cannot parse integer from empty string");
    }
    let start: usize = if v[0] == '+' {
        1
    } else {
        0
    };
    let ghost d = crate::text::unsigned_digits(v@);
    assert(d =~= v@.skip(start as int));
    let mut i: usize = start;
    while i < v.len()
        invariant
            start <= i <= v@.len(),
            v@.len() > 0,
            d == crate::text::unsigned_digits(v@),
            d =~= v@.skip(start as int),
            forall|j: int| start <= j < i ==> is_digit(#[trigger] v@[j]),
        decreases v.len() - i,
    {
        if !('0' <= v[i] && v[i] <= '9') {
            assert(d[i - start] == v@[i as int]);
            assert(!is_digit(d[i - start]));
            assert(!all_digits(d));
            return String::from_str("invalid digit found in string");
        }
        i = i + 1;
    }
    if start >= v.len() {
        return String::from_str("invalid digit found in string");
    }
    assert forall|j: int| 0 <= j < d.len() implies is_digit(#[trigger] d[j]) by {
        assert(d[j] == v@[j + start]);
    }
    String::from_str("number too large to fit in target type")
}

impl Ipv4Range {
    /// The range of `<address>/<prefix>` text; the subnet must leave at least
    /// two usable addresses.
    pub fn from_subnet(subnet: &str) -> (r: Result<Ipv4Range, String>)
        ensures
            match subnet_range(subnet@) {
                Ok(range) => r == Ok::<Ipv4Range, String>(range),
                Err(e) => r is Err && r->Err_0@ == e,
            },
    {
        let chars = chars_of(subnet);
        let slash = find_first(chars.as_slice(), '/');
        if slash >= chars.len() {
            let mut e = String::from_str("invalid CNI subnet ");
            let q = debug_text(subnet);
            e.append(q.as_str());
            return Err(e);
        }
        let network = string_of(slice_chars(chars.as_slice(), 0, slash).as_slice());
        let prefix = slice_chars(chars.as_slice(), slash + 1, chars.len());
        assert(network@ =~= subnet_parts(subnet@).0);
        assert(prefix@ =~= subnet_parts(subnet@).1);
        let address = match parse_ipv4(network.as_str()) {
            Some(a) => a,
            None => {
                let mut e = String::from_str("invalid CNI subnet address ");
                let q = debug_text(subnet);
                e.append(q.as_str());
                e.append(": invalid IPv4 address syntax");
                return Err(e);
            },
        };
        let p = match crate::text::parse_unsigned(prefix.as_slice(), u32::MAX as u64) {
            Some(p) => p as u32,
            None => {
                let mut e = String::from_str("invalid CNI subnet prefix ");
                let q = debug_text(subnet);
                e.append(q.as_str());
                e.append(": ");
                let t = int_error(&prefix);
                e.append(t.as_str());
                return Err(e);
            },
        };
        if p > 30 {
            let mut e = String::from_str("CNI subnet ");
            let q = debug_text(subnet);
            e.append(q.as_str());
            e.append(" must have at least two usable addresses");
            return Err(e);
        }
        let mask: u32 = if p == 0 {
            0
        } else {
            0xffff_ffffu32 << (32 - p)
        };
        let network = address & mask;
        let broadcast = network | !mask;
        Ok(
            Ipv4Range {
                gateway: network.saturating_add(1),
                range_start: network.saturating_add(2),
                range_end: broadcast.saturating_sub(1),
            },
        )
    }
}


/// Within a subnet of at least two usable addresses, the gateway and the
/// range the bridge hands out lie strictly between the network and the
/// broadcast address, in that order, and share the network's prefix.
pub proof fn lemma_range_inside_subnet(address: u32, prefix: u32)
    requires
        prefix <= 30,
    ensures
        ({
            let r = range_of(address, prefix);
            let m = mask_of(prefix);
            let n = address & m;
            let b = n | !m;
            &&& n < r.gateway
            &&& r.gateway < r.range_start
            &&& r.range_start <= r.range_end
            &&& r.range_end < b
            &&& r.gateway & m == n
            &&& r.range_start & m == n
            &&& r.range_end & m == n
        }),
{
    let m = mask_of(prefix);
    let n = address & m;
    if prefix == 0 {
        assert(m == 0);
        assert(n == 0) by (bit_vector)
            requires
                m == 0,
                n == address & m,
        ;
        assert(n | !m == 0xffff_ffffu32) by (bit_vector)
            requires
                m == 0,
                n == 0,
        ;
        assert((1u32 & m) == 0 && (2u32 & m) == 0 && (0xffff_fffeu32 & m) == 0) by (bit_vector)
            requires
                m == 0,
        ;
    } else {
        let s: u32 = (32 - prefix) as u32;
        assert(m == (0xffff_ffffu32 << s));
        assert(2 <= s <= 31);
        assert({
            &&& n < 0xffff_fffdu32
            &&& (n | !m) >= n + 3
            &&& ((n + 1) as u32) & m == n
            &&& ((n + 2) as u32) & m == n
            &&& (((n | !m) - 1) as u32) & m == n
        }) by (bit_vector)
            requires
                2 <= s <= 31,
                m == (0xffff_ffffu32 << s),
                n == address & m,
        ;
    }
}

/// What comes before the first `/` of an address (all of it where there is
/// none).
pub open spec fn address_part(address: Seq<char>) -> Seq<char> {
    address.take(first_index(address, '/'))
}

/// The address reads as IPv4.
pub open spec fn is_ipv4_entry(e: Option<Seq<char>>) -> bool {
    match e {
        Some(a) => parsed_ipv4(address_part(a)) is Some,
        None => false,
    }
}

pub open spec fn ipv4_entry() -> spec_fn(Option<Seq<char>>) -> bool {
    |e: Option<Seq<char>>| is_ipv4_entry(e)
}

pub open spec fn entry_views(v: Seq<Option<String>>) -> Seq<Option<Seq<char>>> {
    v.map_values(
        |e: Option<String>|
            match e {
                Some(s) => Some(s@),
                None => None,
            },
    )
}

/// The container's address in a CNI result's `ips`: the first whose
/// `address` (before any `/<prefix>`) is IPv4.
pub open spec fn first_ipv4(entries: Seq<Option<Seq<char>>>) -> Option<Seq<char>> {
    let i = crate::seqs::first_where(entries, ipv4_entry());
    if i < entries.len() {
        Some(ipv4_text(parsed_ipv4(address_part(entries[i]->Some_0)).unwrap()))
    } else {
        None
    }
}

/// Picks the container's IPv4 address from the `address` fields of a CNI
/// result's `ips` (`None` where an entry has no string address).
pub fn select_container_ip(addresses: &Vec<Option<String>>) -> (r: Result<String, String>)
    ensures
        match first_ipv4(entry_views(addresses@)) {
            Some(ip) => r is Ok && r->Ok_0@ == ip,
            None => r is Err && r->Err_0@ == "CNI result did not include an IPv4 address"@,
        },
{
    let ghost ev = entry_views(addresses@);
    let ghost p = ipv4_entry();
    let mut i: usize = 0;
    while i < addresses.len()
        invariant
            i <= addresses@.len(),
            ev == entry_views(addresses@),
            p == ipv4_entry(),
            forall|j: int| 0 <= j < i ==> !p(#[trigger] ev[j]),
        decreases addresses.len() - i,
    {
        match &addresses[i] {
            Some(a) => {
                let chars = chars_of(a.as_str());
                let cut = find_first(chars.as_slice(), '/');
                let ip = string_of(slice_chars(chars.as_slice(), 0, cut).as_slice());
                assert(ip@ =~= address_part(a@));
                match parse_ipv4(ip.as_str()) {
                    Some(v) => {
                        proof {
                            assert(ev[i as int] == Some(a@));
                            crate::seqs::lemma_first_where_is(ev, p, i as int);
                        }
                        return Ok(ipv4_to_string(v));
                    },
                    None => {
                        assert(ev[i as int] == Some(a@));
                    },
                }
            },
            None => {
                assert(ev[i as int] == None::<Seq<char>>);
            },
        }
        i = i + 1;
    }
    proof {
        crate::seqs::lemma_first_where_is(ev, p, i as int);
    }
    Err(String::from_str("CNI result did not include an IPv4 address"))
}

/// What a CNI result in JSON lists under `ips`: `None` where the bytes are
/// not JSON, `Some(None)` where there is no `ips` array, else each entry's
/// `address` where it is a string (`serde_json::from_slice`).
pub uninterp spec fn cni_result_addresses(output: Seq<u8>) -> Option<
    Option<Seq<Option<Seq<char>>>>,
>;

/// Reads a CNI result with `serde_json::from_slice` and picks out the
/// `address` of each entry of `ips`. What the parse gives is named, not
/// stated; the error's text is not stated.
#[verifier::external_body]
fn cni_addresses(output: &[u8]) -> (r: Result<Option<Vec<Option<String>>>, String>)
    ensures
        match r {
            Ok(Some(v)) => cni_result_addresses(output@) == Some(Some(entry_views(v@))),
            Ok(None) => cni_result_addresses(output@) == Some(None::<Seq<Option<Seq<char>>>>),
            Err(_) => cni_result_addresses(output@) is None,
        },
{
    let value: serde_json::Value = serde_json::from_slice(output).map_err(|e| e.to_string())?;
    Ok(value.get("ips").and_then(serde_json::Value::as_array).map(|ips| {
        ips.iter().map(|ip| ip.get("address").and_then(serde_json::Value::as_str).map(str::to_string)).collect()
    }))
}

/// The container's IPv4 address from the output of the bridge plugin's ADD.
pub fn parse_container_ip(output: &[u8]) -> (r: Result<String, String>)
    ensures
        match cni_result_addresses(output@) {
            None => r is Err,
            Some(None) => r is Err && r->Err_0@ == "CNI result did not include ips"@,
            Some(Some(entries)) => match first_ipv4(entries) {
                Some(ip) => r is Ok && r->Ok_0@ == ip,
                None => r is Err && r->Err_0@ == "CNI result did not include an IPv4 address"@,
            },
        },
{
    match cni_addresses(output) {
        Err(e) => Err(e),
        Ok(None) => Err(String::from_str("CNI result did not include ips")),
        Ok(Some(addresses)) => select_container_ip(&addresses),
    }
}

/// The `container_ip` string of a run's network metadata in JSON, where the
/// bytes are JSON and it is there (`serde_json::from_slice`).
pub uninterp spec fn metadata_ip_field(bytes: Seq<u8>) -> Option<Seq<char>>;

/// Reads network metadata with `serde_json::from_slice` and picks out
/// `container_ip` where it is a string; the field is named, not stated.
#[verifier::external_body]
fn metadata_container_ip(bytes: &[u8]) -> (r: Option<String>)
    ensures
        match r {
            Some(s) => metadata_ip_field(bytes@) == Some(s@),
            None => metadata_ip_field(bytes@) is None,
        },
{
    serde_json::from_slice::<serde_json::Value>(bytes).ok().and_then(|value| {
        value.get("container_ip").and_then(serde_json::Value::as_str).map(str::to_string)
    })
}

/// The container address a run recorded: none where there is no metadata
/// file (`metadata` is `None`), it is not JSON, or it has no non-empty
/// `container_ip`.
pub fn read_container_ip(metadata: Option<&[u8]>) -> (r: Option<String>)
    ensures
        match metadata {
            None => r is None,
            Some(bytes) => match metadata_ip_field(bytes@) {
                Some(ip) => if ip.len() > 0 {
                    r is Some && r->Some_0@ == ip
                } else {
                    r is None
                },
                None => r is None,
            },
        },
{
    match metadata {
        None => None,
        Some(bytes) => match metadata_container_ip(bytes) {
            Some(ip) => if ip.unicode_len() > 0 {
                Some(ip)
            } else {
                None
            },
            None => None,
        },
    }
}


pub const DEFAULT_CNI_PLUGIN_DIR: &'static str = "/usr/local/lib/billow/bin/cni";
pub const DEFAULT_CNI_NETNS_DIR: &'static str = "/run/billow/netns";
pub const DEFAULT_CNI_IPAM_DIR: &'static str = "/var/lib/billow/cni/ipam";
pub const DEFAULT_CNI_NETWORK_NAME: &'static str = "billow-net";
pub const DEFAULT_CNI_BRIDGE_NAME: &'static str = "billow0";
pub const DEFAULT_CNI_SUBNET: &'static str = "10.1.1.0/24";

/// How the agent wires containers to the bridge network.
pub struct NetworkConfig {
    pub plugin_dir: String,
    pub netns_dir: String,
    pub ipam_dir: String,
    pub network_name: String,
    pub bridge_name: String,
    pub subnet: String,
    pub range: Ipv4Range,
}

/// One character inside a JSON string, escaped as `serde_json` writes it:
/// `"` and `\` behind a backslash, the control characters with a short
/// escape where JSON has one and as `\u00XX` (lower-case hex) otherwise,
/// every other character as it is.
pub open spec fn json_escaped_char(c: char) -> Seq<char> {
    if c == '"' {
        seq!['\\', '"']
    } else if c == '\\' {
        seq!['\\', '\\']
    } else if c == '\u{8}' {
        seq!['\\', 'b']
    } else if c == '\t' {
        seq!['\\', 't']
    } else if c == '\n' {
        seq!['\\', 'n']
    } else if c == '\u{c}' {
        seq!['\\', 'f']
    } else if c == '\r' {
        seq!['\\', 'r']
    } else if (c as u32) < 32 {
        seq!['\\', 'u', '0', '0', hex_char(((c as u32) / 16) as u8), hex_char(((c as u32) % 16) as u8)]
    } else {
        seq![c]
    }
}

/// The characters of `s`, each escaped for a JSON string.
pub open spec fn json_escaped(s: Seq<char>) -> Seq<char>
    decreases s.len(),
{
    if s.len() == 0 {
        Seq::empty()
    } else {
        json_escaped(s.drop_last()) + json_escaped_char(s.last())
    }
}

/// `s` as a JSON string.
pub open spec fn json_string(s: Seq<char>) -> Seq<char> {
    seq!['"'] + json_escaped(s) + seq!['"']
}

/// `serde_json::to_string` of a string: the string between double quotes,
/// each character escaped as `json_escaped_char` says (the escape table of
/// serde_json's `ser.rs`, lower-case hex digits). Writing a string into a
/// `String` does not fail.
#[verifier::external_body]
fn serialize_str(s: &str) -> (r: String)
    ensures
        r@ == json_string(s@),
{
    serde_json::to_string(s).unwrap_or_default()
}

/// The metadata file of a run's network: the container's address.
pub open spec fn metadata_text(container_ip: Seq<char>) -> Seq<char> {
    "{\"container_ip\":"@ + json_string(container_ip) + "}"@
}

/// The JSON the agent writes down for a run's network, which
/// `read_container_ip` reads back.
pub fn metadata_json(container_ip: &str) -> (r: String)
    ensures
        r@ == metadata_text(container_ip@),
{
    let mut r = String::from_str("{\"container_ip\":");
    let t = serialize_str(container_ip);
    r.append(t.as_str());
    r.append("}");
    r
}

/// The configuration of the CNI loopback plugin.
pub open spec fn loopback_config_text() -> Seq<char> {
    "{\"cniVersion\":\"1.0.0\",\"name\":\"lo\",\"type\":\"loopback\"}"@
}

/// The configuration of the CNI bridge plugin for a network: the bridge is
/// the gateway and masquerades, and `host-local` hands out the range of the
/// subnet, keeping its state under `ipam_dir`. The keys stand in the sorted
/// order `serde_json` writes them in.
pub open spec fn bridge_config_text(
    network_name: Seq<char>,
    bridge_name: Seq<char>,
    subnet: Seq<char>,
    range: Ipv4Range,
    ipam_dir: Seq<char>,
) -> Seq<char> {
    "{\"bridge\":"@ + json_string(bridge_name)
        + ",\"cniVersion\":\"1.0.0\",\"ipMasq\":true,\"ipam\":{\"dataDir\":"@ + json_string(ipam_dir)
        + ",\"ranges\":[[{\"gateway\":"@ + json_string(ipv4_text(range.gateway))
        + ",\"rangeEnd\":"@ + json_string(ipv4_text(range.range_end)) + ",\"rangeStart\":"@
        + json_string(ipv4_text(range.range_start)) + ",\"subnet\":"@ + json_string(subnet)
        + "}]],\"routes\":[{\"dst\":\"0.0.0.0/0\"}],\"type\":\"host-local\"},\"isGateway\":true,\"name\":"@
        + json_string(network_name) + ",\"type\":\"bridge\"}"@
}

impl NetworkConfig {
    /// The configuration (JSON) of the CNI loopback plugin.
    pub fn loopback_config() -> (c: String)
        ensures
            c@ == loopback_config_text(),
    {
        String::from_str("{\"cniVersion\":\"1.0.0\",\"name\":\"lo\",\"type\":\"loopback\"}")
    }

    /// The configuration (JSON) of the CNI bridge plugin for this network.
    pub fn bridge_config(&self) -> (c: String)
        ensures
            c@ == bridge_config_text(
                self.network_name@,
                self.bridge_name@,
                self.subnet@,
                self.range,
                self.ipam_dir@,
            ),
    {
        let mut c = String::from_str("{\"bridge\":");
        let t = serialize_str(self.bridge_name.as_str());
        c.append(t.as_str());
        c.append(",\"cniVersion\":\"1.0.0\",\"ipMasq\":true,\"ipam\":{\"dataDir\":");
        let t = serialize_str(self.ipam_dir.as_str());
        c.append(t.as_str());
        c.append(",\"ranges\":[[{\"gateway\":");
        let a = ipv4_to_string(self.range.gateway);
        let t = serialize_str(a.as_str());
        c.append(t.as_str());
        c.append(",\"rangeEnd\":");
        let a = ipv4_to_string(self.range.range_end);
        let t = serialize_str(a.as_str());
        c.append(t.as_str());
        c.append(",\"rangeStart\":");
        let a = ipv4_to_string(self.range.range_start);
        let t = serialize_str(a.as_str());
        c.append(t.as_str());
        c.append(",\"subnet\":");
        let t = serialize_str(self.subnet.as_str());
        c.append(t.as_str());
        c.append("}]],\"routes\":[{\"dst\":\"0.0.0.0/0\"}],\"type\":\"host-local\"},\"isGateway\":true,\"name\":");
        let t = serialize_str(self.network_name.as_str());
        c.append(t.as_str());
        c.append(",\"type\":\"bridge\"}");
        c
    }

    /// The configuration from the values of `BILLOW_CNI_PLUGIN_DIR`,
    /// `BILLOW_CNI_NETNS_DIR`, `BILLOW_CNI_IPAM_DIR`,
    /// `BILLOW_CNI_NETWORK_NAME`, `BILLOW_CNI_BRIDGE_NAME` and
    /// `BILLOW_CNI_SUBNET` (each a default where unset or empty); the subnet
    /// must be usable.
    pub fn from_env_values(
        plugin_dir: Option<&str>,
        netns_dir: Option<&str>,
        ipam_dir: Option<&str>,
        network_name: Option<&str>,
        bridge_name: Option<&str>,
        subnet: Option<&str>,
    ) -> (r: Result<NetworkConfig, String>)
        ensures
            ({
                let s = crate::install::dir_or(subnet, DEFAULT_CNI_SUBNET@);
                match subnet_range(s) {
                    Err(e) => r is Err && r->Err_0@ == e,
                    Ok(range) => r matches Ok(c) && c.range == range && c.subnet@ == s
                        && c.plugin_dir@ == crate::install::dir_or(plugin_dir, DEFAULT_CNI_PLUGIN_DIR@)
                        && c.netns_dir@ == crate::install::dir_or(netns_dir, DEFAULT_CNI_NETNS_DIR@)
                        && c.ipam_dir@ == crate::install::dir_or(ipam_dir, DEFAULT_CNI_IPAM_DIR@)
                        && c.network_name@ == crate::install::dir_or(network_name, DEFAULT_CNI_NETWORK_NAME@)
                        && c.bridge_name@ == crate::install::dir_or(bridge_name, DEFAULT_CNI_BRIDGE_NAME@),
                }
            }),
    {
        let subnet = crate::manager::env_string_or_default(subnet, DEFAULT_CNI_SUBNET);
        let range = match Ipv4Range::from_subnet(subnet.as_str()) {
            Ok(range) => range,
            Err(e) => return Err(e),
        };
        Ok(NetworkConfig {
            plugin_dir: crate::manager::env_string_or_default(plugin_dir, DEFAULT_CNI_PLUGIN_DIR),
            netns_dir: crate::manager::env_string_or_default(netns_dir, DEFAULT_CNI_NETNS_DIR),
            ipam_dir: crate::manager::env_string_or_default(ipam_dir, DEFAULT_CNI_IPAM_DIR),
            network_name: crate::manager::env_string_or_default(network_name, DEFAULT_CNI_NETWORK_NAME),
            bridge_name: crate::manager::env_string_or_default(bridge_name, DEFAULT_CNI_BRIDGE_NAME),
            subnet,
            range,
        })
    }

    /// The network namespace file of a task.
    pub fn netns_path(&self, runtime_task_id: &str) -> (p: String)
        ensures
            p@ == crate::install::path_join(self.netns_dir@, runtime_task_id@),
    {
        crate::install::join_path(self.netns_dir.as_str(), runtime_task_id)
    }

    /// The executable of a CNI plugin.
    pub fn plugin_path(&self, plugin_name: &str) -> (p: String)
        ensures
            p@ == crate::install::path_join(self.plugin_dir@, plugin_name@),
    {
        crate::install::join_path(self.plugin_dir.as_str(), plugin_name)
    }
}

/// The error of a CNI plugin that failed: its name, the command, its exit
/// status and what it printed, without surrounding white space.
pub fn cni_failure_message(
    plugin_name: &str,
    command: &str,
    status: &str,
    stdout: &str,
    stderr: &str,
) -> (m: String)
    ensures
        m@ == "CNI plugin "@ + plugin_name@ + " "@ + command@ + " exited with "@ + status@
            + "; stdout: "@ + crate::text::trim(stdout@) + "; stderr: "@ + crate::text::trim(
            stderr@,
        ),
{
    let mut m = String::from_str("CNI plugin ");
    m.append(plugin_name);
    m.append(" ");
    m.append(command);
    m.append(" exited with ");
    m.append(status);
    m.append("; stdout: ");
    let out = chars_of(stdout);
    let t = string_of(crate::text::trim_chars(out.as_slice()).as_slice());
    m.append(t.as_str());
    m.append("; stderr: ");
    let err = chars_of(stderr);
    let t = string_of(crate::text::trim_chars(err.as_slice()).as_slice());
    m.append(t.as_str());
    m
}

/// The error of a network setup that failed, with its cleanup's failure
/// where that failed too.
pub fn setup_failure_message(error: &str, cleanup_error: Option<&str>) -> (m: String)
    ensures
        m@ == match cleanup_error {
            None => error@,
            Some(c) => error@ + "; CNI cleanup also failed: "@ + c@,
        },
{
    let mut m = String::from_str(error);
    match cleanup_error {
        None => {},
        Some(c) => {
            m.append("; CNI cleanup also failed: ");
            m.append(c);
        },
    }
    m
}

/// The error of a network cleanup whose bridge DEL failed.
pub fn bridge_del_failure_message(error: &str) -> (m: String)
    ensures
        m@ == "CNI bridge DEL failed: "@ + error@,
{
    let mut m = String::from_str("CNI bridge DEL failed: ");
    m.append(error);
    m
}

/// What went wrong in the helper process that creates a network namespace,
/// from how it ended: it exits with 2 where `unshare` failed and with 3 where
/// the bind mount failed.
pub open spec fn namespace_helper_detail(exited: bool, exit_code: i32) -> Seq<char> {
    if !exited {
        "helper did not exit cleanly"@
    } else if exit_code == 2 {
        "unshare failed"@
    } else if exit_code == 3 {
        "bind mount failed"@
    } else {
        "unknown helper failure"@
    }
}

/// The result of creating the network namespace `path`, from how its helper
/// process ended (`exited`: it exited normally, with `exit_code`).
pub fn namespace_helper_result(path: &str, exited: bool, exit_code: i32) -> (r: Result<(), String>)
    ensures
        exited && exit_code == 0 ==> r is Ok,
        !(exited && exit_code == 0) ==> (r matches Err(e) && e@ == "failed to create network namespace "@
            + path@ + ": "@ + namespace_helper_detail(exited, exit_code)),
{
    if exited && exit_code == 0 {
        return Ok(());
    }
    let detail = if !exited {
        "helper did not exit cleanly"
    } else if exit_code == 2 {
        "unshare failed"
    } else if exit_code == 3 {
        "bind mount failed"
    } else {
        "unknown helper failure"
    };
    let mut m = String::from_str("failed to create network namespace ");
    m.append(path);
    m.append(": ");
    m.append(detail);
    Err(m)
}

} // verus!
