use vstd::prelude::*;

verus! {

use crate::text::push_char;

/// Fully-qualified characteristic name: the universal routing key.
/// The peripheral address is the 48-bit device address as an integer,
/// the service and characteristic are 128-bit UUID values.
#[derive(Clone, Copy, Debug, PartialEq, Eq, Hash, Structural)]
pub struct Fqcn {
    pub peripheral: u64,
    pub service: u128,
    pub characteristic: u128,
}

impl Fqcn {
    /// The same peripheral, addressed at another service and characteristic.
    pub fn with_characteristic(&self, service_uuid: u128, characteristic_uuid: u128) -> (r: Fqcn)
        ensures
            r.peripheral == self.peripheral,
            r.service == service_uuid,
            r.characteristic == characteristic_uuid,
    {
        Fqcn { peripheral: self.peripheral, service: service_uuid, characteristic: characteristic_uuid }
    }

    /// Whether a notification that arrived on the given service and
    /// characteristic UUIDs belongs to this routing key.
    pub fn matches(&self, service_uuid: u128, characteristic_uuid: u128) -> (r: bool)
        ensures
            r == (self.service == service_uuid && self.characteristic == characteristic_uuid),
    {
        self.service == service_uuid && self.characteristic == characteristic_uuid
    }
}

/// The key under which one characteristic stands in a peripheral's service
/// map: its service UUID paired with its characteristic UUID.
#[derive(Clone, Copy, Debug, PartialEq, Eq, Hash, Structural)]
pub struct ServiceCharacteristicKey {
    pub service_uuid: u128,
    pub characteristic_uuid: u128,
}

/// Identity of a discovered peripheral: the adapter it was seen on, its
/// address, and the advertised local name when one is known.
#[derive(Debug)]
pub struct PeripheralKey {
    pub adapter_id: String,
    pub peripheral_address: u64,
    pub name: Option<String>,
}

impl Clone for PeripheralKey {
    fn clone(&self) -> (r: Self)
        ensures
            r == *self,
    {
        PeripheralKey {
            adapter_id: self.adapter_id.clone(),
            peripheral_address: self.peripheral_address,
            name: match &self.name {
                Some(n) => Some(n.clone()),
                None => None,
            },
        }
    }
}

impl PeripheralKey {
    /// Whether two keys name the same peripheral sighting, character for character.
    pub fn same_key(&self, other: &PeripheralKey) -> (r: bool)
        ensures
            r == (self.adapter_id@ == other.adapter_id@
                && self.peripheral_address == other.peripheral_address && match (
                self.name,
                other.name,
            ) {
                (Some(a), Some(b)) => a@ == b@,
                (None, None) => true,
                _ => false,
            }),
    {
        if self.peripheral_address != other.peripheral_address {
            return false;
        }
        if !crate::text::str_eq(self.adapter_id.as_str(), other.adapter_id.as_str()) {
            return false;
        }
        match (&self.name, &other.name) {
            (Some(a), Some(b)) => crate::text::str_eq(a.as_str(), b.as_str()),
            (None, None) => true,
            _ => false,
        }
    }
}

/// Identity of a local radio adapter.
#[derive(Debug)]
pub struct AdapterInfo {
    pub id: String,
    pub modalias: String,
}

impl Clone for AdapterInfo {
    fn clone(&self) -> (r: Self)
        ensures
            r == *self,
    {
        AdapterInfo { id: self.id.clone(), modalias: self.modalias.clone() }
    }
}

/// Relies on Arc::clone: the new handle refers to the very same value.
#[verifier::external_body]
pub fn arc_clone<T>(a: &std::sync::Arc<T>) -> (r: std::sync::Arc<T>)
    ensures
        r == *a,
{
    std::sync::Arc::clone(a)
}

pub open spec fn spec_hex_lower(n: u8) -> char {
    if n == 0 {
        '0'
    } else if n == 1 {
        '1'
    } else if n == 2 {
        '2'
    } else if n == 3 {
        '3'
    } else if n == 4 {
        '4'
    } else if n == 5 {
        '5'
    } else if n == 6 {
        '6'
    } else if n == 7 {
        '7'
    } else if n == 8 {
        '8'
    } else if n == 9 {
        '9'
    } else if n == 10 {
        'a'
    } else if n == 11 {
        'b'
    } else if n == 12 {
        'c'
    } else if n == 13 {
        'd'
    } else if n == 14 {
        'e'
    } else {
        'f'
    }
}

pub open spec fn spec_hex_upper(n: u8) -> char {
    if n < 10 {
        spec_hex_lower(n)
    } else if n == 10 {
        'A'
    } else if n == 11 {
        'B'
    } else if n == 12 {
        'C'
    } else if n == 13 {
        'D'
    } else if n == 14 {
        'E'
    } else {
        'F'
    }
}

pub fn hex_lower(n: u8) -> (c: char)
    requires
        n < 16,
    ensures
        c == spec_hex_lower(n),
{
    match n {
        0 => '0',
        1 => '1',
        2 => '2',
        3 => '3',
        4 => '4',
        5 => '5',
        6 => '6',
        7 => '7',
        8 => '8',
        9 => '9',
        10 => 'a',
        11 => 'b',
        12 => 'c',
        13 => 'd',
        14 => 'e',
        _ => 'f',
    }
}

pub fn hex_upper(n: u8) -> (c: char)
    requires
        n < 16,
    ensures
        c == spec_hex_upper(n),
{
    match n {
        0 => '0',
        1 => '1',
        2 => '2',
        3 => '3',
        4 => '4',
        5 => '5',
        6 => '6',
        7 => '7',
        8 => '8',
        9 => '9',
        10 => 'A',
        11 => 'B',
        12 => 'C',
        13 => 'D',
        14 => 'E',
        _ => 'F',
    }
}

pub open spec fn spec_addr_byte(a: u64, i: int) -> u8 {
    ((a >> (((5 - i) * 8) as u64)) & 0xff) as u8
}

pub open spec fn spec_addr_char(a: u64, i: int) -> char {
    if i % 3 == 2 {
        ':'
    } else {
        let b = spec_addr_byte(a, i / 3);
        if i % 3 == 0 {
            spec_hex_upper(b / 16)
        } else {
            spec_hex_upper((b & 0xf) as u8)
        }
    }
}

/// The textual form of a peripheral address: six upper-case hex byte pairs
/// separated by colons, most significant byte first.
pub open spec fn spec_addr_str(a: u64) -> Seq<char> {
    Seq::new(17, |i| spec_addr_char(a, i))
}

/// Renders a peripheral address as "AA:BB:CC:DD:EE:FF".
pub fn addr_to_string(a: u64) -> (s: String)
    ensures
        s@ == spec_addr_str(a),
{
    let mut s = String::new();
    let mut i: usize = 0;
    while i < 6
        invariant
            i <= 6,
            s@ =~= spec_addr_str(a).take(if i == 0 { 0int } else { 3 * i - 1 }),
        decreases 6 - i,
    {
        if i > 0 {
            proof {
                assert((3 * i - 1) % 3 == 2) by (nonlinear_arith)
                    requires 1 <= i <= 6;
                assert(spec_addr_char(a, 3 * i as int - 1) == ':');
            }
            push_char(&mut s, ':');
            proof {
                assert(s@ =~= spec_addr_str(a).take(3 * i as int));
            }
        }
        let sh: u64 = ((5 - i) as u64) * 8;
        let b: u8 = ((a >> sh) & 0xff) as u8;
        proof {
            assert(b == spec_addr_byte(a, i as int));
            assert(b / 16 < 16);
            assert((b & 0xf) < 16) by (bit_vector);
            assert((3 * i) % 3 == 0 && (3 * i) / 3 == i && (3 * i + 1) % 3 == 1 && (3 * i + 1)
                / 3 == i) by (nonlinear_arith);
        }
        let hi = hex_upper(b / 16);
        let lo = hex_upper(b & 0xf);
        push_char(&mut s, hi);
        proof {
            assert(spec_addr_char(a, 3 * i as int) == spec_hex_upper(b / 16));
            assert(s@ =~= spec_addr_str(a).take(3 * i as int + 1));
        }
        push_char(&mut s, lo);
        proof {
            assert(spec_addr_char(a, 3 * i as int + 1) == spec_hex_upper((b & 0xf) as u8));
            assert(s@ =~= spec_addr_str(a).take(3 * i as int + 2));
        }
        i = i + 1;
    }
    proof {
        assert(s@ =~= spec_addr_str(a));
    }
    s
}

pub open spec fn spec_uuid_nibble(u: u128, h: int) -> u8 {
    ((u >> ((4 * (31 - h)) as u128)) & 0xf) as u8
}

pub open spec fn spec_uuid_dashes_before(i: int) -> int {
    if i < 8 {
        0
    } else if i < 13 {
        1
    } else if i < 18 {
        2
    } else if i < 23 {
        3
    } else {
        4
    }
}

pub open spec fn spec_uuid_char(u: u128, i: int) -> char {
    if i == 8 || i == 13 || i == 18 || i == 23 {
        '-'
    } else {
        spec_hex_lower(spec_uuid_nibble(u, i - spec_uuid_dashes_before(i)))
    }
}

/// The textual form of a UUID: 32 lower-case hex digits in the usual
/// 8-4-4-4-12 grouping, most significant nibble first.
pub open spec fn spec_uuid_str(u: u128) -> Seq<char> {
    Seq::new(36, |i| spec_uuid_char(u, i))
}

pub open spec fn spec_uuid_dash_count(h: int) -> int {
    if h <= 8 {
        0
    } else if h <= 12 {
        1
    } else if h <= 16 {
        2
    } else if h <= 20 {
        3
    } else {
        4
    }
}

/// Renders a UUID value as "xxxxxxxx-xxxx-xxxx-xxxx-xxxxxxxxxxxx".
pub fn uuid_to_string(u: u128) -> (s: String)
    ensures
        s@ == spec_uuid_str(u),
{
    let mut s = String::new();
    let mut h: usize = 0;
    while h < 32
        invariant
            h <= 32,
            s@ =~= spec_uuid_str(u).take(h + spec_uuid_dash_count(h as int)),
        decreases 32 - h,
    {
        let ghost p: int = h + spec_uuid_dash_count(h as int);
        if h == 8 || h == 12 || h == 16 || h == 20 {
            proof {
                assert(spec_uuid_char(u, p) == '-');
            }
            push_char(&mut s, '-');
            proof {
                assert(s@ =~= spec_uuid_str(u).take(p + 1));
            }
        }
        let sh: u128 = ((4 * (31 - h)) as u128);
        let n: u8 = ((u >> sh) & 0xf) as u8;
        proof {
            assert(n == spec_uuid_nibble(u, h as int));
            assert((u >> sh) & 0xf < 16) by (bit_vector);
        }
        let c = hex_lower(n);
        proof {
            let q: int = h + spec_uuid_dash_count(h as int + 1);
            assert(spec_uuid_char(u, q) == spec_hex_lower(spec_uuid_nibble(u, h as int)));
            assert(s@.len() == q);
        }
        push_char(&mut s, c);
        proof {
            assert(s@ =~= spec_uuid_str(u).take(h + 1 + spec_uuid_dash_count(h as int + 1)));
        }
        h = h + 1;
    }
    proof {
        assert(s@ =~= spec_uuid_str(u));
    }
    s
}

} // verus!
