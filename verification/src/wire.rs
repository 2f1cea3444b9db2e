//! The records that the kernel's device-control requests carry, as plain
//! values with fixed widths: the interface name field, the hardware-address
//! payload, the permanent-address query, and the packed array of interface
//! records.

use vstd::prelude::*;
use vstd::slice::slice_subrange;
use vstd::string::*;
use vstd::utf8::*;
use crate::mac::{signed, to_signed, Mac};
use crate::scan::{first_index, lemma_first_index};

verus! {

/// The width in bytes of an interface name field, its terminator included.
pub const IF_NAMESIZE: usize = 16;

/// The size in bytes of one interface record of the kernel, on 64-bit Linux.
pub const IFREQ_SIZE: usize = 40;

/// The hardware type of Ethernet.
pub const ARPHRD_ETHER: u16 = 1;

/// The flag bit of an interface that is administratively up.
pub const IFF_UP: i32 = 0x1;

/// The feature-query command that asks a driver for its permanent address.
pub const ETHTOOL_GPERMADDR: u32 = 0x0000_0020;

/// The size that a permanent-address query announces for its result.
pub const PERM_ADDR_SIZE: u32 = 14;

/// The payload of a hardware-address request: a hardware type and fourteen
/// bytes of address.
#[derive(Debug, Clone, Copy, PartialEq, Eq)]
pub struct SockAddr {
    pub sa_family: u16,
    pub sa_data: [i8; 14],
}

/// The feature query for a permanent address: the command, the size of the
/// result, and room for the result.
#[derive(Debug, Clone, Copy, PartialEq, Eq)]
pub struct EthtoolPermAddr {
    pub cmd: u32,
    pub size: u32,
    pub data: [i8; 14],
}

/// A name field: the bytes of the name, then zero bytes up to the field's
/// width. A name of fewer bytes than the width leaves at least one.
pub open spec fn name_field(name: Seq<u8>) -> Seq<i8> {
    Seq::new(
        IF_NAMESIZE as nat,
        |i: int|
            if i < name.len() {
                signed(name[i])
            } else {
                0i8
            },
    )
}

/// The payload that assigns an address: the address tagged as Ethernet.
pub open spec fn hwaddr_of(mac: Mac) -> SockAddr {
    SockAddr { sa_family: ARPHRD_ETHER, sa_data: mac.0 }
}

/// The address that a payload carries, whatever its hardware type.
pub open spec fn mac_of(payload: SockAddr) -> Mac {
    Mac(payload.sa_data)
}

/// The query for a permanent address, its result not yet filled in.
pub open spec fn is_perm_addr_query(query: EthtoolPermAddr) -> bool {
    &&& query.cmd == ETHTOOL_GPERMADDR
    &&& query.size == PERM_ADDR_SIZE
    &&& forall|i: int| 0 <= i < 14 ==> query.data[i] == 0
}

/// The bytes of a name field that come before its first zero byte: all of
/// them where the field holds none.
pub open spec fn name_bytes(field: Seq<u8>) -> Seq<u8> {
    field.take(first_index(field, 0u8))
}

/// The name that a name field holds, or `err` where its bytes are no text.
pub open spec fn name_text(field: Seq<u8>) -> Seq<char> {
    if valid_utf8(name_bytes(field)) {
        decode_utf8(name_bytes(field))
    } else {
        seq!['e', 'r', 'r']
    }
}

/// The number of whole records in a buffer.
pub open spec fn record_count(buffer: Seq<u8>) -> nat {
    buffer.len() / (IFREQ_SIZE as nat)
}

/// The name field of record `i` of a buffer.
pub open spec fn record_name(buffer: Seq<u8>, i: int) -> Seq<u8> {
    buffer.subrange(i * IFREQ_SIZE, i * IFREQ_SIZE + IF_NAMESIZE)
}

/// The names of the records that a buffer holds, in order.
pub open spec fn names_of(buffer: Seq<u8>) -> Seq<Seq<char>> {
    Seq::new(record_count(buffer), |i: int| name_text(record_name(buffer, i)))
}

/// The texts of some strings.
pub open spec fn texts(names: Seq<String>) -> Seq<Seq<char>> {
    names.map_values(|name: String| name@)
}

/// The name field for an interface name.
///
/// The field keeps one byte for the terminator, so a name has fewer bytes
/// than the field is wide, and the field always ends in a zero byte.
pub fn get_dev_buff(devi: &str) -> (name: [i8; 16])
    requires
        devi.spec_bytes().len() < IF_NAMESIZE,
    ensures
        name@ == name_field(devi.spec_bytes()),
        name[IF_NAMESIZE - 1] == 0,
{
    let bytes = devi.as_bytes();
    let mut name = [0i8; 16];
    let mut i: usize = 0;
    while i < bytes.len()
        invariant
            bytes@ == devi.spec_bytes(),
            bytes@.len() < IF_NAMESIZE,
            i <= bytes.len(),
            forall|j: int| 0 <= j < i ==> name[j] == signed(bytes@[j]),
            forall|j: int| i <= j < 16 ==> name[j] == 0,
        decreases bytes.len() - i,
    {
        name[i] = to_signed(bytes[i]);
        i += 1;
    }
    assert(name@ =~= name_field(devi.spec_bytes()));
    name
}

/// The payload of the request that assigns `mac`.
pub fn encode_hwaddr(mac: Mac) -> (payload: SockAddr)
    ensures
        payload == hwaddr_of(mac),
{
    SockAddr { sa_family: ARPHRD_ETHER, sa_data: mac.bytes() }
}

/// The address in the payload that the kernel returned.
pub fn decode_hwaddr(payload: SockAddr) -> (mac: Mac)
    ensures
        mac == mac_of(payload),
{
    Mac::from_raw_bytes(payload.sa_data)
}

/// The query that asks a driver for its permanent address.
pub fn perm_addr_query() -> (query: EthtoolPermAddr)
    ensures
        is_perm_addr_query(query),
{
    EthtoolPermAddr { cmd: ETHTOOL_GPERMADDR, size: PERM_ADDR_SIZE, data: [0i8; 14] }
}

/// The address in a permanent-address query that a driver has answered.
pub fn decode_perm_addr(answer: EthtoolPermAddr) -> (mac: Mac)
    ensures
        mac.0 == answer.data,
{
    Mac::from_raw_bytes(answer.data)
}

/// What `core::str::from_utf8` gives: the text whose UTF-8 encoding the
/// bytes are, or an error where they are no UTF-8 encoding.
pub assume_specification[ core::str::from_utf8 ](v: &[u8]) -> (r: Result<
    &str,
    core::str::Utf8Error,
>)
    ensures
        r is Ok <==> valid_utf8(v@),
        r matches Ok(text) ==> text.spec_bytes() == v@,
;

/// The error of `core::str::from_utf8`, which says where the bytes stop
/// being UTF-8.
#[verifier::external_type_specification]
#[verifier::external_body]
pub struct ExUtf8Error(core::str::Utf8Error);

/// The name in one name field.
fn decode_name(field: &[u8]) -> (name: String)
    ensures
        name@ == name_text(field@),
{
    let mut end: usize = 0;
    while end < field.len() && field[end] != 0
        invariant
            end <= field.len(),
            forall|j: int| 0 <= j < end ==> field@[j] != 0,
        decreases field.len() - end,
    {
        end += 1;
    }
    proof {
        lemma_first_index(field@, 0u8, end as int);
    }
    let bytes = slice_subrange(field, 0, end);
    assert(bytes@ =~= name_bytes(field@));
    match core::str::from_utf8(bytes) {
        Ok(text) => {
            proof {
                encode_utf8_decode_utf8(text@);
            }
            text.to_owned()
        },
        Err(_) => {
            proof {
                reveal_strlit("err");
            }
            let name = "err".to_owned();
            assert(name@ =~= seq!['e', 'r', 'r']);
            name
        },
    }
}

/// The names of the interfaces whose records a buffer holds, in order.
///
/// The buffer holds as many records as its length holds the size of one;
/// bytes behind the last whole record are not read.
pub fn interface_names(buffer: &[u8]) -> (names: Vec<String>)
    ensures
        texts(names@) == names_of(buffer@),
{
    let count = buffer.len() / IFREQ_SIZE;
    let mut names: Vec<String> = Vec::new();
    let mut i: usize = 0;
    while i < count
        invariant
            count == record_count(buffer@),
            count * IFREQ_SIZE <= buffer.len(),
            i <= count,
            names.len() == i,
            forall|j: int| 0 <= j < i ==> (#[trigger] names@[j])@ == name_text(record_name(buffer@, j)),
        decreases count - i,
    {
        let base = i * IFREQ_SIZE;
        let field = slice_subrange(buffer, base, base + IF_NAMESIZE);
        assert(field@ == record_name(buffer@, i as int));
        names.push(decode_name(field));
        i += 1;
    }
    assert(texts(names@) =~= names_of(buffer@));
    names
}

/// Writing an address into the payload of an assignment and reading the
/// payload back gives the address: all fourteen stored bytes, and so its six
/// octets.
pub proof fn lemma_hwaddr_round_trip(mac: Mac)
    ensures
        mac_of(hwaddr_of(mac)) == mac,
        mac_of(hwaddr_of(mac))@ == mac@,
        hwaddr_of(mac).sa_family == ARPHRD_ETHER,
{
}

} // verus!
