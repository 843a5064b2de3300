//! Whom the controller speaks to.
use vstd::prelude::*;

verus! {

/// The message for a command that needs a port and has none.
pub const ERR_PORT_MSG: &'static str =
    "error: The following required arguments were not provided:\n    \t--port <PORT> required arguments were not provided";

/// The port to speak to; all commands but `list` need one.
pub fn required_port(port: Option<u16>) -> (r: Result<u16, String>)
    ensures
        match port {
            Some(p) => r == Ok::<u16, String>(p),
            None => r matches Err(text) && text@ == ERR_PORT_MSG@,
        },
{
    match port {
        Some(p) => Ok(p),
        None => Err(ERR_PORT_MSG.to_owned()),
    }
}

/// The port on which beacons are listened for.
pub fn beacon_port(port: Option<u16>, default_port: u16) -> (r: u16)
    ensures
        r == (match port {
            Some(p) => p,
            None => default_port,
        }),
{
    match port {
        Some(p) => p,
        None => default_port,
    }
}

/// An internet address.
#[derive(Debug, Clone, Copy, PartialEq, Eq)]
pub enum Address {
    V4([u8; 4]),
    V6([u8; 16]),
}

/// Whether an IPv6 address stands for an IPv4 address: it starts with 80 zero bits, followed by
/// 16 bits that are all zeros or all ones.
pub open spec fn stands_for_v4(a: Seq<u8>) -> bool {
    &&& forall|i: int| 0 <= i < 10 ==> #[trigger] a[i] == 0
    &&& (a[10] == 0 && a[11] == 0) || (a[10] == 255 && a[11] == 255)
}

/// The address that the client uses: an IPv6 address that stands for an IPv4 address is replaced
/// by the latter.
pub fn client_address(address: Address) -> (r: Address)
    ensures
        match address {
            Address::V4(_) => r == address,
            Address::V6(a) => if stands_for_v4(a@) {
                r matches Address::V4(b) && b@ == a@.subrange(12, 16)
            } else {
                r == address
            },
        },
{
    match address {
        Address::V4(_) => address,
        Address::V6(a) => {
            let mut i: usize = 0;
            while i < 10
                invariant
                    i <= 10,
                    address == Address::V6(a),
                    forall|j: int| 0 <= j < i ==> #[trigger] a@[j] == 0,
                decreases 10 - i,
            {
                if a[i] != 0 {
                    assert(a@[i as int] != 0);
                    return address;
                }
                i = i + 1;
            }
            if (a[10] == 0 && a[11] == 0) || (a[10] == 255 && a[11] == 255) {
                let b: [u8; 4] = [a[12], a[13], a[14], a[15]];
                assert(b@ =~= a@.subrange(12, 16));
                Address::V4(b)
            } else {
                address
            }
        },
    }
}

/// Whether the client's own socket is an IPv4 socket: it is of the kind of the address.
pub fn binds_v4(address: Address) -> (r: bool)
    ensures
        r == (address is V4),
{
    match address {
        Address::V4(_) => true,
        Address::V6(_) => false,
    }
}

/// What is to be done with a reply of so many bytes.
pub fn check_reply(bytes: usize) -> (r: Result<(), String>)
    ensures
        bytes > 0 ==> r is Ok,
        bytes == 0 ==> (r matches Err(text) && text@ == "receive zero byte"@),
{
    if bytes == 0 {
        return Err("receive zero byte".to_owned());
    }
    Ok(())
}

/// The IPv4 addresses that IPv6 addresses stand for are those behind 80 zero bits and 16 equal ones;
/// any other one bit makes it an address of its own.
pub proof fn few_addresses_stand_for_others(a: Seq<u8>, i: int)
    requires
        a.len() == 16,
    ensures
        stands_for_v4(a) ==> (0 <= i < 10 ==> a[i] == 0) && a[10] == a[11] && (a[10] == 0 || a[10]
            == 255),
        0 <= i < 10 && a[i] != 0 ==> !stands_for_v4(a),
        a[10] != a[11] ==> !stands_for_v4(a),
        a =~= Seq::new(16, |k: int| 0u8) ==> stands_for_v4(a),
{
}

} // verus!
