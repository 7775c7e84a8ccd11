//! Network helpers: the Wi-Fi binding hook, the choice of the LAN address,
//! the subnet broadcast address, the hosts the TCP probe visits, and the
//! platform name.
use vstd::prelude::*;

use crate::text::{ipv4_text, spec_ipv4_text, str_eq};

verus! {

/// Bind a raw socket descriptor to the Wi-Fi interface, on a platform that
/// routes sockets through the right interface: nothing to do, success. (On
/// iOS the application sets the interface option on the socket itself.)
pub fn bind_to_wifi(_fd: i32) -> (res: Result<(), std::io::Error>)
    ensures
        res is Ok,
{
    Ok(())
}

/// An address of a network interface, as far as the choice of the LAN
/// address looks at it.
#[derive(Debug, Clone, Copy)]
pub enum InterfaceAddr {
    V4([u8; 4]),
    V6 { loopback: bool },
}

/// An IPv4 address fit to be the LAN address: not loopback (127/8), not
/// link-local (169.254/16).
pub open spec fn spec_usable_v4(a: InterfaceAddr) -> bool {
    match a {
        InterfaceAddr::V4(o) => !(o@[0] == 127) && !(o@[0] == 169 && o@[1] == 254),
        InterfaceAddr::V6 { .. } => false,
    }
}

/// A private IPv4 address: 10/8, 172.16/12 or 192.168/16.
pub open spec fn spec_private_v4(o: Seq<u8>) -> bool {
    o[0] == 10 || (o[0] == 172 && 16 <= o[1] <= 31) || (o[0] == 192 && o[1] == 168)
}

/// The interface at position `i` is a usable IPv4 address named `en0` (Wi-Fi).
pub open spec fn spec_wifi_at(ifs: Seq<(String, InterfaceAddr)>, i: int) -> bool {
    spec_usable_v4(ifs[i].1) && ifs[i].0@ == "en0"@
}

/// The interface at position `i` has a usable private IPv4 address.
pub open spec fn spec_private_at(ifs: Seq<(String, InterfaceAddr)>, i: int) -> bool {
    spec_usable_v4(ifs[i].1) && spec_private_v4(ifs[i].1->V4_0@)
}

/// The interface chosen for the LAN address: the first usable `en0`, or
/// failing that the first usable private address.
pub open spec fn spec_chosen(ifs: Seq<(String, InterfaceAddr)>, i: int) -> bool {
    &&& 0 <= i < ifs.len()
    &&& if exists|j: int| 0 <= j < ifs.len() && #[trigger] spec_wifi_at(ifs, j) {
        spec_wifi_at(ifs, i) && forall|j: int| 0 <= j < i ==> !#[trigger] spec_wifi_at(ifs, j)
    } else {
        spec_private_at(ifs, i) && forall|j: int| 0 <= j < i ==> !#[trigger] spec_private_at(ifs, j)
    }
}

/// Choose the LAN address among the interfaces' addresses: the Wi-Fi
/// interface `en0` first, otherwise the first private IPv4 address;
/// loopback, link-local and IPv6 addresses are skipped. `None` when no
/// address qualifies.
pub fn select_lan_ipv4(interfaces: &Vec<(String, InterfaceAddr)>) -> (res: Option<[u8; 4]>)
    ensures
        match res {
            Some(o) => exists|i: int|
                spec_chosen(interfaces@, i) && #[trigger] interfaces@[i].1 == InterfaceAddr::V4(o),
            None => forall|i: int|
                0 <= i < interfaces@.len() ==> !#[trigger] spec_wifi_at(interfaces@, i)
                    && !spec_private_at(interfaces@, i),
        },
{
    let ghost ifs = interfaces@;
    let mut best: Option<usize> = None;
    let mut i: usize = 0;
    while i < interfaces.len()
        invariant
            0 <= i <= ifs.len(),
            ifs == interfaces@,
            forall|j: int| 0 <= j < i ==> !#[trigger] spec_wifi_at(ifs, j),
            match best {
                Some(b) => b < i && spec_private_at(ifs, b as int) && forall|j: int|
                    0 <= j < b ==> !#[trigger] spec_private_at(ifs, j),
                None => forall|j: int| 0 <= j < i ==> !#[trigger] spec_private_at(ifs, j),
            },
        decreases ifs.len() - i,
    {
        let (name, addr) = &interfaces[i];
        match addr {
            InterfaceAddr::V4(o) => {
                let usable = !(o[0] == 127) && !(o[0] == 169 && o[1] == 254);
                if usable {
                    let wifi = str_eq(name.as_str(), "en0");
                    proof {
                        reveal_strlit("en0");
                    }
                    if wifi {
                        proof {
                            assert(spec_wifi_at(ifs, i as int));
                            assert(spec_chosen(ifs, i as int));
                        }
                        return Some(*o);
                    }
                    let private = o[0] == 10 || (o[0] == 172 && 16 <= o[1] && o[1] <= 31) || (o[0]
                        == 192 && o[1] == 168);
                    if private && best.is_none() {
                        best = Some(i);
                    }
                }
            },
            InterfaceAddr::V6 { .. } => {},
        }
        i = i + 1;
    }
    match best {
        Some(b) => {
            let (_, addr) = &interfaces[b];
            match addr {
                InterfaceAddr::V4(o) => {
                    proof {
                        assert(spec_chosen(ifs, b as int));
                    }
                    Some(*o)
                },
                InterfaceAddr::V6 { .. } => None,
            }
        },
        None => None,
    }
}

/// An IPv4 address in one of the private ranges of RFC 1918: 10.0.0.0/8,
/// 172.16.0.0/12 or 192.168.0.0/16 (what `Ipv4Addr::is_private` tests).
pub open spec fn in_rfc1918(o: Seq<u8>) -> bool {
    ||| o[0] == 10u8
    ||| o[0] == 172u8 && 16u8 <= o[1] && o[1] < 32u8
    ||| o[0] == 192u8 && o[1] == 168u8
}

/// An IPv4 address that is neither loopback (127.0.0.0/8) nor link-local
/// (169.254.0.0/16).
pub open spec fn routable_v4(o: Seq<u8>) -> bool {
    o[0] != 127u8 && !(o[0] == 169u8 && o[1] == 254u8)
}

/// Interface `j` has a usable private IPv4 address, by the ranges above.
pub open spec fn private_lan_at(ifs: Seq<(String, InterfaceAddr)>, j: int) -> bool {
    ifs[j].1 matches InterfaceAddr::V4(o) && routable_v4(o@) && in_rfc1918(o@)
}

/// Interface `j` is `en0` with a usable IPv4 address.
pub open spec fn wifi_lan_at(ifs: Seq<(String, InterfaceAddr)>, j: int) -> bool {
    &&& ifs[j].0@ == "en0"@
    &&& (ifs[j].1 matches InterfaceAddr::V4(o) && routable_v4(o@))
}

/// Without a usable `en0`, the LAN address is the first usable address in
/// an RFC 1918 range, whichever of the three: `192.168.1.23` on `eth0` is
/// chosen over a later `172.17.0.1` on a Docker bridge, and only that
/// interface qualifies.
pub proof fn law_first_private_chosen(ifs: Seq<(String, InterfaceAddr)>, i: int)
    requires
        forall|j: int| 0 <= j < ifs.len() ==> !wifi_lan_at(ifs, j),
        0 <= i < ifs.len(),
        private_lan_at(ifs, i),
        forall|j: int| 0 <= j < i ==> !private_lan_at(ifs, j),
    ensures
        spec_chosen(ifs, i),
        forall|k: int| #[trigger] spec_chosen(ifs, k) ==> k == i,
{
    assert forall|j: int| 0 <= j < ifs.len() implies !#[trigger] spec_wifi_at(ifs, j) by {
        assert(!wifi_lan_at(ifs, j));
    }
    assert forall|j: int| 0 <= j < ifs.len() implies (#[trigger] spec_private_at(ifs, j)
        <==> private_lan_at(ifs, j)) by {
        match ifs[j].1 {
            InterfaceAddr::V4(o) => {},
            InterfaceAddr::V6 { .. } => {},
        }
    }
    assert forall|k: int| #[trigger] spec_chosen(ifs, k) implies k == i by {
        if k < i {
            assert(private_lan_at(ifs, k));
        } else if k > i {
            assert(spec_private_at(ifs, i));
        }
    }
}

/// A usable `en0` wins: the first one is the LAN address, whatever other
/// private addresses come before it.
pub proof fn law_wifi_chosen(ifs: Seq<(String, InterfaceAddr)>, i: int)
    requires
        0 <= i < ifs.len(),
        wifi_lan_at(ifs, i),
        forall|j: int| 0 <= j < i ==> !wifi_lan_at(ifs, j),
    ensures
        spec_chosen(ifs, i),
        forall|k: int| #[trigger] spec_chosen(ifs, k) ==> k == i,
{
    assert forall|j: int| 0 <= j < ifs.len() implies (#[trigger] spec_wifi_at(ifs, j)
        <==> wifi_lan_at(ifs, j)) by {
        match ifs[j].1 {
            InterfaceAddr::V4(o) => {},
            InterfaceAddr::V6 { .. } => {},
        }
    }
    assert(spec_wifi_at(ifs, i));
    assert forall|k: int| #[trigger] spec_chosen(ifs, k) implies k == i by {
        if k < i {
            assert(wifi_lan_at(ifs, k));
        } else if k > i {
            assert(spec_wifi_at(ifs, i));
        }
    }
}

/// The broadcast address of the /24 subnet of an IPv4 address.
pub fn subnet_broadcast(ip: [u8; 4]) -> (res: [u8; 4])
    ensures
        res@ == seq![ip@[0], ip@[1], ip@[2], 255u8],
{
    let res = [ip[0], ip[1], ip[2], 255u8];
    proof {
        assert(res@ =~= seq![ip@[0], ip@[1], ip@[2], 255u8]);
    }
    res
}

/// Host `h` of the /24 subnet of `local` is to be probed: it is .1 to .254,
/// not `local` itself, and no known device has its address.
pub open spec fn spec_probe_wanted(local: Seq<u8>, known: Seq<String>, h: u8) -> bool {
    &&& 1 <= h <= 254
    &&& h != local[3]
    &&& forall|j: int|
        0 <= j < known.len() ==> known[j]@ != spec_ipv4_text(seq![local[0], local[1], local[2], h])
}

/// Whether the TCP probe visits host `host` of the /24 subnet of `local`,
/// given the addresses (as text) of the devices online when it comes to it:
/// only .1 to .254, never `local` itself nor an online device's address.
pub fn probe_wanted(local: [u8; 4], online: &Vec<String>, host: u8) -> (res: bool)
    ensures
        res == spec_probe_wanted(local@, online@, host),
{
    if host < 1 || host > 254 || host == local[3] {
        return false;
    }
    let ip = [local[0], local[1], local[2], host];
    let text = ipv4_text(ip);
    proof {
        assert(ip@ =~= seq![local@[0], local@[1], local@[2], host]);
    }
    let mut j: usize = 0;
    while j < online.len()
        invariant
            0 <= j <= online@.len(),
            text@ == spec_ipv4_text(seq![local@[0], local@[1], local@[2], host]),
            forall|x: int| 0 <= x < j ==> online@[x]@ != text@,
        decreases online@.len() - j,
    {
        if str_eq(online[j].as_str(), text.as_str()) {
            return false;
        }
        j = j + 1;
    }
    true
}

/// The hosts the TCP probe visits: every address .1 to .254 of the /24
/// subnet of `local`, in order, except `local` itself and the addresses
/// (as text) of the devices already known.
pub fn probe_targets(local: [u8; 4], known: &Vec<String>) -> (res: Vec<[u8; 4]>)
    ensures
        forall|k: int|
            0 <= k < res@.len() ==> (#[trigger] res@[k])@.subrange(0, 3) == local@.subrange(0, 3)
                && 1 <= res@[k]@[3] <= 254 && res@[k]@ != local@ && forall|j: int|
                0 <= j < known@.len() ==> known@[j]@ != spec_ipv4_text(res@[k]@),
        forall|a: int, b: int| 0 <= a < b < res@.len() ==> res@[a]@[3] < res@[b]@[3],
        forall|h: u8|
            #[trigger] spec_probe_wanted(local@, known@, h) ==> exists|k: int|
                0 <= k < res@.len() && res@[k]@[3] == h,
{
    let mut res: Vec<[u8; 4]> = Vec::new();
    let mut host: u8 = 1;
    while host <= 254
        invariant
            1 <= host <= 255,
            forall|k: int|
                0 <= k < res@.len() ==> (#[trigger] res@[k])@.subrange(0, 3) == local@.subrange(0, 3)
                    && 1 <= res@[k]@[3] < host && res@[k]@ != local@ && forall|j: int|
                    0 <= j < known@.len() ==> known@[j]@ != spec_ipv4_text(res@[k]@),
            forall|a: int, b: int| 0 <= a < b < res@.len() ==> res@[a]@[3] < res@[b]@[3],
            forall|h: u8|
                #[trigger] spec_probe_wanted(local@, known@, h) && h < host ==> exists|k: int|
                    0 <= k < res@.len() && res@[k]@[3] == h,
        decreases 255 - host,
    {
        let ip = [local[0], local[1], local[2], host];
        let text = ipv4_text(ip);
        let is_local = host == local[3];
        let mut is_known = false;
        let mut j: usize = 0;
        while j < known.len()
            invariant
                0 <= j <= known@.len(),
                is_known <==> exists|x: int| 0 <= x < j && known@[x]@ == text@,
            decreases known@.len() - j,
        {
            if str_eq(known[j].as_str(), text.as_str()) {
                is_known = true;
            }
            j = j + 1;
        }
        proof {
            assert(ip@ =~= seq![local@[0], local@[1], local@[2], host]);
            assert(ip@.subrange(0, 3) =~= local@.subrange(0, 3));
            if ip@ == local@ {
                assert(ip@[3] == local@[3]);
            }
        }
        if !is_local && !is_known {
            let ghost old_res = res@;
            res.push(ip);
            proof {
                assert(res@[res@.len() - 1] == ip);
                assert forall|h: u8|
                    #[trigger] spec_probe_wanted(local@, known@, h) && h < host + 1 implies exists|k: int|
                        0 <= k < res@.len() && res@[k]@[3] == h by {
                    if h < host {
                        let k = choose|k: int| 0 <= k < old_res.len() && old_res[k]@[3] == h;
                        assert(res@[k] == old_res[k]);
                    } else {
                        assert(res@[res@.len() - 1]@[3] == h);
                    }
                }
            }
        } else {
            proof {
                assert forall|h: u8|
                    #[trigger] spec_probe_wanted(local@, known@, h) && h < host + 1 implies exists|k: int|
                        0 <= k < res@.len() && res@[k]@[3] == h by {
                    if h == host {
                        if is_known {
                            let x = choose|x: int| 0 <= x < known@.len() && known@[x]@ == text@;
                        }
                    }
                }
            }
        }
        host = host + 1;
    }
    res
}

/// The platform name of the operating system `os` (as `std::env::consts::OS`
/// names it): one of the platforms the protocol knows, or "unknown".
pub open spec fn spec_platform(os: Seq<char>) -> Seq<char> {
    if os == "windows"@ || os == "macos"@ || os == "linux"@ || os == "android"@ || os == "ios"@ {
        os
    } else {
        "unknown"@
    }
}

/// The platform name announced for the operating system `os`.
pub fn detect_platform(os: &str) -> (res: &'static str)
    ensures
        res@ == spec_platform(os@),
{
    if str_eq(os, "windows") {
        "windows"
    } else if str_eq(os, "macos") {
        "macos"
    } else if str_eq(os, "linux") {
        "linux"
    } else if str_eq(os, "android") {
        "android"
    } else if str_eq(os, "ios") {
        "ios"
    } else {
        "unknown"
    }
}

} // verus!
