use vstd::prelude::*;
use crate::ip::addr::{spec_is_eligible_ipv4, spec_is_eligible_ipv6, is_eligible_ipv4, is_eligible_ipv6, IpAddr, Ipv4Addr, Ipv6Addr};
use crate::text::str_equals;

verus! {

/// What the operating system reports of one address of one network interface.
pub struct InterfaceEntry {
    /// The interface's name.
    pub name: String,
    /// The interface is up and running.
    pub running: bool,
    /// The interface address, where it is an IPv4 or IPv6 one.
    pub address: Option<IpAddr>,
}

/// The names of the interfaces that carry the host's own traffic.
pub open spec fn main_interface_names() -> Seq<Seq<char>> {
    seq!["eth0"@, "wlan0"@, "en0"@, "eno0"@, "wlo0"@]
}

/// Whether `name` is one of the main interface names.
pub fn is_main_interface(name: &str) -> (r: bool)
    ensures
        r == main_interface_names().contains(name@),
{
    let ghost names = main_interface_names();
    if str_equals(name, "eth0") {
        assert(names[0] == name@);
        return true;
    }
    if str_equals(name, "wlan0") {
        assert(names[1] == name@);
        return true;
    }
    if str_equals(name, "en0") {
        assert(names[2] == name@);
        return true;
    }
    if str_equals(name, "eno0") {
        assert(names[3] == name@);
        return true;
    }
    if str_equals(name, "wlo0") {
        assert(names[4] == name@);
        return true;
    }
    assert(!names.contains(name@)) by {
        if names.contains(name@) {
            let k = choose|k: int| 0 <= k < names.len() && names[k] == name@;
            assert(0 <= k < 5);
        }
    }
    false
}

/// The eligible IPv4 address that an interface entry offers, if any.
pub open spec fn entry_ipv4(e: InterfaceEntry) -> Option<Ipv4Addr> {
    if main_interface_names().contains(e.name@) && e.running {
        match e.address {
            Some(IpAddr::V4(a)) => if spec_is_eligible_ipv4(a) {
                Some(a)
            } else {
                None
            },
            _ => None,
        }
    } else {
        None
    }
}

/// The eligible IPv6 address that an interface entry offers, if any.
pub open spec fn entry_ipv6(e: InterfaceEntry) -> Option<Ipv6Addr> {
    if main_interface_names().contains(e.name@) && e.running {
        match e.address {
            Some(IpAddr::V6(a)) => if spec_is_eligible_ipv6(a) {
                Some(a)
            } else {
                None
            },
            _ => None,
        }
    } else {
        None
    }
}

/// The first eligible IPv4 address offered by the entries, in their order.
pub open spec fn first_system_ipv4(entries: Seq<InterfaceEntry>) -> Option<Ipv4Addr>
    decreases entries.len(),
{
    if entries.len() == 0 {
        None
    } else {
        match entry_ipv4(entries[0]) {
            Some(a) => Some(a),
            None => first_system_ipv4(entries.skip(1)),
        }
    }
}

/// The first eligible IPv6 address offered by the entries, in their order.
pub open spec fn first_system_ipv6(entries: Seq<InterfaceEntry>) -> Option<Ipv6Addr>
    decreases entries.len(),
{
    if entries.len() == 0 {
        None
    } else {
        match entry_ipv6(entries[0]) {
            Some(a) => Some(a),
            None => first_system_ipv6(entries.skip(1)),
        }
    }
}

/// The IPv4 address to publish, chosen among the host's interface addresses:
/// the first one on a running main interface that is eligible.
pub fn select_system_ipv4(entries: &[InterfaceEntry]) -> (r: Option<IpAddr>)
    ensures
        r == (match first_system_ipv4(entries@) {
            Some(a) => Some(IpAddr::V4(a)),
            None => None,
        }),
{
    let mut i: usize = 0;
    proof {
        assert(entries@.skip(0) =~= entries@);
    }
    while i < entries.len()
        invariant
            i <= entries@.len(),
            first_system_ipv4(entries@) == first_system_ipv4(entries@.skip(i as int)),
        decreases entries@.len() - i,
    {
        let e = &entries[i];
        proof {
            assert(entries@.skip(i as int)[0] == entries@[i as int]);
            assert(entries@.skip(i as int).skip(1) =~= entries@.skip(i + 1));
        }
        if is_main_interface(e.name.as_str()) && e.running {
            match e.address {
                Some(IpAddr::V4(a)) => {
                    if is_eligible_ipv4(a) {
                        return Some(IpAddr::V4(a));
                    }
                },
                _ => {},
            }
        }
        i = i + 1;
    }
    proof {
        assert(entries@.skip(i as int) =~= Seq::<InterfaceEntry>::empty());
    }
    None
}

/// The IPv6 address to publish, chosen among the host's interface addresses:
/// the first one on a running main interface that is eligible.
pub fn select_system_ipv6(entries: &[InterfaceEntry]) -> (r: Option<IpAddr>)
    ensures
        r == (match first_system_ipv6(entries@) {
            Some(a) => Some(IpAddr::V6(a)),
            None => None,
        }),
{
    let mut i: usize = 0;
    proof {
        assert(entries@.skip(0) =~= entries@);
    }
    while i < entries.len()
        invariant
            i <= entries@.len(),
            first_system_ipv6(entries@) == first_system_ipv6(entries@.skip(i as int)),
        decreases entries@.len() - i,
    {
        let e = &entries[i];
        proof {
            assert(entries@.skip(i as int)[0] == entries@[i as int]);
            assert(entries@.skip(i as int).skip(1) =~= entries@.skip(i + 1));
        }
        if is_main_interface(e.name.as_str()) && e.running {
            match e.address {
                Some(IpAddr::V6(a)) => {
                    if is_eligible_ipv6(a) {
                        return Some(IpAddr::V6(a));
                    }
                },
                _ => {},
            }
        }
        i = i + 1;
    }
    proof {
        assert(entries@.skip(i as int) =~= Seq::<InterfaceEntry>::empty());
    }
    None
}

/// The address chosen among the host's interface addresses is eligible and
/// offered by a running main interface, and no earlier entry offers one.
pub proof fn lemma_first_system_ipv4(entries: Seq<InterfaceEntry>)
    ensures
        first_system_ipv4(entries) matches Some(a) ==> exists|k: int|
            0 <= k < entries.len() && entries[k].running && main_interface_names().contains(
                entries[k].name@,
            ) && entries[k].address == Some(IpAddr::V4(a)) && spec_is_eligible_ipv4(a) && (forall|
                j: int,
            | 0 <= j < k ==> entry_ipv4(#[trigger] entries[j]) is None),
        first_system_ipv4(entries) is None ==> forall|k: int|
            0 <= k < entries.len() ==> entry_ipv4(#[trigger] entries[k]) is None,
    decreases entries.len(),
{
    if entries.len() > 0 {
        let rest = entries.skip(1);
        lemma_first_system_ipv4(rest);
        if entry_ipv4(entries[0]) is None {
            if let Some(a) = first_system_ipv4(rest) {
                let k = choose|k: int|
                    0 <= k < rest.len() && rest[k].running && main_interface_names().contains(
                        rest[k].name@,
                    ) && rest[k].address == Some(IpAddr::V4(a)) && spec_is_eligible_ipv4(a) && (
                    forall|j: int| 0 <= j < k ==> entry_ipv4(#[trigger] rest[j]) is None);
                assert(entries[k + 1] == rest[k]);
                assert forall|j: int| 0 <= j < k + 1 implies entry_ipv4(#[trigger] entries[j]) is None by {
                    if j > 0 {
                        assert(entries[j] == rest[j - 1]);
                    }
                }
            } else {
                assert forall|k: int| 0 <= k < entries.len() implies entry_ipv4(#[trigger] entries[k]) is None by {
                    if k > 0 {
                        assert(entries[k] == rest[k - 1]);
                    }
                }
            }
        }
    }
}

/// The IPv6 counterpart of `lemma_first_system_ipv4`.
pub proof fn lemma_first_system_ipv6(entries: Seq<InterfaceEntry>)
    ensures
        first_system_ipv6(entries) matches Some(a) ==> exists|k: int|
            0 <= k < entries.len() && entries[k].running && main_interface_names().contains(
                entries[k].name@,
            ) && entries[k].address == Some(IpAddr::V6(a)) && spec_is_eligible_ipv6(a) && (forall|
                j: int,
            | 0 <= j < k ==> entry_ipv6(#[trigger] entries[j]) is None),
        first_system_ipv6(entries) is None ==> forall|k: int|
            0 <= k < entries.len() ==> entry_ipv6(#[trigger] entries[k]) is None,
    decreases entries.len(),
{
    if entries.len() > 0 {
        let rest = entries.skip(1);
        lemma_first_system_ipv6(rest);
        if entry_ipv6(entries[0]) is None {
            if let Some(a) = first_system_ipv6(rest) {
                let k = choose|k: int|
                    0 <= k < rest.len() && rest[k].running && main_interface_names().contains(
                        rest[k].name@,
                    ) && rest[k].address == Some(IpAddr::V6(a)) && spec_is_eligible_ipv6(a) && (
                    forall|j: int| 0 <= j < k ==> entry_ipv6(#[trigger] rest[j]) is None);
                assert(entries[k + 1] == rest[k]);
                assert forall|j: int| 0 <= j < k + 1 implies entry_ipv6(#[trigger] entries[j]) is None by {
                    if j > 0 {
                        assert(entries[j] == rest[j - 1]);
                    }
                }
            } else {
                assert forall|k: int| 0 <= k < entries.len() implies entry_ipv6(#[trigger] entries[k]) is None by {
                    if k > 0 {
                        assert(entries[k] == rest[k - 1]);
                    }
                }
            }
        }
    }
}

/// Which address families to look up, from the `--4` and `--6` flags: one
/// flag alone restricts to its family, none or both mean both families.
pub fn families_to_fetch(only_four: bool, only_six: bool) -> (r: (bool, bool))
    ensures
        r.0 == (only_four || !only_six),
        r.1 == (only_six || !only_four),
        r.0 || r.1,
{
    if only_four && !only_six {
        (true, false)
    } else if !only_four && only_six {
        (false, true)
    } else {
        (true, true)
    }
}

} // verus!
