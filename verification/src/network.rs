//! Network interfaces as the UI presents them, and the addresses the dynv6
//! sync publishes for a chosen interface.
use vstd::prelude::*;

use network_interface::{Addr, NetworkInterface, NetworkInterfaceConfig};

use crate::state::{copy_opt_string, opt_view};
use crate::text::{owned, push_str, str_eq};

verus! {

/// A network interface as presented to the UI.
#[derive(Debug, Clone)]
pub struct InterfaceInfo {
    pub name: String,
    pub mac: Option<String>,
    pub ipv4: Vec<String>,
    pub ipv6: Vec<String>,
}

/// One address bound to an interface, in its text form.
#[derive(Debug, Clone)]
pub enum IfAddr {
    V4(String),
    V6(String),
}

/// An interface as the operating system lists it.
#[derive(Debug, Clone)]
pub struct RawInterface {
    pub name: String,
    pub mac: Option<String>,
    pub addrs: Vec<IfAddr>,
}

/// The IPv4 addresses among `addrs`, in order.
pub open spec fn v4_texts(addrs: Seq<IfAddr>) -> Seq<Seq<char>>
    decreases addrs.len(),
{
    if addrs.len() == 0 {
        Seq::empty()
    } else {
        let rest = v4_texts(addrs.drop_last());
        match addrs.last() {
            IfAddr::V4(a) => rest.push(a@),
            IfAddr::V6(_) => rest,
        }
    }
}

/// The IPv6 addresses among `addrs`, in order.
pub open spec fn v6_texts(addrs: Seq<IfAddr>) -> Seq<Seq<char>>
    decreases addrs.len(),
{
    if addrs.len() == 0 {
        Seq::empty()
    } else {
        let rest = v6_texts(addrs.drop_last());
        match addrs.last() {
            IfAddr::V6(a) => rest.push(a@),
            IfAddr::V4(_) => rest,
        }
    }
}

/// The character views of a list of strings.
pub open spec fn texts(v: Seq<String>) -> Seq<Seq<char>> {
    v.map_values(|s: String| s@)
}

/// Whether `info` is what the UI shows for `raw`.
pub open spec fn presents(info: InterfaceInfo, raw: RawInterface) -> bool {
    &&& info.name == raw.name
    &&& info.mac == raw.mac
    &&& texts(info.ipv4@) == v4_texts(raw.addrs@)
    &&& texts(info.ipv6@) == v6_texts(raw.addrs@)
}

/// Whether `list` is what the UI shows for `raws`, entry for entry.
pub open spec fn presents_all(list: Seq<InterfaceInfo>, raws: Seq<RawInterface>) -> bool {
    &&& raws.len() == list.len()
    &&& forall|i: int| 0 <= i < raws.len() ==> presents(#[trigger] list[i], raws[i])
}

/// The interfaces the operating system reports, or the error's text.
/// Trusted: `network_interface::NetworkInterface::show`, each entry moved
/// field by field and each address written with `to_string`; the list
/// depends on the machine, so nothing is stated of it.
#[verifier::external_body]
fn show_interfaces() -> Result<Vec<RawInterface>, String> {
    match NetworkInterface::show() {
        Ok(list) => Ok(list.into_iter().map(|itf| RawInterface {
            name: itf.name,
            mac: itf.mac_addr,
            addrs: itf.addr.iter().map(|a| match a {
                Addr::V4(v) => IfAddr::V4(v.ip.to_string()),
                Addr::V6(v) => IfAddr::V6(v.ip.to_string()),
            }).collect(),
        }).collect()),
        Err(e) => Err(e.to_string()),
    }
}

/// The UI's view of one interface: its addresses split by family, each in
/// the order the system lists them.
pub fn interface_info(raw: &RawInterface) -> (info: InterfaceInfo)
    ensures
        presents(info, *raw),
{
    let mut ipv4: Vec<String> = Vec::new();
    let mut ipv6: Vec<String> = Vec::new();
    let n = raw.addrs.len();
    for i in 0..n
        invariant
            n == raw.addrs@.len(),
            texts(ipv4@) == v4_texts(raw.addrs@.take(i as int)),
            texts(ipv6@) == v6_texts(raw.addrs@.take(i as int)),
    {
        assert(raw.addrs@.take(i + 1).drop_last() =~= raw.addrs@.take(i as int));
        match &raw.addrs[i] {
            IfAddr::V4(a) => {
                ipv4.push(a.clone());
                assert(texts(ipv4@) =~= v4_texts(raw.addrs@.take(i + 1)));
                assert(texts(ipv6@) =~= v6_texts(raw.addrs@.take(i + 1)));
            },
            IfAddr::V6(a) => {
                ipv6.push(a.clone());
                assert(texts(ipv4@) =~= v4_texts(raw.addrs@.take(i + 1)));
                assert(texts(ipv6@) =~= v6_texts(raw.addrs@.take(i + 1)));
            },
        }
    }
    assert(raw.addrs@.take(n as int) =~= raw.addrs@);
    InterfaceInfo { name: raw.name.clone(), mac: copy_opt_string(&raw.mac), ipv4, ipv6 }
}

/// The UI's view of every interface, in order.
pub fn interface_infos(raws: &Vec<RawInterface>) -> (out: Vec<InterfaceInfo>)
    ensures
        out@.len() == raws@.len(),
        forall|i: int| 0 <= i < raws@.len() ==> presents(#[trigger] out@[i], raws@[i]),
{
    let mut out: Vec<InterfaceInfo> = Vec::new();
    let n = raws.len();
    for i in 0..n
        invariant
            n == raws@.len(),
            out@.len() == i,
            forall|k: int| 0 <= k < i ==> presents(#[trigger] out@[k], raws@[k]),
    {
        out.push(interface_info(&raws[i]));
    }
    out
}

/// What the interface listing gives the UI: each interface's view, in
/// order; a listing error `cause` becomes "enumerating interfaces: <cause>".
pub fn interfaces_from_listing(listing: Result<Vec<RawInterface>, String>) -> (r: Result<
    Vec<InterfaceInfo>,
    String,
>)
    ensures
        listing matches Ok(raws) ==> r matches Ok(list) && presents_all(list@, raws@),
        listing matches Err(cause) ==> r matches Err(msg) && msg@ == "enumerating interfaces: "@
            + cause@,
{
    match listing {
        Ok(raws) => Ok(interface_infos(&raws)),
        Err(cause) => {
            let mut msg = owned("enumerating interfaces: ");
            push_str(&mut msg, cause.as_str());
            Err(msg)
        },
    }
}

/// The interfaces the UI offers to pick from; an enumeration failure is
/// reported as "enumerating interfaces: <cause>".
pub fn scan_interfaces() -> (r: Result<Vec<InterfaceInfo>, String>)
    ensures
        r is Ok ==> exists|raws: Seq<RawInterface>| #[trigger] presents_all(r->Ok_0@, raws),
        r matches Err(msg) ==> exists|cause: Seq<char>| msg@ == "enumerating interfaces: "@ + cause,
{
    let listing = show_interfaces();
    let ghost g = listing;
    let r = interfaces_from_listing(listing);
    proof {
        match g {
            Ok(raws) => {
                assert(presents_all(r->Ok_0@, raws@));
            },
            Err(cause) => {
                assert(r->Err_0@ == "enumerating interfaces: "@ + cause@);
            },
        }
    }
    r
}

/// The position of the first interface called `name`, if any.
pub open spec fn find_named(list: Seq<InterfaceInfo>, name: Seq<char>) -> Option<int>
    decreases list.len(),
{
    if list.len() == 0 {
        None
    } else {
        match find_named(list.drop_last(), name) {
            Some(i) => Some(i),
            None => if list.last().name@ == name {
                Some(list.len() - 1)
            } else {
                None
            },
        }
    }
}

/// The first entry of a list of addresses, if any.
pub open spec fn first_text(v: Seq<String>) -> Option<Seq<char>> {
    if v.len() > 0 {
        Some(v[0]@)
    } else {
        None
    }
}

/// The first IPv4 and first IPv6 address of the first interface called
/// `name`; none of either when there is no such interface.
pub open spec fn primary_of(list: Seq<InterfaceInfo>, name: Seq<char>) -> (
    Option<Seq<char>>,
    Option<Seq<char>>,
) {
    match find_named(list, name) {
        Some(i) => (first_text(list[i].ipv4@), first_text(list[i].ipv6@)),
        None => (None, None),
    }
}

proof fn lemma_find_named(list: Seq<InterfaceInfo>, name: Seq<char>)
    ensures
        find_named(list, name) matches Some(i) ==> 0 <= i < list.len() && list[i].name@ == name
            && forall|j: int| 0 <= j < i ==> #[trigger] list[j].name@ != name,
        find_named(list, name) is None ==> forall|j: int|
            0 <= j < list.len() ==> #[trigger] list[j].name@ != name,
    decreases list.len(),
{
    if list.len() > 0 {
        lemma_find_named(list.drop_last(), name);
        assert forall|j: int| 0 <= j < list.len() - 1 implies #[trigger] list[j] == list.drop_last()[j] by {}
    }
}

fn first_of(v: &Vec<String>) -> (r: Option<String>)
    ensures
        opt_view(r) == first_text(v@),
{
    if v.len() > 0 {
        Some(v[0].clone())
    } else {
        None
    }
}

/// The addresses dynv6 publishes for the interface called `name`.
pub fn first_addrs(list: &Vec<InterfaceInfo>, name: &str) -> (r: (Option<String>, Option<String>))
    ensures
        (opt_view(r.0), opt_view(r.1)) == primary_of(list@, name@),
{
    proof {
        lemma_find_named(list@, name@);
    }
    let n = list.len();
    let mut i: usize = 0;
    while i < n
        invariant
            i <= n,
            n == list@.len(),
            forall|j: int| 0 <= j < i ==> #[trigger] list@[j].name@ != name@,
        decreases n - i,
    {
        if str_eq(list[i].name.as_str(), name) {
            let itf = &list[i];
            proof {
                lemma_find_named(list@, name@);
                if find_named(list@, name@) is None {
                    assert(list@[i as int].name@ != name@);
                } else {
                    let k = find_named(list@, name@)->0;
                    if k < i {
                        assert(list@[k].name@ != name@);
                    } else if k > i {
                        assert(list@[i as int].name@ != name@);
                    }
                }
            }
            return (first_of(&itf.ipv4), first_of(&itf.ipv6));
        }
        i = i + 1;
    }
    proof {
        lemma_find_named(list@, name@);
        if find_named(list@, name@) is Some {
            let k = find_named(list@, name@)->0;
            assert(list@[k].name@ != name@);
        }
    }
    (None, None)
}

/// The addresses dynv6 publishes for `name`, given what the interface scan
/// gave: from a listing, the first IPv4 and IPv6 address of the first
/// interface so called (none of either for an unknown name, which is no
/// error); a scan error is handed on unchanged.
pub fn addrs_from_scan(scan: Result<Vec<InterfaceInfo>, String>, name: &str) -> (r: Result<
    (Option<String>, Option<String>),
    String,
>)
    ensures
        scan matches Ok(list) ==> r matches Ok(p) && (opt_view(p.0), opt_view(p.1)) == primary_of(
            list@,
            name@,
        ),
        scan matches Err(e) ==> r == Err::<(Option<String>, Option<String>), String>(e),
{
    match scan {
        Ok(list) => Ok(first_addrs(&list, name)),
        Err(e) => Err(e),
    }
}

/// The first IPv4/IPv6 address currently bound to the interface called
/// `name`, as dynv6 publishes them; an enumeration failure is passed on.
pub fn primary_addrs(name: &str) -> (r: Result<(Option<String>, Option<String>), String>)
    ensures
        r matches Ok(p) ==> exists|list: Seq<InterfaceInfo>|
            (opt_view(p.0), opt_view(p.1)) == #[trigger] primary_of(list, name@),
        r matches Err(msg) ==> exists|cause: Seq<char>| msg@ == "enumerating interfaces: "@ + cause,
{
    let scan = scan_interfaces();
    let ghost g = scan;
    let r = addrs_from_scan(scan, name);
    proof {
        if let Ok(list) = g {
            let p = r->Ok_0;
            assert((opt_view(p.0), opt_view(p.1)) == primary_of(list@, name@));
        }
    }
    r
}

} // verus!
