use vstd::prelude::*;
use vstd::string::*;

use crate::error::SnifferError;

verus! {

/// A snapshot of one host network adapter: its name, the text form of each
/// address assigned to it, and whether it is a loopback adapter.
#[derive(Debug)]
pub struct InterfaceDescriptor {
    pub name: String,
    pub ips: Vec<String>,
    pub is_loopback: bool,
}

/// The adapter may serve as the capture target for `target`: it is not a
/// loopback adapter and one of its addresses reads exactly `target`.
pub open spec fn owns_address(d: InterfaceDescriptor, target: Seq<char>) -> bool {
    &&& !d.is_loopback
    &&& exists|j: int| 0 <= j < d.ips@.len() && (#[trigger] d.ips@[j])@ == target
}

/// `i` is the first adapter in enumeration order that owns `target`.
pub open spec fn is_first_owner(ifaces: Seq<InterfaceDescriptor>, target: Seq<char>, i: int) -> bool {
    &&& 0 <= i < ifaces.len()
    &&& owns_address(ifaces[i], target)
    &&& forall|j: int| 0 <= j < i ==> !owns_address(#[trigger] ifaces[j], target)
}

/// No adapter owns `target`.
pub open spec fn no_owner(ifaces: Seq<InterfaceDescriptor>, target: Seq<char>) -> bool {
    forall|j: int| 0 <= j < ifaces.len() ==> !owns_address(#[trigger] ifaces[j], target)
}

/// What resolution answers for the adapters `ifaces`: the first owner of
/// `target`, or `InterfaceNotFound` carrying `target` when there is none.
pub open spec fn resolution(
    ifaces: Seq<InterfaceDescriptor>,
    target: Seq<char>,
    r: Result<usize, SnifferError>,
) -> bool {
    match r {
        Ok(i) => is_first_owner(ifaces, target, i as int),
        Err(e) => no_owner(ifaces, target) && (e matches SnifferError::InterfaceNotFound(s)
            && s@ == target),
    }
}

/// Whether one of `d`'s addresses reads exactly `target`.
fn has_address(d: &InterfaceDescriptor, target: &String) -> (r: bool)
    ensures
        r == exists|j: int| 0 <= j < d.ips@.len() && (#[trigger] d.ips@[j])@ == target@,
{
    let mut j: usize = 0;
    while j < d.ips.len()
        invariant
            j <= d.ips@.len(),
            forall|k: int| 0 <= k < j ==> (#[trigger] d.ips@[k])@ != target@,
        decreases d.ips@.len() - j,
    {
        if d.ips[j] == *target {
            return true;
        }
        j += 1;
    }
    false
}

/// Picks, in enumeration order, the first non-loopback adapter that has an
/// address whose text form equals `target_ip`. The adapters' up or down
/// state is not consulted.
pub fn select_interface(ifaces: &Vec<InterfaceDescriptor>, target_ip: &str) -> (r: Result<
    usize,
    SnifferError,
>)
    ensures
        resolution(ifaces@, target_ip@, r),
{
    let target = String::from_str(target_ip);
    let mut i: usize = 0;
    while i < ifaces.len()
        invariant
            i <= ifaces@.len(),
            target@ == target_ip@,
            forall|j: int| 0 <= j < i ==> !owns_address(#[trigger] ifaces@[j], target_ip@),
        decreases ifaces@.len() - i,
    {
        if !ifaces[i].is_loopback && has_address(&ifaces[i], &target) {
            return Ok(i);
        }
        i += 1;
    }
    Err(SnifferError::InterfaceNotFound(target))
}

/// Resolves `target_ip` against the adapters the host listed, in the order
/// listed: the first non-loopback adapter owning the address is handed back,
/// and `InterfaceNotFound` carrying the address comes when there is none.
pub fn find_target_interface(interfaces: Vec<InterfaceDescriptor>, target_ip: &str) -> (r: Result<
    InterfaceDescriptor,
    SnifferError,
>)
    ensures
        r matches Ok(d) ==> exists|i: int|
            is_first_owner(interfaces@, target_ip@, i) && d == #[trigger] interfaces@[i],
        r matches Err(e) ==> no_owner(interfaces@, target_ip@) && (e matches SnifferError::InterfaceNotFound(s)
            && s@ == target_ip@),
{
    let mut interfaces = interfaces;
    let ghost listed = interfaces@;
    match select_interface(&interfaces, target_ip) {
        Ok(i) => {
            let d = interfaces.remove(i);
            assert(is_first_owner(listed, target_ip@, i as int) && d == listed[i as int]);
            Ok(d)
        },
        Err(e) => Err(e),
    }
}

/// When exactly one adapter owns the address, resolution picks that adapter.
pub proof fn lemma_sole_owner_selected(
    ifaces: Seq<InterfaceDescriptor>,
    target: Seq<char>,
    k: int,
    r: Result<usize, SnifferError>,
)
    requires
        0 <= k < ifaces.len(),
        owns_address(ifaces[k], target),
        forall|j: int| 0 <= j < ifaces.len() && j != k ==> !owns_address(#[trigger] ifaces[j], target),
        resolution(ifaces, target, r),
    ensures
        r == Ok::<usize, SnifferError>(k as usize),
{
}

/// When the address sits only on loopback adapters, or on none, resolution
/// fails with `InterfaceNotFound`.
pub proof fn lemma_loopback_or_absent_not_found(
    ifaces: Seq<InterfaceDescriptor>,
    target: Seq<char>,
    r: Result<usize, SnifferError>,
)
    requires
        forall|j: int, m: int|
            0 <= j < ifaces.len() && 0 <= m < ifaces[j].ips@.len() && (#[trigger] ifaces[j].ips@[m])@
                == target ==> ifaces[j].is_loopback,
        resolution(ifaces, target, r),
    ensures
        r matches Err(SnifferError::InterfaceNotFound(s)) && s@ == target,
{
}

} // verus!
