//! The source-IP blacklist: an immutable set of denied addresses, built
//! once at startup and read-only afterwards.

use vstd::prelude::*;

verus! {

/// A set of denied source IP addresses in string form.
pub struct Blacklist {
    ips: Vec<String>,
}

impl Blacklist {
    /// The set of denied addresses, as character sequences.
    pub closed spec fn view(self) -> Set<Seq<char>> {
        Set::new(|ip: Seq<char>| exists|i: int| 0 <= i < self.ips@.len() && self.ips@[i]@ == ip)
    }

    /// Build the blacklist from the configured addresses.
    pub fn new(ips: Vec<String>) -> (b: Blacklist)
        ensures
            forall|ip: Seq<char>| #[trigger]
                b@.contains(ip) <==> exists|i: int| 0 <= i < ips@.len() && ips@[i]@ == ip,
    {
        Blacklist { ips }
    }

    /// Pure membership test: is `ip` a denied source address?
    pub fn is_blocked(&self, ip: &String) -> (r: bool)
        ensures
            r == self@.contains(ip@),
    {
        let mut i: usize = 0;
        while i < self.ips.len()
            invariant
                0 <= i <= self.ips@.len(),
                forall|j: int| 0 <= j < i ==> self.ips@[j]@ != ip@,
            decreases self.ips@.len() - i,
        {
            if self.ips[i].eq(ip) {
                return true;
            }
            i = i + 1;
        }
        false
    }
}

} // verus!
