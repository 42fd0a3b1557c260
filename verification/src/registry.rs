//! The upstream registry: the ordered list of configured upstream addresses,
//! fixed at startup and immutable afterwards. Every index the selector and
//! the health checker speak of is a position in this list.

use vstd::prelude::*;

verus! {

/// The configured upstream addresses, in the order given at startup.
pub struct UpstreamRegistry {
    addrs: Vec<String>,
}

impl View for UpstreamRegistry {
    type V = Seq<Seq<char>>;

    closed spec fn view(&self) -> Seq<Seq<char>> {
        self.addrs@.map(|i: int, a: String| a@)
    }
}

impl UpstreamRegistry {
    /// Fixes the registry from the configured addresses.
    pub fn new(addrs: Vec<String>) -> (r: UpstreamRegistry)
        ensures
            r@.len() == addrs@.len(),
            forall|i: int| 0 <= i < addrs@.len() ==> r@[i] == #[trigger] addrs@[i]@,
    {
        UpstreamRegistry { addrs }
    }

    /// How many upstreams are configured.
    pub fn len(&self) -> (r: usize)
        ensures
            r == self@.len(),
    {
        self.addrs.len()
    }

    /// The address at a registry index.
    pub fn addr_at(&self, i: usize) -> (r: &String)
        requires
            i < self@.len(),
        ensures
            r@ == self@[i as int],
    {
        &self.addrs[i]
    }
}

} // verus!
