use vstd::prelude::*;

use std::collections::HashSet;

use crate::error::{Error, Result};

verus! {

broadcast use vstd::std_specs::hash::group_hash_axioms;

/// First port that tests may use.
pub const PORT_RANGE_START: u16 = 1883;

/// Last port that tests may use.
pub const PORT_RANGE_END: u16 = 2883;

/// A port number handed out by a `PortPool`.
#[derive(Clone, Copy, Debug, PartialEq, Eq, Structural, Hash)]
pub struct PortRef(pub u16);

impl PortRef {
    /// The port number in decimal (what `Display` shows).
    pub fn to_text(&self) -> (res: String)
        ensures
            res@ == crate::text::decimal(self.0 as nat),
    {
        let mut chars: Vec<char> = Vec::new();
        crate::text::push_decimal(&mut chars, self.0 as usize);
        crate::text::string_from_chars(&chars)
    }
}

impl From<u16> for PortRef {
    fn from(p: u16) -> (res: PortRef) {
        PortRef(p)
    }
}

impl vstd::std_specs::convert::FromSpecImpl<u16> for PortRef {
    open spec fn obeys_from_spec() -> bool {
        true
    }

    open spec fn from_spec(p: u16) -> PortRef {
        PortRef(p)
    }
}

impl From<PortRef> for u16 {
    fn from(p: PortRef) -> (res: u16) {
        p.0
    }
}

impl vstd::std_specs::convert::FromSpecImpl<PortRef> for u16 {
    open spec fn obeys_from_spec() -> bool {
        true
    }

    open spec fn from_spec(p: PortRef) -> u16 {
        p.0
    }
}

/// The ports in use by tests, and the last one handed out.
#[derive(Debug)]
pub struct PortPool {
    last: u16,
    in_use: HashSet<u16>,
}

/// How many ports the pool holds.
pub open spec fn pool_size() -> int {
    PORT_RANGE_END - PORT_RANGE_START + 1
}

/// Whether `p` is one of the pool's ports.
pub open spec fn in_range(p: int) -> bool {
    PORT_RANGE_START <= p <= PORT_RANGE_END
}

/// The `i`-th port that `get_port` tries: the ports after `last`, then from
/// the start of the range on.
pub open spec fn candidate(last: u16, i: int) -> int {
    if last + 1 + i <= PORT_RANGE_END {
        last + 1 + i
    } else {
        last + 1 + i - pool_size()
    }
}

impl PortPool {
    pub closed spec fn spec_last(&self) -> u16 {
        self.last
    }

    pub closed spec fn spec_in_use(&self) -> Set<u16> {
        self.in_use@
    }

    /// The last port handed out is one of the pool's ports (or the one just
    /// before them, when none was handed out yet).
    pub open spec fn wf(&self) -> bool {
        PORT_RANGE_START - 1 <= self.spec_last() <= PORT_RANGE_END
    }

    /// A pool with no port in use.
    pub fn new() -> (res: PortPool)
        ensures
            res.wf(),
            res.spec_last() == PORT_RANGE_START - 1,
            res.spec_in_use() == Set::<u16>::empty(),
    {
        PortPool { last: PORT_RANGE_START - 1, in_use: HashSet::new() }
    }

    /// The ports in use.
    pub fn in_use(&self) -> (res: &HashSet<u16>)
        ensures
            res@ == self.spec_in_use(),
    {
        &self.in_use
    }
}

/// Port `candidate(last, i)` is free and every port tried before it is in
/// use.
pub open spec fn first_free(in_use: Set<u16>, last: u16, i: int) -> bool {
    &&& 0 <= i < pool_size()
    &&& !in_use.contains(candidate(last, i) as u16)
    &&& forall|j: int| 0 <= j < i ==> in_use.contains(#[trigger] candidate(last, j) as u16)
}

/// Every port of the pool is in use.
pub open spec fn all_taken(in_use: Set<u16>) -> bool {
    forall|p: u16| in_range(p as int) ==> #[trigger] in_use.contains(p)
}

/// The candidates are the pool's ports, each tried once.
proof fn lemma_candidates_cover(last: u16, p: u16)
    requires
        PORT_RANGE_START - 1 <= last <= PORT_RANGE_END,
        in_range(p as int),
    ensures
        ({
            let i = if p > last { p - last - 1 } else { p - last - 1 + pool_size() };
            0 <= i < pool_size() && candidate(last, i) == p
        }),
{
}

/// Hand out a port that no test uses: the first free one among the ports
/// after the last one handed out, wrapping around to the start of the range.
/// Fails exactly when every port of the range is in use.
pub fn get_port(pool: &mut PortPool) -> (res: Result<PortRef>)
    requires
        old(pool).wf(),
    ensures
        final(pool).wf(),
        match res {
            Ok(p) => {
                &&& in_range(p.0 as int)
                &&& !old(pool).spec_in_use().contains(p.0)
                &&& exists|i: int|
                    first_free(old(pool).spec_in_use(), old(pool).spec_last(), i) && #[trigger] candidate(
                        old(pool).spec_last(),
                        i,
                    ) == p.0
                &&& final(pool).spec_in_use() == old(pool).spec_in_use().insert(p.0)
                &&& final(pool).spec_last() == p.0
            },
            Err(e) => {
                &&& e matches Error::CreateClientTaskFailed(m) && m@ == "Out of ports."@
                &&& all_taken(old(pool).spec_in_use())
                &&& final(pool).spec_in_use() == old(pool).spec_in_use()
                &&& final(pool).spec_last() == old(pool).spec_last()
            },
        },
{
    let span: u32 = (PORT_RANGE_END - PORT_RANGE_START + 1) as u32;
    let ghost in_use = pool.spec_in_use();
    let ghost last = pool.spec_last();
    let mut i: u32 = 0;
    while i < span
        invariant
            i <= span,
            span == pool_size(),
            pool.spec_last() == last,
            pool.spec_in_use() == in_use,
            in_use == old(pool).spec_in_use(),
            last == old(pool).spec_last(),
            PORT_RANGE_START - 1 <= last <= PORT_RANGE_END,
            forall|j: int| 0 <= j < i ==> in_use.contains(#[trigger] candidate(last, j) as u16),
        decreases span - i,
    {
        let v: u32 = pool.last as u32 + 1 + i;
        let port: u16 = if v <= PORT_RANGE_END as u32 {
            v as u16
        } else {
            (v - span) as u16
        };
        assert(port as int == candidate(last, i as int));
        if !pool.in_use.contains(&port) {
            pool.in_use.insert(port);
            pool.last = port;
            assert(first_free(in_use, last, i as int));
            return Ok(PortRef(port));
        }
        i = i + 1;
    }
    assert forall|p: u16| in_range(p as int) implies #[trigger] in_use.contains(p) by {
        lemma_candidates_cover(last, p);
        let k = if p > last { p - last - 1 } else { p - last - 1 + pool_size() };
        assert(in_use.contains(candidate(last, k) as u16));
    }
    Err(Error::CreateClientTaskFailed(String::from_str("Out of ports.")))
}

/// Return a port to the pool.
pub fn drop_port(pool: &mut PortPool, port: u16)
    requires
        old(pool).wf(),
    ensures
        final(pool).wf(),
        final(pool).spec_in_use() == old(pool).spec_in_use().remove(port),
        final(pool).spec_last() == old(pool).spec_last(),
{
    pool.in_use.remove(&port);
}

} // verus!
