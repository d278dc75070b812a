//! The watchlist: a snapshot of watched token contracts and watched user
//! addresses, built from lists of hex lines.

use vstd::prelude::*;
use crate::bytes::{hex_decoding, Address};

verus! {

/// Whether some address of `v` has the bytes `a`.
pub open spec fn listed(v: Seq<Address>, a: Seq<u8>) -> bool {
    exists|i: int| 0 <= i < v.len() && #[trigger] v[i]@ == a
}

/// The addresses that the well-formed lines of a list spell.
pub open spec fn parsed_set(lines: Seq<String>) -> Set<Seq<u8>> {
    Set::new(
        |a: Seq<u8>|
            exists|i: int| 0 <= i < lines.len() && #[trigger] hex_decoding(lines[i]@, 20) == Some(a),
    )
}

/// An immutable watchlist snapshot.
#[derive(Clone, Debug)]
pub struct FilterConfig {
    pub contracts: Vec<Address>,
    pub addresses: Vec<Address>,
}

fn find(v: &Vec<Address>, a: &Address) -> (r: bool)
    ensures
        r == listed(v@, a@),
{
    let mut i: usize = 0;
    while i < v.len()
        invariant
            0 <= i <= v@.len(),
            forall|j: int| 0 <= j < i ==> #[trigger] v@[j]@ != a@,
        decreases v.len() - i,
    {
        if v[i].same(a) {
            return true;
        }
        i = i + 1;
    }
    false
}

/// The addresses of the lines that read as addresses; the others are dropped.
pub fn parse_address_lines(lines: &Vec<String>) -> (r: Vec<Address>)
    ensures
        forall|a: Seq<u8>| listed(r@, a) <==> parsed_set(lines@).contains(a),
{
    let mut out: Vec<Address> = Vec::new();
    let mut i: usize = 0;
    while i < lines.len()
        invariant
            0 <= i <= lines@.len(),
            forall|a: Seq<u8>|
                listed(out@, a) <==> exists|j: int|
                    0 <= j < i && #[trigger] hex_decoding(lines@[j]@, 20) == Some(a),
        decreases lines.len() - i,
    {
        let parsed = Address::parse(lines[i].as_str());
        let ghost before = out@;
        match parsed {
            Some(a) => {
                out.push(a);
                proof {
                    assert forall|x: Seq<u8>| listed(out@, x) <==> (listed(before, x) || x == a@) by {
                        if listed(out@, x) {
                            let k = choose|k: int| 0 <= k < out@.len() && out@[k]@ == x;
                            if k < before.len() {
                                assert(before[k] == out@[k]);
                            }
                        }
                        if listed(before, x) {
                            let k = choose|k: int| 0 <= k < before.len() && before[k]@ == x;
                            assert(out@[k] == before[k]);
                        }
                        if x == a@ {
                            assert(out@[before.len() as int] == a);
                        }
                    }
                }
            },
            None => {},
        }
        proof {
            assert forall|x: Seq<u8>|
                listed(out@, x) <==> exists|j: int|
                    0 <= j < i + 1 && #[trigger] hex_decoding(lines@[j]@, 20) == Some(x) by {
                if exists|j: int| 0 <= j < i + 1 && #[trigger] hex_decoding(lines@[j]@, 20) == Some(x) {
                    let j = choose|j: int| 0 <= j < i + 1 && #[trigger] hex_decoding(lines@[j]@, 20) == Some(x);
                    if j < i {
                        assert(exists|j: int| 0 <= j < i && #[trigger] hex_decoding(lines@[j]@, 20) == Some(x));
                    }
                }
                if listed(before, x) {
                    let j = choose|j: int| 0 <= j < i && #[trigger] hex_decoding(lines@[j]@, 20) == Some(x);
                    assert(0 <= j < i + 1 && hex_decoding(lines@[j]@, 20) == Some(x));
                }
            }
        }
        i = i + 1;
    }
    proof {
        assert(lines@.len() == i);
    }
    out
}

/// What the watcher of the configuration directory reported.
#[derive(Clone, Copy, Debug, PartialEq, Eq)]
pub enum WatchEvent {
    Modified,
    Created,
    /// Any other kind of event.
    Other,
    /// The watcher reported an error.
    Failed,
}

/// Whether an event reloads both address files and publishes a new
/// snapshot: a modification or a creation does; any other event, or a
/// watch error, leaves the published snapshot as it is.
pub fn reloads_on(event: WatchEvent) -> (r: bool)
    ensures
        r == (event is Modified || event is Created),
{
    match event {
        WatchEvent::Modified | WatchEvent::Created => true,
        _ => false,
    }
}

impl FilterConfig {
    /// The set of watched token contracts.
    pub open spec fn contract_set(&self) -> Set<Seq<u8>> {
        Set::new(|a: Seq<u8>| listed(self.contracts@, a))
    }

    /// The set of watched user addresses.
    pub open spec fn address_set(&self) -> Set<Seq<u8>> {
        Set::new(|a: Seq<u8>| listed(self.addresses@, a))
    }

    pub fn new(contracts: Vec<Address>, addresses: Vec<Address>) -> (r: FilterConfig)
        ensures
            r.contracts@ == contracts@,
            r.addresses@ == addresses@,
    {
        FilterConfig { contracts, addresses }
    }

    /// The snapshot of two address lists: a line that is not an address is
    /// left out, and every other line is watched.
    pub fn from_lines(contract_lines: &Vec<String>, address_lines: &Vec<String>) -> (r: FilterConfig)
        ensures
            r.contract_set() == parsed_set(contract_lines@),
            r.address_set() == parsed_set(address_lines@),
    {
        let contracts = parse_address_lines(contract_lines);
        let addresses = parse_address_lines(address_lines);
        let r = FilterConfig { contracts, addresses };
        proof {
            assert(r.contract_set() =~= parsed_set(contract_lines@));
            assert(r.address_set() =~= parsed_set(address_lines@));
        }
        r
    }

    pub fn watches_contract(&self, a: &Address) -> (r: bool)
        ensures
            r == self.contract_set().contains(a@),
    {
        find(&self.contracts, a)
    }

    pub fn watches_address(&self, a: &Address) -> (r: bool)
        ensures
            r == self.address_set().contains(a@),
    {
        find(&self.addresses, a)
    }
}

} // verus!
