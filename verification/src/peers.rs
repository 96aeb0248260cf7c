//! The peer directory: the addresses of the other nodes that a node knows,
//! each held once, in the order in which they were first learned.

use crate::text::string_views;
use vstd::prelude::*;

verus! {

/// A set of peer addresses.
pub struct PeerDirectory {
    addresses: Vec<String>,
}

/// The addresses after `address` was learned: it joins the end unless it is
/// already among them.
pub open spec fn with_peer(peers: Seq<Seq<char>>, address: Seq<char>) -> Seq<Seq<char>> {
    if peers.contains(address) {
        peers
    } else {
        peers.push(address)
    }
}

/// The addresses after each of `learned` was learned in turn.
pub open spec fn with_peers(peers: Seq<Seq<char>>, learned: Seq<Seq<char>>) -> Seq<Seq<char>>
    decreases learned.len(),
{
    if learned.len() == 0 {
        peers
    } else {
        with_peer(with_peers(peers, learned.drop_last()), learned.last())
    }
}

/// Learning an address keeps the addresses distinct, keeps every address
/// that was known, and makes the new one known.
pub proof fn lemma_with_peer(peers: Seq<Seq<char>>, address: Seq<char>)
    requires
        peers.no_duplicates(),
    ensures
        with_peer(peers, address).no_duplicates(),
        with_peer(peers, address).contains(address),
        forall|known: Seq<char>|
            peers.contains(known) ==> with_peer(peers, address).contains(known),
        forall|known: Seq<char>|
            with_peer(peers, address).contains(known) ==> peers.contains(known) || known
                == address,
{
    let after = with_peer(peers, address);
    if !peers.contains(address) {
        assert(after[peers.len() as int] == address);
        assert forall|known: Seq<char>| peers.contains(known) implies after.contains(known) by {
            let k = choose|k: int| 0 <= k < peers.len() && peers[k] == known;
            assert(after[k] == known);
        }
    }
}

impl View for PeerDirectory {
    type V = Seq<Seq<char>>;

    closed spec fn view(&self) -> Seq<Seq<char>> {
        string_views(self.addresses@)
    }
}

impl PeerDirectory {
    /// No address is held twice.
    #[verifier::type_invariant]
    pub closed spec fn distinct(self) -> bool {
        string_views(self.addresses@).no_duplicates()
    }

    /// A directory that holds no address twice shows none twice.
    pub proof fn lemma_distinct(self)
        requires
            self.distinct(),
        ensures
            self@.no_duplicates(),
    {
    }

    /// A directory that knows no peer.
    pub fn new() -> (directory: Self)
        ensures
            directory@ == Seq::<Seq<char>>::empty(),
    {
        let directory = PeerDirectory { addresses: Vec::new() };
        assert(directory@ =~= Seq::<Seq<char>>::empty());
        directory
    }

    /// Whether `address` is known.
    pub fn contains(&self, address: &str) -> (known: bool)
        ensures
            known == self@.contains(address@),
    {
        let wanted = String::from_str(address);
        let mut i: usize = 0;
        while i < self.addresses.len()
            invariant
                i <= self.addresses.len(),
                wanted@ == address@,
                forall|j: int| 0 <= j < i ==> self@[j] != address@,
            decreases self.addresses.len() - i,
        {
            if self.addresses[i] == wanted {
                assert(self@[i as int] == address@);
                return true;
            }
            i += 1;
        }
        false
    }

    /// Learns `address`. Returns whether it was new.
    pub fn insert(&mut self, address: String) -> (added: bool)
        ensures
            added == !old(self)@.contains(address@),
            final(self)@ == with_peer(old(self)@, address@),
            final(self)@.no_duplicates(),
    {
        proof {
            use_type_invariant(&*self);
            lemma_with_peer(self@, address@);
        }
        if self.contains(address.as_str()) {
            return false;
        }
        let mut addresses: Vec<String> = Vec::new();
        std::mem::swap(&mut addresses, &mut self.addresses);
        addresses.push(address);
        assert(string_views(addresses@) =~= with_peer(old(self)@, address@));
        self.addresses = addresses;
        true
    }

    /// The known addresses, in the order in which they were learned. No
    /// address occurs twice.
    pub fn addresses(&self) -> (addresses: &Vec<String>)
        ensures
            string_views(addresses@) == self@,
            self@.no_duplicates(),
    {
        proof {
            use_type_invariant(self);
        }
        &self.addresses
    }
}

} // verus!
