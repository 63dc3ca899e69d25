//! The registry of connected peers, and who hears of a message.

use vstd::prelude::*;

verus! {

/// What a list of peer identities stands for.
pub open spec fn peers_view(s: Seq<String>) -> Seq<Seq<char>> {
    Seq::new(s.len(), |i: int| s[i]@)
}

/// The peers of `s` other than `peer`, in their order.
pub open spec fn without(s: Seq<Seq<char>>, peer: Seq<char>) -> Seq<Seq<char>>
    decreases s.len(),
{
    if s.len() == 0 {
        Seq::empty()
    } else if s.last() == peer {
        without(s.drop_last(), peer)
    } else {
        without(s.drop_last(), peer).push(s.last())
    }
}

/// A peer is among the others exactly if it is registered and is not the
/// one left out.
pub proof fn lemma_without_contains(s: Seq<Seq<char>>, peer: Seq<char>, p: Seq<char>)
    ensures
        without(s, peer).contains(p) <==> (s.contains(p) && p != peer),
    decreases s.len(),
{
    if s.len() > 0 {
        let rest = s.drop_last();
        lemma_without_contains(rest, peer, p);
        if s.contains(p) {
            let i = choose|i: int| 0 <= i < s.len() && s[i] == p;
            if i < s.len() - 1 {
                assert(rest[i] == p);
            }
        }
        if rest.contains(p) {
            let i = choose|i: int| 0 <= i < rest.len() && rest[i] == p;
            assert(s[i] == p);
        }
        if s.last() != peer {
            let w = without(rest, peer);
            assert(w.push(s.last())[w.len() as int] == s.last());
            if w.contains(p) {
                let i = choose|i: int| 0 <= i < w.len() && w[i] == p;
                assert(w.push(s.last())[i] == p);
            }
        }
    }
}

/// The live connections, each under its peer identity, in the order in
/// which they registered.
#[derive(Debug, PartialEq, Eq)]
pub struct Broadcaster {
    pub peers: Vec<String>,
}

impl View for Broadcaster {
    type V = Seq<Seq<char>>;

    open spec fn view(&self) -> Seq<Seq<char>> {
        peers_view(self.peers@)
    }
}

/// Copies of the peers of `peers` other than `excluded`, in their order;
/// with no `excluded`, of all of them.
fn others(peers: &Vec<String>, excluded: Option<&str>) -> (r: Vec<String>)
    ensures
        peers_view(r@) == match excluded {
            Some(x) => without(peers_view(peers@), x@),
            None => peers_view(peers@),
        },
{
    let ghost all = peers_view(peers@);
    let mut out: Vec<String> = Vec::new();
    let mut i: usize = 0;
    proof {
        assert(all.take(0) =~= Seq::empty());
        assert(peers_view(out@) =~= Seq::empty());
    }
    while i < peers.len()
        invariant
            i <= peers.len(),
            all == peers_view(peers@),
            peers_view(out@) == match excluded {
                Some(x) => without(all.take(i as int), x@),
                None => all.take(i as int),
            },
        decreases peers.len() - i,
    {
        let ghost prev = peers_view(out@);
        proof {
            assert(all.take(i + 1).drop_last() =~= all.take(i as int));
            assert(all.take(i + 1).last() == all[i as int]);
            assert(all.take(i + 1) =~= all.take(i as int).push(all[i as int]));
        }
        let skip = match excluded {
            Some(x) => {
                let w: String = x.to_owned();
                peers[i] == w
            },
            None => false,
        };
        if !skip {
            out.push(peers[i].clone());
            proof {
                assert(peers_view(out@) =~= prev.push(all[i as int]));
            }
        }
        i = i + 1;
    }
    proof {
        assert(all.take(peers.len() as int) =~= all);
    }
    out
}

impl Broadcaster {
    /// A registry with no connection.
    pub fn new() -> (r: Broadcaster)
        ensures
            r@ == Seq::<Seq<char>>::empty(),
    {
        let r = Broadcaster { peers: Vec::new() };
        proof {
            assert(r@ =~= Seq::<Seq<char>>::empty());
        }
        r
    }

    /// Adds a connection under its peer identity.
    pub fn register(&mut self, peer: &str)
        ensures
            final(self)@ == old(self)@.push(peer@),
    {
        self.peers.push(peer.to_owned());
        proof {
            assert(self@ =~= old(self)@.push(peer@));
        }
    }

    /// Removes every connection registered under the peer identity.
    pub fn deregister(&mut self, peer: &str)
        ensures
            final(self)@ == without(old(self)@, peer@),
    {
        self.peers = others(&self.peers, Some(peer));
    }

    /// The peers that a message for all goes to: every registered one.
    pub fn broadcast(&self) -> (r: Vec<String>)
        ensures
            peers_view(r@) == self@,
    {
        others(&self.peers, None)
    }

    /// The peers that a message from `excluded` goes to: every registered
    /// one but `excluded` itself.
    pub fn broadcast_others(&self, excluded: &str) -> (r: Vec<String>)
        ensures
            peers_view(r@) == without(self@, excluded@),
    {
        others(&self.peers, Some(excluded))
    }
}

} // verus!
