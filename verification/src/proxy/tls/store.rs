//! The set of pinned hosts.

use vstd::prelude::*;

verus! {

/// The hosts for which interception is bypassed: the names and addresses
/// that the operator declared as pinned, and those that were disabled after
/// a failed interception.
pub struct TlsCertStore {
    pub pinned: Vec<String>,
}

impl View for TlsCertStore {
    type V = Set<Seq<char>>;

    /// The pinned hosts.
    open spec fn view(&self) -> Set<Seq<char>> {
        Set::new(|h: Seq<char>| exists|i: int| 0 <= i < self.pinned@.len() && self.pinned@[i]@ == h)
    }
}

impl TlsCertStore {
    /// The store in which exactly the hosts of `pinned` are pinned.
    pub fn new(pinned: Vec<String>) -> (s: TlsCertStore)
        ensures
            s.pinned == pinned,
            forall|h: Seq<char>|
                s@.contains(h) <==> exists|i: int| 0 <= i < pinned@.len() && pinned@[i]@ == h,
    {
        TlsCertStore { pinned }
    }

    /// Pins `addr`: interception is bypassed for it from now on.
    pub fn disable_addr(&mut self, addr: String)
        ensures
            final(self)@ == old(self)@.insert(addr@),
    {
        if !self.is_disabled(addr.as_str()) {
            self.pinned.push(addr);
            proof {
                let before = old(self);
                assert forall|h: Seq<char>| self@.contains(h) <==> before@.insert(addr@).contains(
                    h,
                ) by {
                    if before@.insert(addr@).contains(h) {
                        if h == addr@ {
                            assert(self.pinned@[self.pinned@.len() - 1]@ == h);
                        } else {
                            let i = choose|i: int|
                                0 <= i < before.pinned@.len() && before.pinned@[i]@ == h;
                            assert(self.pinned@[i]@ == h);
                        }
                    }
                    if self@.contains(h) {
                        let i = choose|i: int| 0 <= i < self.pinned@.len() && self.pinned@[i]@ == h;
                        if i < before.pinned@.len() {
                            assert(before.pinned@[i]@ == h);
                        }
                    }
                }
            }
            assert(self@ =~= old(self)@.insert(addr@));
        } else {
            assert(self@ =~= old(self)@.insert(addr@));
        }
    }

    /// Whether `addr` is pinned.
    pub fn is_disabled(&self, addr: &str) -> (pinned: bool)
        ensures
            pinned == self@.contains(addr@),
    {
        let wanted = addr.to_owned();
        let mut i: usize = 0;
        while i < self.pinned.len()
            invariant
                i <= self.pinned@.len(),
                wanted@ == addr@,
                forall|j: int| 0 <= j < i ==> self.pinned@[j]@ != addr@,
            decreases self.pinned@.len() - i,
        {
            if self.pinned[i] == wanted {
                return true;
            }
            i += 1;
        }
        false
    }

    /// Forgets every pinned host. This is how the set recovers after a
    /// holder of its lock has panicked.
    pub fn reset(&mut self)
        ensures
            final(self)@ == Set::<Seq<char>>::empty(),
    {
        self.pinned = Vec::new();
        assert(self@ =~= Set::<Seq<char>>::empty());
    }
}

} // verus!
