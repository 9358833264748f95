//! The subscription collaborator: listener registrations by token.
//!
//! Each storage-synchronized container registers a global change
//! listener when it is built and must release that registration exactly
//! once when it is discarded; a registration left behind is a dangling
//! callback over dead state, a correctness bug and not a tidiness
//! matter.  The registry models the collaborator's interface: subscribe
//! hands out an opaque token never handed out before, and unregister
//! removes exactly that token's registration.

use vstd::prelude::*;

verus! {

/// The live registrations, by token.
pub struct ListenerRegistry {
    tokens: Vec<u64>,
    next: u64,
}

impl ListenerRegistry {
    /// The tokens of the live registrations, oldest first.
    pub closed spec fn spec_tokens(&self) -> Seq<u64> {
        self.tokens@
    }

    /// The next token to hand out.
    pub closed spec fn spec_next(&self) -> u64 {
        self.next
    }

    /// Tokens are handed out in ascending order, so live ones are
    /// pairwise distinct and below the next.
    pub open spec fn wf(&self) -> bool {
        &&& forall|i: int|
            0 <= i < self.spec_tokens().len() ==> #[trigger] self.spec_tokens()[i]
                < self.spec_next()
        &&& forall|i: int, j: int|
            0 <= i < j < self.spec_tokens().len() ==> self.spec_tokens()[i]
                != self.spec_tokens()[j]
    }

    /// A registry with no registrations.
    pub fn new() -> (r: Self)
        ensures
            r.wf(),
            r.spec_tokens() == Seq::<u64>::empty(),
            r.spec_next() == 0,
    {
        ListenerRegistry { tokens: Vec::new(), next: 0 }
    }

    /// Register a listener: a fresh token, never handed out before.
    pub fn subscribe(&mut self) -> (t: u64)
        requires
            old(self).wf(),
            old(self).spec_next() < u64::MAX,
        ensures
            final(self).wf(),
            !old(self).spec_tokens().contains(t),
            final(self).spec_tokens() == old(self).spec_tokens().push(t),
            final(self).spec_next() == old(self).spec_next() + 1,
            t == old(self).spec_next(),
    {
        let t = self.next;
        proof {
            assert forall|m: int|
                0 <= m < self.spec_tokens().len() implies self.spec_tokens()[m] != t by {
                assert(self.spec_tokens()[m] < self.spec_next());
            }
            assert(!self.spec_tokens().contains(t));
        }
        self.next = self.next + 1;
        self.tokens.push(t);
        proof {
            assert forall|i: int|
                0 <= i < self.spec_tokens().len() implies #[trigger] self.spec_tokens()[i]
                < self.spec_next() by {
                if i < self.spec_tokens().len() - 1 {
                    assert(old(self).spec_tokens()[i] < old(self).spec_next());
                }
            }
            assert forall|i: int, j: int|
                0 <= i < j < self.spec_tokens().len() implies self.spec_tokens()[i]
                != self.spec_tokens()[j] by {
                if j < self.spec_tokens().len() - 1 {
                    assert(old(self).spec_tokens()[i] != old(self).spec_tokens()[j]);
                } else {
                    assert(old(self).spec_tokens()[i] < old(self).spec_next());
                }
            }
        }
        t
    }

    /// Release the registration holding `token`; every other
    /// registration stays.  Releasing an unknown token changes nothing.
    pub fn unregister(&mut self, token: u64)
        requires
            old(self).wf(),
        ensures
            final(self).wf(),
            final(self).spec_next() == old(self).spec_next(),
            forall|x: u64|
                final(self).spec_tokens().contains(x) <==> (old(self).spec_tokens().contains(x)
                    && x != token),
    {
        let n = self.tokens.len();
        let mut i: usize = 0;
        while i < n
            invariant
                i <= n,
                n == self.tokens.len(),
                self.tokens@ == old(self).spec_tokens(),
                self.next == old(self).spec_next(),
                old(self).wf(),
                forall|m: int| 0 <= m < i ==> self.tokens@[m] != token,
            decreases n - i,
        {
            if self.tokens[i] == token {
                let ghost before = self.tokens@;
                proof {
                    before.remove_ensures(i as int);
                    assert(before.contains(token));
                }
                self.tokens.remove(i);
                proof {
                    assert forall|x: u64|
                        self.tokens@.contains(x) <==> (before.contains(x) && x != token) by {
                        if self.tokens@.contains(x) {
                            let m = choose|m: int|
                                0 <= m < self.tokens@.len() && self.tokens@[m] == x;
                            if m < i {
                                assert(before[m] == x);
                            } else {
                                assert(before[m + 1] == x);
                            }
                        }
                        if before.contains(x) && x != token {
                            let m = choose|m: int| 0 <= m < before.len() && before[m] == x;
                            if m < i {
                                assert(self.tokens@[m] == x);
                            } else if m > i {
                                assert(self.tokens@[m - 1] == x);
                            }
                        }
                    }
                    assert forall|p: int, q: int|
                        0 <= p < q < self.tokens@.len() implies self.tokens@[p]
                        != self.tokens@[q] by {
                        if q < i {
                            assert(before[p] != before[q]);
                        } else if p >= i {
                            assert(before[p + 1] != before[q + 1]);
                        } else {
                            assert(before[p] != before[q + 1]);
                        }
                    }
                    assert forall|m: int|
                        0 <= m < self.tokens@.len() implies #[trigger] self.tokens@[m]
                        < self.next by {
                        if m < i {
                            assert(before[m] < self.next);
                        } else {
                            assert(before[m + 1] < self.next);
                        }
                    }
                }
                return;
            }
            i = i + 1;
        }
        proof {
            assert(!self.tokens@.contains(token));
        }
    }

    /// Whether a registration holding `token` is live.
    pub fn is_registered(&self, token: u64) -> (r: bool)
        ensures
            r == self.spec_tokens().contains(token),
    {
        let n = self.tokens.len();
        let mut i: usize = 0;
        while i < n
            invariant
                i <= n,
                n == self.tokens.len(),
                forall|m: int| 0 <= m < i ==> self.tokens@[m] != token,
            decreases n - i,
        {
            if self.tokens[i] == token {
                proof {
                    assert(self.tokens@.contains(token));
                }
                return true;
            }
            i = i + 1;
        }
        proof {
            assert(!self.tokens@.contains(token));
        }
        false
    }
}

} // verus!
