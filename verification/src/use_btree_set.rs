//! The reactive ordered-unique-collection container.
//!
//! A handle owns a strictly sorted collection of machine integers behind
//! a ghost update counter.  Every mutating operation signals dependents
//! by bumping the counter — even when the mutation changed nothing, such
//! as inserting an element already present; suppressing redundant
//! recomputation is the dependents' business.  Elements are integers so
//! that the order the collection keeps is one the verifier knows.

use vstd::prelude::*;

verus! {

/// Strictly ascending: sorted, and therefore free of duplicates.
pub open spec fn strictly_sorted(s: Seq<u64>) -> bool {
    forall|i: int, j: int| 0 <= i < j < s.len() ==> s[i] < s[j]
}

/// Insert `value` into a strictly sorted vector, keeping it strictly
/// sorted; nothing moves when the value is already present.  True means
/// the value was newly added.
fn insert_sorted(items: &mut Vec<u64>, value: u64) -> (newly: bool)
    requires
        strictly_sorted(old(items)@),
    ensures
        strictly_sorted(final(items)@),
        forall|x: u64|
            final(items)@.contains(x) <==> (old(items)@.contains(x) || x == value),
        newly == !old(items)@.contains(value),
        !newly ==> final(items)@ == old(items)@,
{
    let n = items.len();
    let mut i: usize = 0;
    while i < n && items[i] < value
        invariant
            i <= n,
            n == items.len(),
            forall|m: int| 0 <= m < i ==> items@[m] < value,
        decreases n - i,
    {
        i = i + 1;
    }
    if i < n && items[i] == value {
        proof {
            assert(items@.contains(value));
        }
        return false;
    }
    proof {
        assert forall|m: int| 0 <= m < items@.len() implies items@[m] != value by {
            if m >= i {
                assert(items@[i as int] <= items@[m]);
            }
        }
        assert(!items@.contains(value));
        old(items)@.insert_ensures(i as int, value);
    }
    let ghost before = items@;
    items.insert(i, value);
    proof {
        assert forall|x: u64|
            items@.contains(x) <==> (before.contains(x) || x == value) by {
            if items@.contains(x) {
                let m = choose|m: int| 0 <= m < items@.len() && items@[m] == x;
                if m < i {
                    assert(before[m] == x);
                } else if m > i {
                    assert(before[m - 1] == x);
                }
            }
            if before.contains(x) {
                let m = choose|m: int| 0 <= m < before.len() && before[m] == x;
                if m < i {
                    assert(items@[m] == x);
                } else {
                    assert(items@[m + 1] == x);
                }
            }
            if x == value {
                assert(items@[i as int] == x);
            }
        }
        assert forall|p: int, q: int|
            0 <= p < q < items@.len() implies items@[p] < items@[q] by {
            if q < i {
                assert(before[p] < before[q]);
            } else if p > i {
                assert(before[p - 1] < before[q - 1]);
            } else if p < i && q == i {
                assert(before[p] < value);
            } else if p < i && q > i {
                assert(before[p] < before[q - 1]);
            } else if p == i && q > i {
                assert(before[i as int] != value);
                assert(value < before[i as int]);
                if q - 1 > i {
                    assert(before[i as int] < before[q - 1]);
                }
            }
        }
    }
    true
}

/// Gather the given elements into a strictly sorted vector, dropping
/// duplicates.
fn sorted_from(values: Vec<u64>) -> (out: Vec<u64>)
    ensures
        strictly_sorted(out@),
        forall|x: u64| out@.contains(x) <==> values@.contains(x),
{
    let n = values.len();
    let mut out: Vec<u64> = Vec::new();
    let mut i: usize = 0;
    while i < n
        invariant
            i <= n,
            n == values.len(),
            strictly_sorted(out@),
            forall|x: u64| out@.contains(x) <==> values@.take(i as int).contains(x),
        decreases n - i,
    {
        insert_sorted(&mut out, values[i]);
        proof {
            assert forall|x: u64|
                out@.contains(x) <==> values@.take(i as int + 1).contains(x) by {
                if values@.take(i as int + 1).contains(x) {
                    let m = choose|m: int|
                        0 <= m < values@.take(i as int + 1).len() && #[trigger] values@.take(
                            i as int + 1,
                        )[m] == x;
                    if m < i {
                        assert(values@.take(i as int)[m] == x);
                    } else {
                        assert(x == values@[i as int]);
                    }
                }
                if values@.take(i as int).contains(x) {
                    let m = choose|m: int|
                        0 <= m < values@.take(i as int).len() && #[trigger] values@.take(
                            i as int,
                        )[m] == x;
                    assert(values@.take(i as int + 1)[m] == x);
                }
                if x == values@[i as int] {
                    assert(values@.take(i as int + 1)[i as int] == x);
                }
            }
        }
        i = i + 1;
    }
    proof {
        assert(values@.take(n as int) =~= values@);
    }
    out
}

/// A reactive handle on an ordered collection of unique integers.
pub struct UseBTreeSetHandle {
    items: Vec<u64>,
    version: Ghost<int>,
}

impl UseBTreeSetHandle {
    /// The elements, in ascending order.
    pub closed spec fn spec_items(&self) -> Seq<u64> {
        self.items@
    }

    /// How many times dependents have been signalled.
    pub closed spec fn spec_version(&self) -> int {
        self.version@
    }

    /// The collection's standing invariant.
    pub open spec fn wf(&self) -> bool {
        strictly_sorted(self.spec_items())
    }

    /// Borrow the collection for reading.
    pub fn current(&self) -> (v: &Vec<u64>)
        ensures
            v@ == self.spec_items(),
    {
        &self.items
    }

    /// Replace the whole collection with the given elements and signal
    /// dependents once.
    pub fn set(&mut self, values: Vec<u64>)
        requires
            old(self).wf(),
        ensures
            final(self).wf(),
            forall|x: u64| final(self).spec_items().contains(x) <==> values@.contains(x),
            final(self).spec_version() == old(self).spec_version() + 1,
    {
        self.items = sorted_from(values);
        self.version = Ghost(self.version@ + 1);
    }

    /// Add a value; true when it was not there before.  Dependents are
    /// signalled either way.
    pub fn insert(&mut self, value: u64) -> (newly: bool)
        requires
            old(self).wf(),
        ensures
            final(self).wf(),
            forall|x: u64|
                final(self).spec_items().contains(x) <==> (old(self).spec_items().contains(x)
                    || x == value),
            newly == !old(self).spec_items().contains(value),
            !newly ==> final(self).spec_items() == old(self).spec_items(),
            final(self).spec_version() == old(self).spec_version() + 1,
    {
        let newly = insert_sorted(&mut self.items, value);
        self.version = Ghost(self.version@ + 1);
        newly
    }

    /// Add a value, handing back the equal element it replaces, if any.
    /// For integer elements the replaced element is the value itself.
    /// Dependents are signalled either way.
    pub fn replace(&mut self, value: u64) -> (replaced: Option<u64>)
        requires
            old(self).wf(),
        ensures
            final(self).wf(),
            forall|x: u64|
                final(self).spec_items().contains(x) <==> (old(self).spec_items().contains(x)
                    || x == value),
            replaced == if old(self).spec_items().contains(value) {
                Some(value)
            } else {
                None::<u64>
            },
            final(self).spec_version() == old(self).spec_version() + 1,
    {
        let newly = insert_sorted(&mut self.items, value);
        self.version = Ghost(self.version@ + 1);
        if newly {
            None
        } else {
            Some(value)
        }
    }

    /// Remove a value; true when it was present.  Dependents are
    /// signalled either way.
    pub fn remove(&mut self, value: &u64) -> (was: bool)
        requires
            old(self).wf(),
        ensures
            final(self).wf(),
            was == old(self).spec_items().contains(*value),
            forall|x: u64|
                final(self).spec_items().contains(x) <==> (old(self).spec_items().contains(x)
                    && x != *value),
            final(self).spec_version() == old(self).spec_version() + 1,
    {
        self.version = Ghost(self.version@ + 1);
        let n = self.items.len();
        let mut i: usize = 0;
        while i < n
            invariant
                i <= n,
                n == self.items.len(),
                self.items@ == old(self).spec_items(),
                self.spec_version() == old(self).spec_version() + 1,
                strictly_sorted(self.items@),
                forall|m: int| 0 <= m < i ==> self.items@[m] != *value,
            decreases n - i,
        {
            if self.items[i] == *value {
                let ghost before = self.items@;
                proof {
                    before.remove_ensures(i as int);
                    assert(before.contains(*value));
                }
                self.items.remove(i);
                proof {
                    assert forall|x: u64|
                        self.items@.contains(x) <==> (before.contains(x) && x != *value) by {
                        if self.items@.contains(x) {
                            let m = choose|m: int|
                                0 <= m < self.items@.len() && self.items@[m] == x;
                            if m < i {
                                assert(before[m] == x);
                                assert(before[m] < before[i as int]);
                            } else {
                                assert(before[m + 1] == x);
                                assert(before[i as int] < before[m + 1]);
                            }
                        }
                        if before.contains(x) && x != *value {
                            let m = choose|m: int| 0 <= m < before.len() && before[m] == x;
                            if m < i {
                                assert(self.items@[m] == x);
                            } else if m > i {
                                assert(self.items@[m - 1] == x);
                            }
                        }
                    }
                    assert forall|p: int, q: int|
                        0 <= p < q < self.items@.len() implies self.items@[p]
                        < self.items@[q] by {
                        if q < i {
                            assert(before[p] < before[q]);
                        } else if p >= i {
                            assert(before[p + 1] < before[q + 1]);
                        } else {
                            assert(before[p] < before[q + 1]);
                        }
                    }
                }
                return true;
            }
            i = i + 1;
        }
        proof {
            assert(!self.items@.contains(*value));
        }
        false
    }

    /// Keep only the elements the predicate accepts, then signal
    /// dependents — also when everything was kept.
    pub fn retain<F: Fn(&u64) -> bool>(&mut self, f: F)
        requires
            old(self).wf(),
            forall|x: u64| old(self).spec_items().contains(x) ==> call_requires(f, (&x,)),
        ensures
            final(self).wf(),
            forall|x: u64|
                final(self).spec_items().contains(x) ==> old(self).spec_items().contains(x)
                    && call_ensures(f, (&x,), true),
            forall|x: u64|
                old(self).spec_items().contains(x) && !final(self).spec_items().contains(x)
                    ==> call_ensures(f, (&x,), false),
            final(self).spec_version() == old(self).spec_version() + 1,
    {
        let n = self.items.len();
        let mut kept: Vec<u64> = Vec::new();
        let mut i: usize = 0;
        while i < n
            invariant
                i <= n,
                n == self.items.len(),
                strictly_sorted(self.items@),
                strictly_sorted(kept@),
                forall|x: u64| old(self).spec_items().contains(x) ==> call_requires(f, (&x,)),
                old(self).spec_items() == self.items@,
                forall|m: int|
                    #![trigger kept@[m]]
                    0 <= m < kept@.len() ==> exists|j: int|
                        0 <= j < i && kept@[m] == #[trigger] self.items@[j],
                forall|x: u64|
                    kept@.contains(x) ==> self.items@.contains(x) && call_ensures(
                        f,
                        (&x,),
                        true,
                    ),
                forall|j: int|
                    0 <= j < i && !kept@.contains(self.items@[j]) ==> call_ensures(
                        f,
                        (&self.items@[j],),
                        false,
                    ),
            decreases n - i,
        {
            let x = self.items[i];
            proof {
                assert(self.items@.contains(x));
            }
            let keep = f(&x);
            if keep {
                let ghost kept_before = kept@;
                proof {
                    assert forall|m: int|
                        0 <= m < kept_before.len() implies kept_before[m] < x by {
                        let j = choose|j: int|
                            0 <= j < i && kept_before[m] == #[trigger] self.items@[j];
                        assert(self.items@[j] < self.items@[i as int]);
                    }
                }
                kept.push(x);
                proof {
                    assert(kept@.drop_last() =~= kept_before);
                    assert forall|p: int, q: int|
                        0 <= p < q < kept@.len() implies kept@[p] < kept@[q] by {
                        if q < kept@.len() - 1 {
                            assert(kept_before[p] < kept_before[q]);
                        } else {
                            assert(kept@[p] == kept_before[p]);
                        }
                    }
                    assert forall|x2: u64|
                        kept@.contains(x2) implies self.items@.contains(x2) && call_ensures(
                        f,
                        (&x2,),
                        true,
                    ) by {
                        let m = choose|m: int| 0 <= m < kept@.len() && kept@[m] == x2;
                        if m < kept@.len() - 1 {
                            assert(kept_before[m] == x2);
                            assert(kept_before.contains(x2));
                        } else {
                            assert(x2 == x);
                        }
                    }
                    assert forall|m: int| #![trigger kept@[m]]
                        0 <= m < kept@.len() implies exists|j: int|
                            0 <= j < i + 1 && kept@[m] == #[trigger] self.items@[j] by {
                        if m < kept@.len() - 1 {
                            assert(kept_before[m] == kept@[m]);
                            assert(kept_before.contains(kept@[m]));
                            let j = choose|j: int|
                                0 <= j < i && kept_before[m] == #[trigger] self.items@[j];
                            assert(kept@[m] == self.items@[j]);
                        } else {
                            assert(kept@[m] == self.items@[i as int]);
                        }
                    }
                    assert forall|j: int|
                        0 <= j < i + 1 && !kept@.contains(self.items@[j]) implies call_ensures(
                        f,
                        (&self.items@[j],),
                        false,
                    ) by {
                        if j < i {
                            if kept_before.contains(self.items@[j]) {
                                let m = choose|m: int|
                                    0 <= m < kept_before.len() && kept_before[m]
                                        == self.items@[j];
                                assert(kept@[m] == self.items@[j]);
                                assert(kept@.contains(self.items@[j]));
                            }
                        } else {
                            assert(kept@[kept@.len() - 1] == self.items@[i as int]);
                            assert(kept@.contains(self.items@[j]));
                        }
                    }
                }
            } else {
                proof {
                    assert forall|j: int|
                        0 <= j < i + 1 && !kept@.contains(self.items@[j]) implies call_ensures(
                        f,
                        (&self.items@[j],),
                        false,
                    ) by {
                        if j == i {
                            assert(self.items@[j] == x);
                        }
                    }
                }
            }
            i = i + 1;
        }
        self.items = kept;
        self.version = Ghost(self.version@ + 1);
        proof {
            assert forall|x: u64|
                old(self).spec_items().contains(x) && !self.items@.contains(x)
                    implies call_ensures(f, (&x,), false) by {
                let j = choose|j: int|
                    0 <= j < old(self).spec_items().len() && old(self).spec_items()[j] == x;
                assert(old(self).spec_items()[j] == x);
            }
        }
    }

    /// Empty the collection and signal dependents.
    pub fn clear(&mut self)
        ensures
            final(self).wf(),
            final(self).spec_items() == Seq::<u64>::empty(),
            final(self).spec_version() == old(self).spec_version() + 1,
    {
        self.items = Vec::new();
        self.version = Ghost(self.version@ + 1);
    }
}

/// Handles compare by the collections they currently observe.
impl PartialEq for UseBTreeSetHandle {
    fn eq(&self, other: &Self) -> (r: bool) {
        if self.items.len() != other.items.len() {
            return false;
        }
        let n = self.items.len();
        let mut i: usize = 0;
        while i < n
            invariant
                i <= n,
                n == self.items.len(),
                n == other.items.len(),
                forall|m: int| 0 <= m < i ==> self.items@[m] == other.items@[m],
            decreases n - i,
        {
            if self.items[i] != other.items[i] {
                return false;
            }
            i = i + 1;
        }
        proof {
            assert(self.items@ =~= other.items@);
        }
        true
    }
}

impl vstd::std_specs::cmp::PartialEqSpecImpl for UseBTreeSetHandle {
    open spec fn obeys_eq_spec() -> bool {
        true
    }

    open spec fn eq_spec(&self, other: &Self) -> bool {
        self.spec_items() == other.spec_items()
    }
}

/// Build a handle holding the given elements.
pub fn use_btree_set(initial_value: Vec<u64>) -> (h: UseBTreeSetHandle)
    ensures
        h.wf(),
        forall|x: u64| h.spec_items().contains(x) <==> initial_value@.contains(x),
        h.spec_version() == 0,
{
    UseBTreeSetHandle { items: sorted_from(initial_value), version: Ghost(0) }
}

} // verus!
