//! The admin registry: the principals that may change shared state.

use vstd::prelude::*;
use crate::error::CustomError;
use crate::principal::Principal;

verus! {

/// The most admins that a ledger can have.
pub const MAX_ADMINS: usize = 10;

/// The set of admins, each held once.
#[derive(Debug)]
pub struct AdminRegistry {
    pub admins: Vec<Principal>,
}

/// Whether `list` holds `p`.
pub fn holds(list: &Vec<Principal>, p: &Principal) -> (r: bool)
    ensures
        r == list@.contains(*p),
{
    let mut i: usize = 0;
    while i < list.len()
        invariant
            i <= list@.len(),
            forall|j: int| 0 <= j < i ==> list@[j] != *p,
        decreases list@.len() - i,
    {
        if list[i].same(p) {
            return true;
        }
        i += 1;
    }
    false
}

impl View for AdminRegistry {
    type V = Set<Principal>;

    open spec fn view(&self) -> Set<Principal> {
        self.admins@.to_set()
    }
}

impl AdminRegistry {
    /// Nobody is held twice, and the count is within its bound.
    pub open spec fn wf(&self) -> bool {
        &&& self.admins@.no_duplicates()
        &&& self.admins@.len() <= MAX_ADMINS
    }

    /// A registry without admins.
    pub fn new() -> (registry: AdminRegistry)
        ensures
            registry.wf(),
            registry@ == Set::<Principal>::empty(),
    {
        let registry = AdminRegistry { admins: Vec::new() };
        assert(registry@ =~= Set::<Principal>::empty());
        registry
    }

    /// Whether the record holds each admin once and no more than the bound allows.
    pub fn is_well_formed(&self) -> (r: bool)
        ensures
            r == self.wf(),
    {
        let n: usize = self.admins.len();
        if n > MAX_ADMINS {
            return false;
        }
        let mut i: usize = 0;
        while i < n
            invariant
                n == self.admins@.len(),
                i <= n,
                forall|a: int, b: int| 0 <= a < b < i ==> self.admins@[a] != self.admins@[b],
            decreases n - i,
        {
            let mut j: usize = 0;
            while j < i
                invariant
                    n == self.admins@.len(),
                    i < n,
                    j <= i,
                    forall|a: int| 0 <= a < j ==> self.admins@[a] != self.admins@[i as int],
                decreases i - j,
            {
                if self.admins[j].same(&self.admins[i]) {
                    return false;
                }
                j += 1;
            }
            i += 1;
        }
        assert forall|a: int, b: int|
            0 <= a < self.admins@.len() && 0 <= b < self.admins@.len() && a != b implies self.admins@[a]
            != self.admins@[b] by {
            if a < b {
                assert(self.admins@[a] != self.admins@[b]);
            } else {
                assert(self.admins@[b] != self.admins@[a]);
            }
        }
        true
    }

    /// How many admins there are.
    pub fn count(&self) -> (n: usize)
        requires
            self.wf(),
        ensures
            n == self@.len(),
    {
        proof {
            self.admins@.unique_seq_to_set();
        }
        self.admins.len()
    }

    /// Whether `principal` is an admin.
    pub fn is_admin(&self, principal: &Principal) -> (r: bool)
        ensures
            r == self@.contains(*principal),
    {
        holds(&self.admins, principal)
    }

    /// The registry's admins together with `new_admins`, each once.
    fn joined(&self, new_admins: &Vec<Principal>) -> (next: Vec<Principal>)
        requires
            self.admins@.no_duplicates(),
        ensures
            next@.no_duplicates(),
            next@.to_set() == self@.union(new_admins@.to_set()),
    {
        let mut next: Vec<Principal> = Vec::new();
        let mut i: usize = 0;
        while i < self.admins.len()
            invariant
                i <= self.admins@.len(),
                next@ == self.admins@.take(i as int),
            decreases self.admins@.len() - i,
        {
            next.push(self.admins[i]);
            assert(self.admins@.take(i + 1) =~= self.admins@.take(i as int).push(
                self.admins@[i as int],
            ));
            i += 1;
        }
        assert(self.admins@.take(self.admins@.len() as int) =~= self.admins@);
        let mut k: usize = 0;
        assert(next@.to_set() =~= self@.union(new_admins@.take(0).to_set()));
        while k < new_admins.len()
            invariant
                k <= new_admins@.len(),
                next@.no_duplicates(),
                next@.to_set() == self@.union(new_admins@.take(k as int).to_set()),
            decreases new_admins@.len() - k,
        {
            let ghost before = next@;
            let p: Principal = new_admins[k];
            if !holds(&next, &p) {
                next.push(p);
            }
            proof {
                let grown = new_admins@.take(k + 1);
                assert(grown =~= new_admins@.take(k as int).push(p));
                assert forall|q: Principal|
                    next@.to_set().contains(q) <==> self@.union(grown.to_set()).contains(q) by {
                    assert(next@.contains(q) <==> before.contains(q) || q == p) by {
                        if next@.len() == before.len() {
                        } else {
                            assert(next@ == before.push(p));
                            if before.contains(q) {
                                let w = choose|w: int| 0 <= w < before.len() && before[w] == q;
                                assert(next@[w] == q);
                            }
                            assert(next@[before.len() as int] == p);
                        }
                    }
                    assert(before.to_set().contains(q) <==> before.contains(q));
                    assert(grown.contains(q) <==> new_admins@.take(k as int).contains(q) || q == p) by {
                        let shorter = new_admins@.take(k as int);
                        if shorter.contains(q) {
                            let w = choose|w: int| 0 <= w < shorter.len() && shorter[w] == q;
                            assert(grown[w] == q);
                        }
                        assert(grown[k as int] == p);
                    }
                }
                assert(next@.to_set() =~= self@.union(grown.to_set()));
            }
            k += 1;
        }
        assert(new_admins@.take(new_admins@.len() as int) =~= new_admins@);
        next
    }

    /// Adds `new_admins` to the set. One who is an admin already stays one;
    /// nothing is added twice.
    pub fn add_admins(&mut self, caller: &Principal, new_admins: &Vec<Principal>) -> (r: Result<
        (),
        CustomError,
    >)
        requires
            old(self).wf(),
        ensures
            final(self).wf(),
            r is Ok <==> old(self)@.contains(*caller) && old(self)@.union(
                new_admins@.to_set(),
            ).len() <= MAX_ADMINS,
            r is Ok ==> final(self)@ == old(self)@.union(new_admins@.to_set()),
            r is Err ==> *final(self) == *old(self),
            r is Err ==> r == Err::<(), CustomError>(
                if !old(self)@.contains(*caller) {
                    CustomError::Unauthorized
                } else {
                    CustomError::ArithmeticOverflow
                },
            ),
    {
        if !self.is_admin(caller) {
            return Err(CustomError::Unauthorized);
        }
        let next: Vec<Principal> = self.joined(new_admins);
        proof {
            next@.unique_seq_to_set();
        }
        if next.len() > MAX_ADMINS {
            return Err(CustomError::ArithmeticOverflow);
        }
        self.admins = next;
        Ok(())
    }

    /// The registry's admins without `principal`.
    fn without(&self, principal: &Principal) -> (next: Vec<Principal>)
        requires
            self.admins@.no_duplicates(),
        ensures
            next@.no_duplicates(),
            next@.to_set() == self@.remove(*principal),
            next@.len() <= self.admins@.len(),
    {
        let mut next: Vec<Principal> = Vec::new();
        let mut i: usize = 0;
        while i < self.admins.len()
            invariant
                i <= self.admins@.len(),
                self.admins@.no_duplicates(),
                next@.no_duplicates(),
                next@.len() <= i,
                forall|k: int|
                    0 <= k < next@.len() ==> next@[k] != *principal && exists|j: int|
                        0 <= j < i && self.admins@[j] == #[trigger] next@[k],
                forall|j: int|
                    0 <= j < i && self.admins@[j] != *principal ==> next@.contains(
                        #[trigger] self.admins@[j],
                    ),
            decreases self.admins@.len() - i,
        {
            let ghost before = next@;
            let p: Principal = self.admins[i];
            if !p.same(principal) {
                next.push(p);
                proof {
                    assert forall|j: int| 0 <= j < i + 1 && self.admins@[j] != *principal implies next@.contains(
                        #[trigger] self.admins@[j],
                    ) by {
                        if j < i {
                            let w = choose|w: int| 0 <= w < before.len() && before[w] == self.admins@[j];
                            assert(next@[w] == self.admins@[j]);
                        } else {
                            assert(next@[before.len() as int] == p);
                        }
                    }
                    assert forall|k: int| 0 <= k < next@.len() implies next@[k] != *principal && exists|j: int|
                        0 <= j < i + 1 && self.admins@[j] == #[trigger] next@[k] by {
                        if k < before.len() {
                            assert(next@[k] == before[k]);
                            let j = choose|j: int| 0 <= j < i && self.admins@[j] == before[k];
                            assert(0 <= j < i + 1 && self.admins@[j] == next@[k]);
                        } else {
                            assert(0 <= i < i + 1 && self.admins@[i as int] == next@[k]);
                        }
                    }
                    assert forall|a: int, b: int| 0 <= a < next@.len() && 0 <= b < next@.len() && a != b implies next@[a] != next@[b] by {
                        if a < before.len() && b < before.len() {
                            assert(before[a] != before[b]);
                        } else if a < before.len() {
                            let j = choose|j: int| 0 <= j < i && self.admins@[j] == before[a];
                            assert(self.admins@[j] != self.admins@[i as int]);
                        } else {
                            let j = choose|j: int| 0 <= j < i && self.admins@[j] == before[b];
                            assert(self.admins@[j] != self.admins@[i as int]);
                        }
                    }
                }
            }
            i += 1;
        }
        proof {
            assert forall|q: Principal|
                next@.to_set().contains(q) <==> self@.remove(*principal).contains(q) by {
                if next@.contains(q) {
                    let k = choose|k: int| 0 <= k < next@.len() && next@[k] == q;
                    let j = choose|j: int| 0 <= j < i && self.admins@[j] == next@[k];
                    assert(self.admins@.contains(q));
                }
                if self.admins@.contains(q) && q != *principal {
                    let j = choose|j: int| 0 <= j < self.admins@.len() && self.admins@[j] == q;
                    assert(next@.contains(self.admins@[j]));
                }
            }
            assert(next@.to_set() =~= self@.remove(*principal));
        }
        next
    }

    /// Takes `principal` out of the set, unless nobody would be left.
    pub fn remove_admin(&mut self, caller: &Principal, principal: &Principal) -> (r: Result<
        (),
        CustomError,
    >)
        requires
            old(self).wf(),
        ensures
            final(self).wf(),
            r is Ok <==> old(self)@.contains(*caller) && old(self)@.remove(*principal).len() > 0,
            r is Ok ==> final(self)@ == old(self)@.remove(*principal),
            r is Err ==> *final(self) == *old(self),
            r is Err ==> r == Err::<(), CustomError>(
                if !old(self)@.contains(*caller) {
                    CustomError::Unauthorized
                } else {
                    CustomError::LastAdminRemoval
                },
            ),
    {
        if !self.is_admin(caller) {
            return Err(CustomError::Unauthorized);
        }
        let next: Vec<Principal> = self.without(principal);
        proof {
            next@.unique_seq_to_set();
        }
        if next.len() == 0 {
            return Err(CustomError::LastAdminRemoval);
        }
        self.admins = next;
        Ok(())
    }
}

} // verus!
