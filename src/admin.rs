use vstd::prelude::*;

use crate::error::SibError;
use crate::pubkey::Pubkey;

verus! {

/// How many delegated admins the registry can hold.
pub const ADMIN_CAPACITY: usize = 64;

/// `s` with every occurrence of `who` taken out, order kept.
pub open spec fn without(s: Seq<Seq<u8>>, who: Seq<u8>) -> Seq<Seq<u8>> {
    s.filter(other_than(who))
}

pub open spec fn other_than(who: Seq<u8>) -> spec_fn(Seq<u8>) -> bool {
    |k: Seq<u8>| k != who
}

/// The singleton authorization list: one super-admin and a bounded,
/// duplicate-free, ordered set of delegated admins.
pub struct AdminRegistry {
    pub super_admin: Pubkey,
    pub admins: Vec<Pubkey>,
    pub bump: u8,
}

impl AdminRegistry {
    /// The delegated admins, as key bytes.
    pub open spec fn keys(&self) -> Seq<Seq<u8>> {
        self.admins@.map_values(|k: Pubkey| k@)
    }

    pub open spec fn spec_is_admin(&self, who: Seq<u8>) -> bool {
        who == self.super_admin@ || self.keys().contains(who)
    }

    /// What adding `who` returns: success when it is already authorized or
    /// there is room, else a full list.
    pub open spec fn add_result(&self, who: Seq<u8>) -> Result<(), SibError> {
        if !self.spec_is_admin(who) && self.admins@.len() >= ADMIN_CAPACITY {
            Err(SibError::AdminListFull)
        } else {
            Ok(())
        }
    }

    /// The delegated admins after adding `who`.
    pub open spec fn keys_after_add(&self, who: Seq<u8>) -> Seq<Seq<u8>> {
        if self.spec_is_admin(who) || self.admins@.len() >= ADMIN_CAPACITY {
            self.keys()
        } else {
            self.keys().push(who)
        }
    }

    /// Within capacity, no duplicates, and the super-admin never stored.
    pub open spec fn wf(&self) -> bool {
        &&& self.admins@.len() <= ADMIN_CAPACITY
        &&& self.keys().no_duplicates()
        &&& !self.keys().contains(self.super_admin@)
    }

    /// A registry with no delegated admins.
    pub fn new(super_admin: Pubkey, bump: u8) -> (r: AdminRegistry)
        ensures
            r.wf(),
            r.super_admin == super_admin,
            r.admins@.len() == 0,
            r.bump == bump,
    {
        let r = AdminRegistry { super_admin, admins: Vec::new() , bump };
        assert(r.keys() =~= Seq::<Seq<u8>>::empty());
        r
    }

    /// Whether the registry is well formed: stored data read back from the
    /// host is checked with this before it is used.
    pub fn is_valid(&self) -> (r: bool)
        ensures
            r == self.wf(),
    {
        if self.admins.len() > ADMIN_CAPACITY {
            return false;
        }
        let mut i: usize = 0;
        while i < self.admins.len()
            invariant
                0 <= i <= self.admins@.len(),
                forall|a: int, b: int| 0 <= a < i && 0 <= b < self.keys().len() && a != b ==> self.keys()[a] != self.keys()[b],
                forall|a: int| 0 <= a < i ==> self.keys()[a] != self.super_admin@,
            decreases self.admins@.len() - i,
        {
            if self.admins[i].same(&self.super_admin) {
                assert(self.keys()[i as int] == self.super_admin@);
                return false;
            }
            let mut j: usize = 0;
            while j < self.admins.len()
                invariant
                    0 <= i < self.admins@.len(),
                    0 <= j <= self.admins@.len(),
                    forall|b: int| 0 <= b < j && b != i ==> self.keys()[i as int] != self.keys()[b],
                decreases self.admins@.len() - j,
            {
                if j != i && self.admins[i].same(&self.admins[j]) {
                    assert(self.keys()[i as int] == self.keys()[j as int]);
                    return false;
                }
                j = j + 1;
            }
            i = i + 1;
        }
        true
    }

    fn holds(&self, who: &Pubkey) -> (r: bool)
        ensures
            r == self.keys().contains(who@),
    {
        let mut i: usize = 0;
        while i < self.admins.len()
            invariant
                0 <= i <= self.admins@.len(),
                forall|j: int| 0 <= j < i ==> self.keys()[j] != who@,
            decreases self.admins@.len() - i,
        {
            if self.admins[i].same(who) {
                assert(self.keys()[i as int] == who@);
                return true;
            }
            i = i + 1;
        }
        false
    }

    /// True iff `who` is the super-admin or a delegated admin.
    pub fn is_admin(&self, who: &Pubkey) -> (r: bool)
        ensures
            r == self.spec_is_admin(who@),
    {
        if who.same(&self.super_admin) {
            return true;
        }
        self.holds(who)
    }

    /// Appends `who` unless it is already authorized; refuses a new key when
    /// the list is full.
    pub fn add_admin(&mut self, who: Pubkey) -> (r: Result<(), SibError>)
        requires
            old(self).wf(),
        ensures
            final(self).wf(),
            final(self).super_admin == old(self).super_admin,
            final(self).bump == old(self).bump,
            r == old(self).add_result(who@),
            r is Err ==> *final(self) == *old(self),
            final(self).keys() == old(self).keys_after_add(who@),
            r is Ok && !old(self).spec_is_admin(who@) ==> final(self).admins@ == old(self).admins@.push(
                who,
            ),
    {
        if self.is_admin(&who) {
            return Ok(());
        }
        if self.admins.len() >= ADMIN_CAPACITY {
            return Err(SibError::AdminListFull);
        }
        let ghost before = self.keys();
        self.admins.push(who);
        assert(self.keys() =~= before.push(who@));
        assert forall|i: int, j: int|
            0 <= i < self.keys().len() && 0 <= j < self.keys().len() && i != j implies self.keys()[i]
            != self.keys()[j] by {
            if i < before.len() && j < before.len() {
            } else if i < before.len() {
                assert(before.contains(before[i]));
            } else {
                assert(before.contains(before[j]));
            }
        }
        Ok(())
    }

    /// Takes every occurrence of `who` out of the delegated list.
    pub fn remove_admin(&mut self, who: Pubkey)
        requires
            old(self).wf(),
        ensures
            final(self).wf(),
            final(self).super_admin == old(self).super_admin,
            final(self).bump == old(self).bump,
            final(self).keys() == without(old(self).keys(), who@),
    {
        let ghost keys = self.keys();
        let mut kept: Vec<Pubkey> = Vec::new();
        let mut i: usize = 0;
        assert(keys.subrange(0, 0) =~= Seq::<Seq<u8>>::empty());
        assert(without(keys.subrange(0, 0), who@) =~= Seq::<Seq<u8>>::empty()) by {
            reveal(Seq::filter);
        }
        while i < self.admins.len()
            invariant
                0 <= i <= self.admins@.len(),
                self.wf(),
                keys == self.keys(),
                kept@.map_values(|k: Pubkey| k@) == without(keys.subrange(0, i as int), who@),
                kept@.map_values(|k: Pubkey| k@).no_duplicates(),
            decreases self.admins@.len() - i,
        {
            let ghost prev = kept@.map_values(|k: Pubkey| k@);
            let k = self.admins[i];
            assert(keys.subrange(0, i + 1) =~= keys.subrange(0, i as int).push(k@));
            proof {
                keys.subrange(0, i as int).lemma_filter_push(k@, other_than(who@));
            }
            if !k.same(&who) {
                proof {
                    if prev.contains(k@) {
                        keys.subrange(0, i as int).lemma_filter_contains_rev(other_than(who@), k@);
                        assert(keys.subrange(0, i as int).contains(k@));
                        let t = choose|t: int| 0 <= t < i && keys.subrange(0, i as int)[t] == k@;
                        assert(keys[t] == keys[i as int]);
                    }
                }
                kept.push(k);
                assert(kept@.map_values(|k: Pubkey| k@) =~= prev.push(k@));
                let ghost cur = kept@.map_values(|k: Pubkey| k@);
                assert forall|a: int, b: int|
                    0 <= a < cur.len() && 0 <= b < cur.len() && a != b implies cur[a] != cur[b] by {
                    if a < prev.len() && b < prev.len() {
                    } else if a < prev.len() {
                        assert(prev.contains(prev[a]));
                    } else {
                        assert(prev.contains(prev[b]));
                    }
                }
            }
            i = i + 1;
        }
        assert(keys.subrange(0, i as int) =~= keys);
        let ghost result = kept@.map_values(|k: Pubkey| k@);
        proof {
            if result.contains(self.super_admin@) {
                keys.lemma_filter_contains_rev(other_than(who@), self.super_admin@);
            }
        }
        self.admins = kept;
        assert(self.keys() == result);
    }
}

/// An identity just added is authorized; once removed again it is not,
/// unless it is the super-admin, who stays authorized throughout.
pub proof fn lemma_add_then_remove(
    r0: AdminRegistry,
    r1: AdminRegistry,
    r2: AdminRegistry,
    x: Seq<u8>,
)
    requires
        r0.wf(),
        r0.add_result(x) is Ok,
        r1.super_admin == r0.super_admin,
        r1.keys() == r0.keys_after_add(x),
        r2.super_admin == r1.super_admin,
        r2.keys() == without(r1.keys(), x),
    ensures
        r1.spec_is_admin(x),
        r2.spec_is_admin(x) == (x == r0.super_admin@),
{
    if r1.keys() != r0.keys() {
        assert(r1.keys().last() == x);
        assert(r1.keys().contains(x));
    }
    if r2.keys().contains(x) {
        let i = choose|i: int| 0 <= i < r2.keys().len() && r2.keys()[i] == x;
        r1.keys().lemma_filter_pred(other_than(x), i);
    }
}

/// With the list full, a new identity is refused and the list is unchanged;
/// an identity already authorized is accepted and the list is unchanged.
pub proof fn lemma_full_list(r: AdminRegistry, x: Seq<u8>)
    requires
        r.wf(),
    ensures
        r.admins@.len() == ADMIN_CAPACITY && !r.spec_is_admin(x) ==> r.add_result(x) == Err::<
            (),
            SibError,
        >(SibError::AdminListFull) && r.keys_after_add(x) == r.keys(),
        r.spec_is_admin(x) ==> r.add_result(x) == Ok::<(), SibError>(()) && r.keys_after_add(x)
            == r.keys(),
{
}

} // verus!
