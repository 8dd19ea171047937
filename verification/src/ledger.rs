//! The achievement ledger: a fixed catalog of eight achievements, earned
//! badges per holder and per pet, per-holder milestone counters and flags,
//! and a balance/supply ledger with one counter per (holder, achievement)
//! and one global counter per achievement.
//!
//! `award_achievement` is the single idempotency gate: a badge is granted
//! at most once per (holder, achievement), and a failed attempt changes
//! nothing. The milestone `record_*` entry points pre-check their own flag
//! and funnel through it.
//!
//! Composite (holder, achievement) storage keys are encoded
//! deterministically into one `u128` key per mapping ([`badge_key`]), so a
//! lookup means exactly what the composite key meant.

use vstd::prelude::*;
use vstd::hash_map::HashMapWithView;
use vstd::set_lib::lemma_len_subset;
use vstd::set_lib::lemma_int_range;
use vstd::string::StringExecFns;
use crate::errors::Error;

verus! {

broadcast use vstd::std_specs::hash::group_hash_axioms;

/// Size of the fixed achievement catalog. Valid achievement ids are
/// `0 .. TOTAL_ACHIEVEMENTS`.
pub const TOTAL_ACHIEVEMENTS: u128 = 8;

/// One catalog entry. Everything but `total_earned` is immutable after
/// initialization.
#[derive(Clone, Debug)]
pub struct Achievement {
    /// Catalog index, `0..8`.
    pub id: u128,
    pub name: String,
    pub description: String,
    /// Informal rarity tier shown to clients.
    pub rarity: String,
    /// Small pictogram shown next to the name.
    pub icon: String,
    /// How many holders have ever earned this achievement.
    pub total_earned: u128,
}

impl Achievement {
    /// A field-wise copy, proved equal to its source value.
    pub fn snapshot(&self) -> (a: Achievement)
        ensures
            a == *self,
    {
        Achievement {
            id: self.id,
            name: self.name.clone(),
            description: self.description.clone(),
            rarity: self.rarity.clone(),
            icon: self.icon.clone(),
            total_earned: self.total_earned,
        }
    }
}

/// Deterministic encoding of a (holder, small index) composite key into a
/// single map key. Injective whenever the index is below 8.
pub open spec fn badge_key(user: u64, id: u128) -> u128 {
    ((user as int) * 8 + (id as int)) as u128
}

/// Two composite keys with indices below 8 collide only if they agree on
/// both coordinates.
pub proof fn lemma_badge_key_injective(u1: u64, i1: u128, u2: u64, i2: u128)
    requires
        i1 < 8,
        i2 < 8,
        badge_key(u1, i1) == badge_key(u2, i2),
    ensures
        u1 == u2,
        i1 == i2,
{
    assert((u1 as int) * 8 + (i1 as int) == (u2 as int) * 8 + (i2 as int));
    assert(u1 == u2 && i1 == i2) by (nonlinear_arith)
        requires
            i1 < 8,
            i2 < 8,
            (u1 as int) * 8 + (i1 as int) == (u2 as int) * 8 + (i2 as int),
    ;
}

/// Computes [`badge_key`].
fn make_badge_key(user: u64, id: u128) -> (k: u128)
    requires
        id < 8,
    ensures
        k == badge_key(user, id),
{
    (user as u128) * 8 + id
}

/// Whether bit `id` is set in a per-pet badge bitmask.
pub open spec fn mask_has(mask: u8, id: u128) -> bool {
    mask & (1u8 << (id as u8)) != 0
}

/// Setting one bit sets exactly that bit.
proof fn lemma_mask_set(m: u8, i: u8, j: u8)
    requires
        i < 8,
        j < 8,
    ensures
        ((m | (1u8 << i)) & (1u8 << j) != 0) == ((m & (1u8 << j) != 0) || i == j),
{
    assert(((m | (1u8 << i)) & (1u8 << j) != 0) == ((m & (1u8 << j) != 0) || i == j))
        by (bit_vector)
        requires
            i < 8,
            j < 8,
    ;
}

/// The empty bitmask holds no badge.
proof fn lemma_mask_empty(j: u8)
    ensures
        0u8 & (1u8 << j) == 0,
{
    assert(0u8 & (1u8 << j) == 0) by (bit_vector);
}

/// Builds one catalog entry with nothing earned yet.
fn catalog_entry(id: u128, name: &str, description: &str, rarity: &str, icon: &str) -> (a:
    Achievement)
    ensures
        a.id == id,
        a.name@ == name@,
        a.description@ == description@,
        a.rarity@ == rarity@,
        a.icon@ == icon@,
        a.total_earned == 0,
{
    Achievement {
        id,
        name: String::from_str(name),
        description: String::from_str(description),
        rarity: String::from_str(rarity),
        icon: String::from_str(icon),
        total_earned: 0,
    }
}

/// The achievement-ledger component. One instance is process-wide shared
/// state; any authorized action may consult or mutate it.
pub struct PetWorldAchievement {
    /// Administrative principal; set once by `initialize`.
    pub owner: Option<u64>,
    /// The registered pet-world component, the only other principal allowed
    /// to award.
    pub petworld_contract: Option<u64>,
    /// The fixed catalog; empty before `initialize`, exactly 8 afterwards.
    pub catalog: Vec<Achievement>,
    /// `badge_key(holder, id) -> true` once the holder earned achievement
    /// `id`. Facts are set once and never unset.
    pub earned: HashMapWithView<u128, bool>,
    /// Per-pet badge bitmask, bit `id` set when the pet carried the award.
    pub pet_badges: HashMapWithView<u128, u8>,
    /// `badge_key(holder, id) -> balance`, incremented once per successful
    /// award.
    pub balances: HashMapWithView<u128, u128>,
    /// Global supply per achievement id; always 8 entries.
    pub supply: Vec<u128>,
    /// Lifetime feed actions per holder.
    pub feed_counts: HashMapWithView<u64, u128>,
    /// Lifetime play actions per holder.
    pub play_counts: HashMapWithView<u64, u128>,
    /// Holder has minted their first pet.
    pub has_first_pet: HashMapWithView<u64, bool>,
    /// Holder has seen a pet evolve for the first time.
    pub has_evolved: HashMapWithView<u64, bool>,
    /// Holder has revived a pet.
    pub has_revived: HashMapWithView<u64, bool>,
    /// `badge_key(holder, stage) -> true` once any pet of the holder
    /// reached stage 2 (Teen) or 3 (Adult).
    pub reached_stage: HashMapWithView<u128, bool>,
}

impl PetWorldAchievement {
    /// The component has an owner.
    pub open spec fn initialized(self) -> bool {
        self.owner is Some
    }

    /// Only the owner or the registered pet-world component may award.
    pub open spec fn authorized(self, caller: u64) -> bool {
        self.owner == Some(caller) || self.petworld_contract == Some(caller)
    }

    /// Has this holder earned this achievement?
    pub open spec fn spec_earned(self, user: u64, id: u128) -> bool {
        &&& id < 8
        &&& self.earned@.contains_key(badge_key(user, id))
        &&& self.earned@[badge_key(user, id)]
    }

    /// Does this pet carry this badge?
    pub open spec fn spec_pet_badge(self, pet: u128, id: u128) -> bool {
        &&& self.pet_badges@.contains_key(pet)
        &&& mask_has(self.pet_badges@[pet], id)
    }

    /// Badge balance of a holder for one achievement (absent means 0;
    /// ids outside the catalog hold nothing).
    pub open spec fn spec_balance(self, user: u64, id: u128) -> u128 {
        if id < 8 && self.balances@.contains_key(badge_key(user, id)) {
            self.balances@[badge_key(user, id)]
        } else {
            0
        }
    }

    /// Global supply of one achievement; 0 outside the catalog.
    pub open spec fn spec_supply(self, id: u128) -> u128 {
        if id < 8 {
            self.supply@[id as int]
        } else {
            0
        }
    }

    /// Lifetime feed count of a holder (absent means 0).
    pub open spec fn spec_feed_count(self, user: u64) -> u128 {
        if self.feed_counts@.contains_key(user) {
            self.feed_counts@[user]
        } else {
            0
        }
    }

    /// Lifetime play count of a holder (absent means 0).
    pub open spec fn spec_play_count(self, user: u64) -> u128 {
        if self.play_counts@.contains_key(user) {
            self.play_counts@[user]
        } else {
            0
        }
    }

    /// First-mint milestone flag.
    pub open spec fn spec_has_first_pet(self, user: u64) -> bool {
        self.has_first_pet@.contains_key(user) && self.has_first_pet@[user]
    }

    /// First-evolution milestone flag.
    pub open spec fn spec_has_evolved(self, user: u64) -> bool {
        self.has_evolved@.contains_key(user) && self.has_evolved@[user]
    }

    /// First-revival milestone flag.
    pub open spec fn spec_has_revived(self, user: u64) -> bool {
        self.has_revived@.contains_key(user) && self.has_revived@[user]
    }

    /// Stage-reached milestone flag (stages 2 and 3).
    pub open spec fn spec_reached(self, user: u64, stage: u128) -> bool {
        &&& stage < 8
        &&& self.reached_stage@.contains_key(badge_key(user, stage))
        &&& self.reached_stage@[badge_key(user, stage)]
    }

    /// The holders (as integers) that have earned achievement `id`.
    pub open spec fn earned_users(self, id: u128) -> Set<int> {
        Set::new(|u: int| 0 <= u < 0x1_0000_0000_0000_0000 && self.spec_earned(u as u64, id))
    }

    /// The component invariant. Catalog entries sit at their own id;
    /// the global supply equals the entry's `total_earned` and counts the
    /// holders that earned it; a holder's balance is 1 exactly when the
    /// badge is earned (awarding is idempotent, so balances are binary).
    pub open spec fn wf(self) -> bool {
        &&& self.owner is None ==> self.catalog@.len() == 0
        &&& self.owner is Some ==> self.catalog@.len() == 8
        &&& self.supply@.len() == 8
        &&& forall|j: int|
            0 <= j < self.catalog@.len() ==> (#[trigger] self.catalog@[j].id) == j
        &&& forall|j: int|
            0 <= j < self.catalog@.len() ==> (#[trigger] self.catalog@[j].total_earned)
                == self.supply@[j]
        &&& self.owner is None ==> forall|j: int| 0 <= j < 8 ==> (#[trigger] self.supply@[j]) == 0
        &&& forall|k: u128| #[trigger] self.earned@.contains_key(k) ==> self.earned@[k] == true
        &&& forall|u: u64, id: u128|
            id < 8 ==> (#[trigger] self.spec_balance(u, id)) == if self.spec_earned(u, id) {
                1u128
            } else {
                0u128
            }
        &&& forall|j: int|
            0 <= j < 8 ==> (#[trigger] self.supply@[j]) as int == self.earned_users(
                j as u128,
            ).len()
    }

    /// The set of earners is a set of 64-bit principals, so every supply
    /// counter has room to grow.
    proof fn lemma_supply_has_room(self, j: u128)
        requires
            self.wf(),
            j < 8,
        ensures
            self.spec_supply(j) < u128::MAX,
    {
        let bound: int = 0x1_0000_0000_0000_0000;
        lemma_int_range(0, bound);
        assert(self.earned_users(j).subset_of(vstd::set_lib::set_int_range(0, bound)));
        lemma_len_subset(self.earned_users(j), vstd::set_lib::set_int_range(0, bound));
    }

    /// A fresh, uninitialized ledger: no owner, no companion, empty catalog,
    /// nothing earned, all counters 0.
    pub fn new() -> (l: Self)
        ensures
            l.wf(),
            l.owner is None,
            l.petworld_contract is None,
            l.catalog@.len() == 0,
            l.earned@ == Map::<u128, bool>::empty(),
            l.pet_badges@ == Map::<u128, u8>::empty(),
            l.balances@ == Map::<u128, u128>::empty(),
            l.feed_counts@ == Map::<u64, u128>::empty(),
            l.play_counts@ == Map::<u64, u128>::empty(),
            l.has_first_pet@ == Map::<u64, bool>::empty(),
            l.has_evolved@ == Map::<u64, bool>::empty(),
            l.has_revived@ == Map::<u64, bool>::empty(),
            l.reached_stage@ == Map::<u128, bool>::empty(),
            forall|j: int| 0 <= j < 8 ==> (#[trigger] l.supply@[j]) == 0,
    {
        let mut supply: Vec<u128> = Vec::new();
        let mut j: usize = 0;
        while j < 8
            invariant
                supply@.len() == j,
                j <= 8,
                forall|i: int| 0 <= i < j ==> (#[trigger] supply@[i]) == 0,
            decreases 8 - j,
        {
            supply.push(0);
            j = j + 1;
        }
        let l = PetWorldAchievement {
            owner: None,
            petworld_contract: None,
            catalog: Vec::new(),
            earned: HashMapWithView::new(),
            pet_badges: HashMapWithView::new(),
            balances: HashMapWithView::new(),
            supply,
            feed_counts: HashMapWithView::new(),
            play_counts: HashMapWithView::new(),
            has_first_pet: HashMapWithView::new(),
            has_evolved: HashMapWithView::new(),
            has_revived: HashMapWithView::new(),
            reached_stage: HashMapWithView::new(),
        };
        proof {
            assert forall|j2: int| 0 <= j2 < 8 implies (#[trigger] l.supply@[j2]) as int
                == l.earned_users(j2 as u128).len() by {
                assert(l.earned_users(j2 as u128) =~= Set::<int>::empty());
            }
        }
        l
    }

    /// Everything `award_achievement` changes on success, stated over the
    /// ledger's accessors: the badge (and the pet's provenance badge) is
    /// set, the holder's balance and the achievement's supply and
    /// `total_earned` each grow by one, and nothing else moves.
    pub open spec fn award_delta(pre: Self, post: Self, user: u64, id: u128, pet: u128) -> bool {
        &&& post.spec_earned(user, id)
        &&& forall|u2: u64, i2: u128|
            i2 < 8 ==> (#[trigger] post.spec_earned(u2, i2)) == (pre.spec_earned(u2, i2) || (u2
                == user && i2 == id))
        &&& forall|p2: u128, i2: u128|
            i2 < 8 ==> (#[trigger] post.spec_pet_badge(p2, i2)) == (pre.spec_pet_badge(p2, i2)
                || (p2 == pet && i2 == id))
        &&& forall|u2: u64, i2: u128|
            i2 < 8 ==> (#[trigger] post.spec_balance(u2, i2)) == if u2 == user && i2 == id {
                (pre.spec_balance(u2, i2) + 1) as u128
            } else {
                pre.spec_balance(u2, i2)
            }
        &&& id < 8
        &&& post.supply@ == pre.supply@.update(id as int, (pre.supply@[id as int] + 1) as u128)
        &&& post.catalog@.len() == pre.catalog@.len()
        &&& forall|j: int|
            0 <= j < pre.catalog@.len() && j != id ==> (#[trigger] post.catalog@[j])
                == pre.catalog@[j]
        &&& id < pre.catalog@.len() ==> post.catalog@[id as int] == (Achievement {
            total_earned: (pre.catalog@[id as int].total_earned + 1) as u128,
            ..pre.catalog@[id as int]
        })
    }

    /// The badge/balance/supply/catalog state is untouched.
    pub open spec fn no_award(pre: Self, post: Self) -> bool {
        &&& post.earned@ == pre.earned@
        &&& post.pet_badges@ == pre.pet_badges@
        &&& post.balances@ == pre.balances@
        &&& post.supply@ == pre.supply@
        &&& post.catalog@ == pre.catalog@
    }

    /// Owner and registered companion are untouched.
    pub open spec fn same_admin(pre: Self, post: Self) -> bool {
        &&& post.owner == pre.owner
        &&& post.petworld_contract == pre.petworld_contract
    }

    /// All milestone counters and flags are untouched.
    pub open spec fn same_milestones(pre: Self, post: Self) -> bool {
        &&& post.feed_counts@ == pre.feed_counts@
        &&& post.play_counts@ == pre.play_counts@
        &&& post.has_first_pet@ == pre.has_first_pet@
        &&& post.has_evolved@ == pre.has_evolved@
        &&& post.has_revived@ == pre.has_revived@
        &&& post.reached_stage@ == pre.reached_stage@
    }

    /// Awards achievement `achievement_id` to `user`, recording provenance
    /// on pet `pet_token_id`. The single idempotency gate: fails with
    /// `AlreadyEarned` if the holder has the badge, and a failed call
    /// changes nothing.
    pub fn award_achievement(
        &mut self,
        caller: u64,
        user: u64,
        achievement_id: u128,
        pet_token_id: u128,
    ) -> (r: Result<(), Error>)
        requires
            old(self).wf(),
        ensures
            final(self).wf(),
            r == Err::<(), Error>(Error::NotInitialized) <==> old(self).owner is None,
            r == Err::<(), Error>(Error::Unauthorized) <==> old(self).owner is Some && !old(
                self,
            ).authorized(caller),
            r == Err::<(), Error>(Error::InvalidAchievementId) <==> old(self).initialized() && old(
                self,
            ).authorized(caller) && achievement_id >= 8,
            r == Err::<(), Error>(Error::AlreadyEarned) <==> old(self).initialized() && old(
                self,
            ).authorized(caller) && achievement_id < 8 && old(self).spec_earned(
                user,
                achievement_id,
            ),
            r is Ok <==> old(self).initialized() && old(self).authorized(caller) && achievement_id
                < 8 && !old(self).spec_earned(user, achievement_id),
            r is Err ==> *final(self) == *old(self),
            r is Ok ==> Self::award_delta(
                *old(self),
                *final(self),
                user,
                achievement_id,
                pet_token_id,
            ),
            r is Ok ==> final(self).spec_balance(user, achievement_id) == 1,
            Self::same_admin(*old(self), *final(self)),
            Self::same_milestones(*old(self), *final(self)),
    {
        let own: u64 = match self.owner {
            Some(o) => o,
            None => {
                return Err(Error::NotInitialized);
            },
        };
        let authorized: bool = caller == own || (match self.petworld_contract {
            Some(p) => caller == p,
            None => false,
        });
        if !authorized {
            return Err(Error::Unauthorized);
        }
        if achievement_id >= 8 {
            return Err(Error::InvalidAchievementId);
        }
        let key: u128 = make_badge_key(user, achievement_id);
        let already: bool = match self.earned.get(&key) {
            Some(b) => *b,
            None => false,
        };
        if already {
            return Err(Error::AlreadyEarned);
        }
        let ghost pre = *self;

        // Mark as earned, for the holder and for the pet.
        self.earned.insert(key, true);
        let old_mask: u8 = match self.pet_badges.get(&pet_token_id) {
            Some(m) => *m,
            None => 0,
        };
        let bit: u8 = achievement_id as u8;
        let new_mask: u8 = old_mask | (1u8 << bit);
        self.pet_badges.insert(pet_token_id, new_mask);

        // Grow the holder's balance; it was 0, since the badge was new.
        proof {
            assert(pre.spec_balance(user, achievement_id) == 0);
        }
        let old_balance: u128 = match self.balances.get(&key) {
            Some(b) => *b,
            None => 0,
        };
        self.balances.insert(key, old_balance + 1);

        // Grow the global supply and the catalog's earned counter.
        proof {
            pre.lemma_supply_has_room(achievement_id);
        }
        let iu: usize = achievement_id as usize;
        let old_supply: u128 = self.supply[iu];
        self.supply[iu] = old_supply + 1;
        let entry: &Achievement = &self.catalog[iu];
        let new_entry = Achievement {
            id: entry.id,
            name: entry.name.clone(),
            description: entry.description.clone(),
            rarity: entry.rarity.clone(),
            icon: entry.icon.clone(),
            total_earned: entry.total_earned + 1,
        };
        self.catalog[iu] = new_entry;

        proof {
            self.lemma_award_frames(pre, caller, user, achievement_id, pet_token_id, key);
        }
        Ok(())
    }

    /// Frame reasoning for a fresh award: the three keyed maps changed only
    /// at the awarded coordinate, and the invariant survives.
    proof fn lemma_award_frames(
        self,
        pre: Self,
        caller: u64,
        user: u64,
        id: u128,
        pet: u128,
        key: u128,
    )
        requires
            pre.wf(),
            pre.initialized(),
            id < 8,
            !pre.spec_earned(user, id),
            key == badge_key(user, id),
            self.earned@ == pre.earned@.insert(key, true),
            self.pet_badges@ == pre.pet_badges@.insert(
                pet,
                (if pre.pet_badges@.contains_key(pet) {
                    pre.pet_badges@[pet]
                } else {
                    0u8
                }) | (1u8 << (id as u8)),
            ),
            self.balances@ == pre.balances@.insert(
                key,
                ((if pre.balances@.contains_key(key) {
                    pre.balances@[key]
                } else {
                    0u128
                }) + 1) as u128,
            ),
            self.supply@ == pre.supply@.update(id as int, (pre.supply@[id as int] + 1) as u128),
            self.catalog@.len() == pre.catalog@.len(),
            forall|j: int|
                0 <= j < pre.catalog@.len() && j != id ==> (#[trigger] self.catalog@[j])
                    == pre.catalog@[j],
            self.catalog@[id as int].id == pre.catalog@[id as int].id,
            self.catalog@[id as int].total_earned == (pre.catalog@[id as int].total_earned
                + 1) as u128,
            self.owner == pre.owner,
            self.petworld_contract == pre.petworld_contract,
            self.feed_counts@ == pre.feed_counts@,
            self.play_counts@ == pre.play_counts@,
            self.has_first_pet@ == pre.has_first_pet@,
            self.has_evolved@ == pre.has_evolved@,
            self.has_revived@ == pre.has_revived@,
            self.reached_stage@ == pre.reached_stage@,
        ensures
            self.wf(),
            forall|u2: u64, i2: u128|
                i2 < 8 ==> (#[trigger] self.spec_earned(u2, i2)) == (pre.spec_earned(u2, i2) || (
                u2 == user && i2 == id)),
            forall|p2: u128, i2: u128|
                i2 < 8 ==> (#[trigger] self.spec_pet_badge(p2, i2)) == (pre.spec_pet_badge(p2, i2)
                    || (p2 == pet && i2 == id)),
            forall|u2: u64, i2: u128|
                i2 < 8 ==> (#[trigger] self.spec_balance(u2, i2)) == if u2 == user && i2 == id {
                    (pre.spec_balance(u2, i2) + 1) as u128
                } else {
                    pre.spec_balance(u2, i2)
                },
            self.spec_balance(user, id) == 1,
    {
        pre.lemma_supply_has_room(id);

        assert forall|u2: u64, i2: u128| i2 < 8 implies (#[trigger] self.spec_earned(u2, i2)) == (
        pre.spec_earned(u2, i2) || (u2 == user && i2 == id)) by {
            if badge_key(u2, i2) == key {
                lemma_badge_key_injective(u2, i2, user, id);
            }
        }

        assert forall|p2: u128, i2: u128| i2 < 8 implies (#[trigger] self.spec_pet_badge(p2, i2))
            == (pre.spec_pet_badge(p2, i2) || (p2 == pet && i2 == id)) by {
            if p2 == pet {
                lemma_mask_set(
                    if pre.pet_badges@.contains_key(pet) {
                        pre.pet_badges@[pet]
                    } else {
                        0u8
                    },
                    id as u8,
                    i2 as u8,
                );
                if !pre.pet_badges@.contains_key(pet) {
                    lemma_mask_empty(i2 as u8);
                }
            }
        }

        assert forall|u2: u64, i2: u128| i2 < 8 implies (#[trigger] self.spec_balance(u2, i2))
            == if u2 == user && i2 == id {
            (pre.spec_balance(u2, i2) + 1) as u128
        } else {
            pre.spec_balance(u2, i2)
        } by {
            if badge_key(u2, i2) == key {
                lemma_badge_key_injective(u2, i2, user, id);
            }
        }

        // The earned-user sets: the awarded id gains exactly `user`, every
        // other id keeps its set.
        assert forall|j: int| 0 <= j < 8 implies (#[trigger] self.supply@[j]) as int
            == self.earned_users(j as u128).len() by {
            if j == id as int {
                assert(self.earned_users(id) =~= pre.earned_users(id).insert(user as int));
                pre.lemma_earned_users_finite(id);
                assert(!pre.earned_users(id).contains(user as int));
            } else {
                assert forall|u: int|
                    0 <= u < 0x1_0000_0000_0000_0000 implies #[trigger] self.spec_earned(
                    u as u64,
                    j as u128,
                ) == pre.spec_earned(u as u64, j as u128) by {
                    if badge_key(u as u64, j as u128) == key {
                        lemma_badge_key_injective(u as u64, j as u128, user, id);
                    }
                }
                assert(self.earned_users(j as u128) =~= pre.earned_users(j as u128));
            }
        }
    }

    /// Two states with the same earned-badge map have the same earner sets.
    proof fn lemma_earned_users_unchanged(a: Self, b: Self)
        requires
            b.earned@ == a.earned@,
        ensures
            forall|j: u128| (#[trigger] b.earned_users(j)) == a.earned_users(j),
    {
        assert forall|j: u128| (#[trigger] b.earned_users(j)) == a.earned_users(j) by {
            assert(b.earned_users(j) =~= a.earned_users(j));
        }
    }

    /// The invariant carries over to any state with the same badge,
    /// balance, supply and catalog state, whatever happened to the
    /// milestone counters.
    proof fn lemma_wf_same_badges(a: Self, b: Self)
        requires
            a.wf(),
            b.owner == a.owner,
            b.catalog@ == a.catalog@,
            b.earned@ == a.earned@,
            b.balances@ == a.balances@,
            b.supply@ == a.supply@,
        ensures
            b.wf(),
    {
        Self::lemma_earned_users_unchanged(a, b);
        assert forall|u: u64, id: u128| id < 8 implies (#[trigger] b.spec_balance(u, id))
            == if b.spec_earned(u, id) {
            1u128
        } else {
            0u128
        } by {
            assert(a.spec_balance(u, id) == if a.spec_earned(u, id) {
                1u128
            } else {
                0u128
            });
        }
        assert forall|j: int| 0 <= j < 8 implies (#[trigger] b.supply@[j]) as int
            == b.earned_users(j as u128).len() by {
            assert(a.supply@[j] as int == a.earned_users(j as u128).len());
        }
    }

    /// The invariant after `initialize`: the badge state is untouched and
    /// the fresh catalog pairs zero counters with the all-zero supply that
    /// an uninitialized ledger is known to hold.
    proof fn lemma_wf_after_initialize(a: Self, b: Self)
        requires
            a.wf(),
            a.owner is None,
            b.owner is Some,
            b.earned@ == a.earned@,
            b.balances@ == a.balances@,
            b.supply@ == a.supply@,
            b.catalog@.len() == 8,
            forall|j: int| 0 <= j < 8 ==> (#[trigger] b.catalog@[j].id) == j,
            forall|j: int| 0 <= j < 8 ==> (#[trigger] b.catalog@[j].total_earned) == 0,
        ensures
            b.wf(),
    {
        Self::lemma_earned_users_unchanged(a, b);
        assert forall|u: u64, id: u128| id < 8 implies (#[trigger] b.spec_balance(u, id))
            == if b.spec_earned(u, id) {
            1u128
        } else {
            0u128
        } by {
            assert(a.spec_balance(u, id) == if a.spec_earned(u, id) {
                1u128
            } else {
                0u128
            });
        }
        assert forall|j: int| 0 <= j < 8 implies (#[trigger] b.supply@[j]) as int
            == b.earned_users(j as u128).len() by {
            assert(a.supply@[j] as int == a.earned_users(j as u128).len());
        }
    }

    /// The earners of an achievement form a finite set.
    proof fn lemma_earned_users_finite(self, id: u128)
        ensures
            self.earned_users(id).finite(),
            self.earned_users(id).len() <= 0x1_0000_0000_0000_0000,
    {
        let bound: int = 0x1_0000_0000_0000_0000;
        lemma_int_range(0, bound);
        assert(self.earned_users(id).subset_of(vstd::set_lib::set_int_range(0, bound)));
        lemma_len_subset(self.earned_users(id), vstd::set_lib::set_int_range(0, bound));
    }

    /// The stock catalog written by `initialize`: ids 0..8, each with its
    /// fixed name, description, rarity and icon, and nothing earned yet.
    pub open spec fn standard_catalog(c: Seq<Achievement>) -> bool {
        &&& c.len() == 8
        &&& forall|j: int| 0 <= j < 8 ==> (#[trigger] c[j].id) == j
        &&& forall|j: int| 0 <= j < 8 ==> (#[trigger] c[j].total_earned) == 0
        &&& c[0].name@ == "First Steps"@ && c[0].description@ == "Mint your first PetWorld pet"@
            && c[0].rarity@ == "Common"@
        &&& c[1].name@ == "Metamorphosis"@ && c[1].description@
            == "Evolve your pet for the first time"@ && c[1].rarity@ == "Rare"@
        &&& c[2].name@ == "Death Survivor"@ && c[2].description@ == "Revive a pet from death"@
            && c[2].rarity@ == "Rare"@
        &&& c[3].name@ == "Triple Evolution"@ && c[3].description@
            == "Reach Teen stage (Level 3)"@ && c[3].rarity@ == "Epic"@
        &&& c[4].name@ == "Perfectionist"@ && c[4].description@ == "Get all stats to 100"@
            && c[4].rarity@ == "Epic"@
        &&& c[5].name@ == "Streak Master"@ && c[5].description@ == "Feed your pet 10 times"@
            && c[5].rarity@ == "Uncommon"@
        &&& c[6].name@ == "Active Player"@ && c[6].description@ == "Play with your pet 10 times"@
            && c[6].rarity@ == "Uncommon"@
        &&& c[7].name@ == "Legend"@ && c[7].description@ == "Reach Adult stage (Level 4)"@
            && c[7].rarity@ == "Legendary"@
    }

    /// Claims ownership of an uninitialized ledger and writes the fixed
    /// eight-entry catalog.
    pub fn initialize(&mut self, owner: u64) -> (r: Result<(), Error>)
        requires
            old(self).wf(),
        ensures
            final(self).wf(),
            r == Err::<(), Error>(Error::AlreadyInitialized) <==> old(self).owner is Some,
            r is Ok <==> old(self).owner is None,
            r is Err ==> *final(self) == *old(self),
            r is Ok ==> final(self).owner == Some(owner),
            r is Ok ==> Self::standard_catalog(final(self).catalog@),
            final(self).petworld_contract == old(self).petworld_contract,
            final(self).earned@ == old(self).earned@,
            final(self).pet_badges@ == old(self).pet_badges@,
            final(self).balances@ == old(self).balances@,
            final(self).supply@ == old(self).supply@,
            Self::same_milestones(*old(self), *final(self)),
    {
        if self.owner.is_some() {
            return Err(Error::AlreadyInitialized);
        }
        self.owner = Some(owner);
        let mut c: Vec<Achievement> = Vec::new();
        c.push(catalog_entry(0, "First Steps", "Mint your first PetWorld pet", "Common", "\u{1F95A}"));
        c.push(catalog_entry(1, "Metamorphosis", "Evolve your pet for the first time", "Rare", "\u{1F98B}"));
        c.push(catalog_entry(2, "Death Survivor", "Revive a pet from death", "Rare", "\u{1F480}"));
        c.push(catalog_entry(3, "Triple Evolution", "Reach Teen stage (Level 3)", "Epic", "\u{1F31F}"));
        c.push(catalog_entry(4, "Perfectionist", "Get all stats to 100", "Epic", "\u{1F4AF}"));
        c.push(catalog_entry(5, "Streak Master", "Feed your pet 10 times", "Uncommon", "\u{1F525}"));
        c.push(catalog_entry(6, "Active Player", "Play with your pet 10 times", "Uncommon", "\u{1F3AE}"));
        c.push(catalog_entry(7, "Legend", "Reach Adult stage (Level 4)", "Legendary", "\u{1F451}"));
        self.catalog = c;
        proof {
            Self::lemma_wf_after_initialize(*old(self), *self);
        }
        Ok(())
    }

    /// Registers the pet-world component allowed to report milestones.
    /// Only the owner may call.
    pub fn set_petworld_contract(&mut self, caller: u64, contract_address: u64) -> (r: Result<
        (),
        Error,
    >)
        requires
            old(self).wf(),
        ensures
            final(self).wf(),
            r == Err::<(), Error>(Error::NotInitialized) <==> old(self).owner is None,
            r == Err::<(), Error>(Error::Unauthorized) <==> old(self).owner is Some && old(
                self,
            ).owner != Some(caller),
            r is Ok <==> old(self).owner == Some(caller),
            r is Err ==> *final(self) == *old(self),
            r is Ok ==> *final(self) == (PetWorldAchievement {
                petworld_contract: Some(contract_address),
                ..*old(self)
            }),
    {
        let own: u64 = match self.owner {
            Some(o) => o,
            None => {
                return Err(Error::NotInitialized);
            },
        };
        if caller != own {
            return Err(Error::Unauthorized);
        }
        self.petworld_contract = Some(contract_address);
        proof {
            Self::lemma_wf_same_badges(*old(self), *self);
        }
        Ok(())
    }

    /// The consolidated notifier gate: who may report milestones, and the
    /// error a report fails with otherwise.
    pub fn require_notifier(&self, caller: u64) -> (r: Result<(), Error>)
        ensures
            r == Err::<(), Error>(Error::NotInitialized) <==> self.owner is None,
            r == Err::<(), Error>(Error::Unauthorized) <==> self.owner is Some && !self.authorized(
                caller,
            ),
            r is Ok <==> self.initialized() && self.authorized(caller),
    {
        let own: u64 = match self.owner {
            Some(o) => o,
            None => {
                return Err(Error::NotInitialized);
            },
        };
        if caller == own {
            return Ok(());
        }
        match self.petworld_contract {
            Some(p) => if caller == p {
                Ok(())
            } else {
                Err(Error::Unauthorized)
            },
            None => Err(Error::Unauthorized),
        }
    }

    /// Whether the holder has earned the badge, as one executable read.
    pub fn earned_flag(&self, user: u64, id: u128) -> (b: bool)
        requires
            id < 8,
        ensures
            b == self.spec_earned(user, id),
    {
        let key: u128 = make_badge_key(user, id);
        match self.earned.get(&key) {
            Some(v) => *v,
            None => false,
        }
    }

    /// Whether the pet carries the badge, as one executable read.
    pub fn pet_badge_flag(&self, pet: u128, id: u128) -> (b: bool)
        requires
            id < 8,
        ensures
            b == self.spec_pet_badge(pet, id),
    {
        match self.pet_badges.get(&pet) {
            Some(m) => *m & (1u8 << (id as u8)) != 0,
            None => {
                proof {
                    lemma_mask_empty(id as u8);
                }
                false
            },
        }
    }

    /// Records one feed action: the holder's lifetime feed counter grows by
    /// exactly one, and the streak achievement (id 5) is granted on the
    /// call where the counter first reaches 10, and never again.
    pub fn record_feed(&mut self, caller: u64, user: u64, pet_token_id: u128) -> (r: Result<
        (),
        Error,
    >)
        requires
            old(self).wf(),
            old(self).spec_feed_count(user) < u128::MAX,
        ensures
            final(self).wf(),
            r == Err::<(), Error>(Error::NotInitialized) <==> old(self).owner is None,
            r == Err::<(), Error>(Error::Unauthorized) <==> old(self).owner is Some && !old(
                self,
            ).authorized(caller),
            r is Ok <==> old(self).initialized() && old(self).authorized(caller),
            r is Err ==> *final(self) == *old(self),
            r is Ok ==> final(self).feed_counts@ == old(self).feed_counts@.insert(
                user,
                (old(self).spec_feed_count(user) + 1) as u128,
            ),
            r is Ok ==> final(self).spec_earned(user, 5) == (old(self).spec_earned(user, 5) || old(
                self,
            ).spec_feed_count(user) + 1 >= 10),
            r is Ok && old(self).spec_feed_count(user) + 1 >= 10 && !old(self).spec_earned(
                user,
                5,
            ) ==> Self::award_delta(*old(self), *final(self), user, 5, pet_token_id),
            r is Ok && !(old(self).spec_feed_count(user) + 1 >= 10 && !old(self).spec_earned(
                user,
                5,
            )) ==> Self::no_award(*old(self), *final(self)),
            Self::same_admin(*old(self), *final(self)),
            final(self).play_counts@ == old(self).play_counts@,
            final(self).has_first_pet@ == old(self).has_first_pet@,
            final(self).has_evolved@ == old(self).has_evolved@,
            final(self).has_revived@ == old(self).has_revived@,
            final(self).reached_stage@ == old(self).reached_stage@,
            forall|u2: u64, l: u128|
                1 <= l <= 3 ==> (#[trigger] final(self).evolution_blocked(u2, l)) == old(
                    self,
                ).evolution_blocked(u2, l),
    {
        match self.require_notifier(caller) {
            Ok(()) => {},
            Err(e) => {
                return Err(e);
            },
        }
        let count: u128 = match self.feed_counts.get(&user) {
            Some(c) => *c,
            None => 0,
        };
        let new_count: u128 = count + 1;
        self.feed_counts.insert(user, new_count);
        proof {
            Self::lemma_wf_same_badges(*old(self), *self);
        }
        if new_count >= 10 {
            if !self.earned_flag(user, 5) {
                match self.award_achievement(caller, user, 5, pet_token_id) {
                    Ok(()) => {},
                    Err(e) => {
                        return Err(e);
                    },
                }
            }
        }
        Ok(())
    }

    /// Records one play action: the holder's lifetime play counter grows by
    /// exactly one, and the activity achievement (id 6) is granted on the
    /// call where the counter first reaches 10, and never again.
    pub fn record_play(&mut self, caller: u64, user: u64, pet_token_id: u128) -> (r: Result<
        (),
        Error,
    >)
        requires
            old(self).wf(),
            old(self).spec_play_count(user) < u128::MAX,
        ensures
            final(self).wf(),
            r == Err::<(), Error>(Error::NotInitialized) <==> old(self).owner is None,
            r == Err::<(), Error>(Error::Unauthorized) <==> old(self).owner is Some && !old(
                self,
            ).authorized(caller),
            r is Ok <==> old(self).initialized() && old(self).authorized(caller),
            r is Err ==> *final(self) == *old(self),
            r is Ok ==> final(self).play_counts@ == old(self).play_counts@.insert(
                user,
                (old(self).spec_play_count(user) + 1) as u128,
            ),
            r is Ok ==> final(self).spec_earned(user, 6) == (old(self).spec_earned(user, 6) || old(
                self,
            ).spec_play_count(user) + 1 >= 10),
            r is Ok && old(self).spec_play_count(user) + 1 >= 10 && !old(self).spec_earned(
                user,
                6,
            ) ==> Self::award_delta(*old(self), *final(self), user, 6, pet_token_id),
            r is Ok && !(old(self).spec_play_count(user) + 1 >= 10 && !old(self).spec_earned(
                user,
                6,
            )) ==> Self::no_award(*old(self), *final(self)),
            Self::same_admin(*old(self), *final(self)),
            final(self).feed_counts@ == old(self).feed_counts@,
            final(self).has_first_pet@ == old(self).has_first_pet@,
            final(self).has_evolved@ == old(self).has_evolved@,
            final(self).has_revived@ == old(self).has_revived@,
            final(self).reached_stage@ == old(self).reached_stage@,
            forall|u2: u64, l: u128|
                1 <= l <= 3 ==> (#[trigger] final(self).evolution_blocked(u2, l)) == old(
                    self,
                ).evolution_blocked(u2, l),
    {
        match self.require_notifier(caller) {
            Ok(()) => {},
            Err(e) => {
                return Err(e);
            },
        }
        let count: u128 = match self.play_counts.get(&user) {
            Some(c) => *c,
            None => 0,
        };
        let new_count: u128 = count + 1;
        self.play_counts.insert(user, new_count);
        proof {
            Self::lemma_wf_same_badges(*old(self), *self);
        }
        if new_count >= 10 {
            if !self.earned_flag(user, 6) {
                match self.award_achievement(caller, user, 6, pet_token_id) {
                    Ok(()) => {},
                    Err(e) => {
                        return Err(e);
                    },
                }
            }
        }
        Ok(())
    }

    /// Carrying an award delta back over milestone-counter changes: the
    /// delta only speaks of badge, balance, supply and catalog state.
    proof fn lemma_award_delta_same_badges(
        pre1: Self,
        pre2: Self,
        post: Self,
        user: u64,
        id: u128,
        pet: u128,
    )
        requires
            Self::award_delta(pre2, post, user, id, pet),
            pre1.earned@ == pre2.earned@,
            pre1.pet_badges@ == pre2.pet_badges@,
            pre1.balances@ == pre2.balances@,
            pre1.supply@ == pre2.supply@,
            pre1.catalog@ == pre2.catalog@,
        ensures
            Self::award_delta(pre1, post, user, id, pet),
    {
        assert forall|u2: u64, i2: u128| i2 < 8 implies (#[trigger] post.spec_earned(u2, i2)) == (
        pre1.spec_earned(u2, i2) || (u2 == user && i2 == id)) by {
            assert(post.spec_earned(u2, i2) == (pre2.spec_earned(u2, i2) || (u2 == user && i2
                == id)));
        }
        assert forall|p2: u128, i2: u128| i2 < 8 implies (#[trigger] post.spec_pet_badge(p2, i2))
            == (pre1.spec_pet_badge(p2, i2) || (p2 == pet && i2 == id)) by {
            assert(post.spec_pet_badge(p2, i2) == (pre2.spec_pet_badge(p2, i2) || (p2 == pet && i2
                == id)));
        }
        assert forall|u2: u64, i2: u128| i2 < 8 implies (#[trigger] post.spec_balance(u2, i2))
            == if u2 == user && i2 == id {
            (pre1.spec_balance(u2, i2) + 1) as u128
        } else {
            pre1.spec_balance(u2, i2)
        } by {
            assert(post.spec_balance(u2, i2) == if u2 == user && i2 == id {
                (pre2.spec_balance(u2, i2) + 1) as u128
            } else {
                pre2.spec_balance(u2, i2)
            });
            assert(pre1.spec_balance(u2, i2) == pre2.spec_balance(u2, i2));
        }
    }

    /// Records that a holder minted their first pet; grants achievement 0
    /// once.
    pub fn record_first_pet(&mut self, caller: u64, user: u64, pet_token_id: u128) -> (r: Result<
        (),
        Error,
    >)
        requires
            old(self).wf(),
        ensures
            final(self).wf(),
            r == Err::<(), Error>(Error::NotInitialized) <==> old(self).owner is None,
            r == Err::<(), Error>(Error::Unauthorized) <==> old(self).owner is Some && !old(
                self,
            ).authorized(caller),
            r == Err::<(), Error>(Error::AlreadyEarned) <==> old(self).initialized() && old(
                self,
            ).authorized(caller) && !old(self).spec_has_first_pet(user) && old(self).spec_earned(
                user,
                0,
            ),
            r is Ok <==> old(self).initialized() && old(self).authorized(caller) && (old(
                self,
            ).spec_has_first_pet(user) || !old(self).spec_earned(user, 0)),
            r is Err ==> *final(self) == *old(self),
            r is Ok && old(self).spec_has_first_pet(user) ==> *final(self) == *old(self),
            r is Ok && !old(self).spec_has_first_pet(user) ==> {
                &&& final(self).has_first_pet@ == old(self).has_first_pet@.insert(user, true)
                &&& Self::award_delta(*old(self), *final(self), user, 0, pet_token_id)
                &&& final(self).feed_counts@ == old(self).feed_counts@
                &&& final(self).play_counts@ == old(self).play_counts@
                &&& final(self).has_evolved@ == old(self).has_evolved@
                &&& final(self).has_revived@ == old(self).has_revived@
                &&& final(self).reached_stage@ == old(self).reached_stage@
            },
            Self::same_admin(*old(self), *final(self)),
    {
        match self.require_notifier(caller) {
            Ok(()) => {},
            Err(e) => {
                return Err(e);
            },
        }
        let flagged: bool = match self.has_first_pet.get(&user) {
            Some(v) => *v,
            None => false,
        };
        if !flagged {
            if self.earned_flag(user, 0) {
                return Err(Error::AlreadyEarned);
            }
            self.has_first_pet.insert(user, true);
            proof {
                Self::lemma_wf_same_badges(*old(self), *self);
            }
            let ghost mid = *self;
            match self.award_achievement(caller, user, 0, pet_token_id) {
                Ok(()) => {
                    proof {
                        Self::lemma_award_delta_same_badges(
                            *old(self),
                            mid,
                            *self,
                            user,
                            0,
                            pet_token_id,
                        );
                    }
                },
                Err(e) => {
                    return Err(e);
                },
            }
        }
        Ok(())
    }

    /// Records a holder's first successful revival; grants achievement 2
    /// once.
    pub fn record_revival(&mut self, caller: u64, user: u64, pet_token_id: u128) -> (r: Result<
        (),
        Error,
    >)
        requires
            old(self).wf(),
        ensures
            final(self).wf(),
            r == Err::<(), Error>(Error::NotInitialized) <==> old(self).owner is None,
            r == Err::<(), Error>(Error::Unauthorized) <==> old(self).owner is Some && !old(
                self,
            ).authorized(caller),
            r == Err::<(), Error>(Error::AlreadyEarned) <==> old(self).initialized() && old(
                self,
            ).authorized(caller) && !old(self).spec_has_revived(user) && old(self).spec_earned(
                user,
                2,
            ),
            r is Ok <==> old(self).initialized() && old(self).authorized(caller) && (old(
                self,
            ).spec_has_revived(user) || !old(self).spec_earned(user, 2)),
            r is Err ==> *final(self) == *old(self),
            r is Ok && old(self).spec_has_revived(user) ==> *final(self) == *old(self),
            r is Ok && !old(self).spec_has_revived(user) ==> {
                &&& final(self).has_revived@ == old(self).has_revived@.insert(user, true)
                &&& Self::award_delta(*old(self), *final(self), user, 2, pet_token_id)
                &&& final(self).feed_counts@ == old(self).feed_counts@
                &&& final(self).play_counts@ == old(self).play_counts@
                &&& final(self).has_first_pet@ == old(self).has_first_pet@
                &&& final(self).has_evolved@ == old(self).has_evolved@
                &&& final(self).reached_stage@ == old(self).reached_stage@
            },
            Self::same_admin(*old(self), *final(self)),
    {
        match self.require_notifier(caller) {
            Ok(()) => {},
            Err(e) => {
                return Err(e);
            },
        }
        let flagged: bool = match self.has_revived.get(&user) {
            Some(v) => *v,
            None => false,
        };
        if !flagged {
            if self.earned_flag(user, 2) {
                return Err(Error::AlreadyEarned);
            }
            self.has_revived.insert(user, true);
            proof {
                Self::lemma_wf_same_badges(*old(self), *self);
            }
            let ghost mid = *self;
            match self.award_achievement(caller, user, 2, pet_token_id) {
                Ok(()) => {
                    proof {
                        Self::lemma_award_delta_same_badges(
                            *old(self),
                            mid,
                            *self,
                            user,
                            2,
                            pet_token_id,
                        );
                    }
                },
                Err(e) => {
                    return Err(e);
                },
            }
        }
        Ok(())
    }

    /// Records that a pet of the holder showed perfect stats; grants
    /// achievement 4 once.
    pub fn record_perfect_stats(&mut self, caller: u64, user: u64, pet_token_id: u128) -> (r:
        Result<(), Error>)
        requires
            old(self).wf(),
        ensures
            final(self).wf(),
            r == Err::<(), Error>(Error::NotInitialized) <==> old(self).owner is None,
            r == Err::<(), Error>(Error::Unauthorized) <==> old(self).owner is Some && !old(
                self,
            ).authorized(caller),
            r is Ok <==> old(self).initialized() && old(self).authorized(caller),
            r is Err ==> *final(self) == *old(self),
            r is Ok && old(self).spec_earned(user, 4) ==> *final(self) == *old(self),
            r is Ok && !old(self).spec_earned(user, 4) ==> Self::award_delta(
                *old(self),
                *final(self),
                user,
                4,
                pet_token_id,
            ),
            Self::same_admin(*old(self), *final(self)),
            Self::same_milestones(*old(self), *final(self)),
            forall|u2: u64, l: u128|
                1 <= l <= 3 ==> (#[trigger] final(self).evolution_blocked(u2, l)) == old(
                    self,
                ).evolution_blocked(u2, l),
    {
        match self.require_notifier(caller) {
            Ok(()) => {},
            Err(e) => {
                return Err(e);
            },
        }
        if !self.earned_flag(user, 4) {
            match self.award_achievement(caller, user, 4, pet_token_id) {
                Ok(()) => {},
                Err(e) => {
                    return Err(e);
                },
            }
        }
        Ok(())
    }

    /// A stage report that would have to re-award an already-earned badge:
    /// the milestone flag is clear but the badge exists, so the inner award
    /// would refuse. Only direct out-of-band awards can produce this.
    pub open spec fn evolution_blocked(self, user: u64, stage: u128) -> bool {
        ||| (stage == 1 && !self.spec_has_evolved(user) && self.spec_earned(user, 1))
        ||| (stage == 2 && !self.spec_reached(user, 2) && self.spec_earned(user, 3))
        ||| (stage == 3 && !self.spec_reached(user, 3) && self.spec_earned(user, 7))
    }

    /// Whether a stage report would be refused, as one executable read.
    pub fn evolution_blocked_now(&self, user: u64, stage: u128) -> (b: bool)
        ensures
            b == self.evolution_blocked(user, stage),
    {
        if stage == 1 {
            let flagged: bool = match self.has_evolved.get(&user) {
                Some(v) => *v,
                None => false,
            };
            !flagged && self.earned_flag(user, 1)
        } else if stage == 2 {
            let key: u128 = make_badge_key(user, 2);
            let flagged: bool = match self.reached_stage.get(&key) {
                Some(v) => *v,
                None => false,
            };
            !flagged && self.earned_flag(user, 3)
        } else if stage == 3 {
            let key: u128 = make_badge_key(user, 3);
            let flagged: bool = match self.reached_stage.get(&key) {
                Some(v) => *v,
                None => false,
            };
            !flagged && self.earned_flag(user, 7)
        } else {
            false
        }
    }

    /// Records a pet's advancement to `stage` (1 Baby, 2 Teen, 3 Adult) on
    /// behalf of its holder. The first Baby grants achievement 1, the first
    /// Teen achievement 3, the first Adult achievement 7, each once per
    /// holder; other stage values are ignored.
    pub fn record_evolution(
        &mut self,
        caller: u64,
        user: u64,
        pet_token_id: u128,
        stage: u128,
    ) -> (r: Result<(), Error>)
        requires
            old(self).wf(),
        ensures
            final(self).wf(),
            r == Err::<(), Error>(Error::NotInitialized) <==> old(self).owner is None,
            r == Err::<(), Error>(Error::Unauthorized) <==> old(self).owner is Some && !old(
                self,
            ).authorized(caller),
            r == Err::<(), Error>(Error::AlreadyEarned) <==> old(self).initialized() && old(
                self,
            ).authorized(caller) && old(self).evolution_blocked(user, stage),
            r is Ok <==> old(self).initialized() && old(self).authorized(caller) && !old(
                self,
            ).evolution_blocked(user, stage),
            r is Err ==> *final(self) == *old(self),
            r is Ok && stage == 1 && !old(self).spec_has_evolved(user) ==> {
                &&& final(self).has_evolved@ == old(self).has_evolved@.insert(user, true)
                &&& Self::award_delta(*old(self), *final(self), user, 1, pet_token_id)
                &&& final(self).feed_counts@ == old(self).feed_counts@
                &&& final(self).play_counts@ == old(self).play_counts@
                &&& final(self).has_first_pet@ == old(self).has_first_pet@
                &&& final(self).has_revived@ == old(self).has_revived@
                &&& final(self).reached_stage@ == old(self).reached_stage@
            },
            r is Ok && stage == 2 && !old(self).spec_reached(user, 2) ==> {
                &&& final(self).reached_stage@ == old(self).reached_stage@.insert(
                    badge_key(user, 2),
                    true,
                )
                &&& Self::award_delta(*old(self), *final(self), user, 3, pet_token_id)
                &&& final(self).feed_counts@ == old(self).feed_counts@
                &&& final(self).play_counts@ == old(self).play_counts@
                &&& final(self).has_first_pet@ == old(self).has_first_pet@
                &&& final(self).has_evolved@ == old(self).has_evolved@
                &&& final(self).has_revived@ == old(self).has_revived@
            },
            r is Ok && stage == 3 && !old(self).spec_reached(user, 3) ==> {
                &&& final(self).reached_stage@ == old(self).reached_stage@.insert(
                    badge_key(user, 3),
                    true,
                )
                &&& Self::award_delta(*old(self), *final(self), user, 7, pet_token_id)
                &&& final(self).feed_counts@ == old(self).feed_counts@
                &&& final(self).play_counts@ == old(self).play_counts@
                &&& final(self).has_first_pet@ == old(self).has_first_pet@
                &&& final(self).has_evolved@ == old(self).has_evolved@
                &&& final(self).has_revived@ == old(self).has_revived@
            },
            ({
                let pre = *old(self);
                r is Ok && !(stage == 1 && !pre.spec_has_evolved(user)) && !(stage == 2
                    && !pre.spec_reached(user, 2)) && !(stage == 3 && !pre.spec_reached(user, 3))
                    ==> *final(self) == pre
            }),
            Self::same_admin(*old(self), *final(self)),
            forall|u2: u64, l: u128|
                1 <= l <= 3 && !(u2 == user && l == stage) ==> (#[trigger] final(self).evolution_blocked(u2, l))
                    == old(self).evolution_blocked(u2, l),
    {
        match self.require_notifier(caller) {
            Ok(()) => {},
            Err(e) => {
                return Err(e);
            },
        }
        if stage == 1 {
            let flagged: bool = match self.has_evolved.get(&user) {
                Some(v) => *v,
                None => false,
            };
            if !flagged {
                if self.earned_flag(user, 1) {
                    return Err(Error::AlreadyEarned);
                }
                self.has_evolved.insert(user, true);
                proof {
                    Self::lemma_wf_same_badges(*old(self), *self);
                }
                let ghost mid = *self;
                match self.award_achievement(caller, user, 1, pet_token_id) {
                    Ok(()) => {
                        proof {
                            Self::lemma_award_delta_same_badges(
                                *old(self),
                                mid,
                                *self,
                                user,
                                1,
                                pet_token_id,
                            );
                        }
                    },
                    Err(e) => {
                        return Err(e);
                    },
                }
            }
        } else if stage == 2 {
            let key: u128 = make_badge_key(user, 2);
            let flagged: bool = match self.reached_stage.get(&key) {
                Some(v) => *v,
                None => false,
            };
            if !flagged {
                if self.earned_flag(user, 3) {
                    return Err(Error::AlreadyEarned);
                }
                self.reached_stage.insert(key, true);
                proof {
                    Self::lemma_wf_same_badges(*old(self), *self);
                }
                let ghost mid = *self;
                match self.award_achievement(caller, user, 3, pet_token_id) {
                    Ok(()) => {
                        proof {
                            Self::lemma_award_delta_same_badges(
                                *old(self),
                                mid,
                                *self,
                                user,
                                3,
                                pet_token_id,
                            );
                        }
                    },
                    Err(e) => {
                        return Err(e);
                    },
                }
            }
        } else if stage == 3 {
            let key: u128 = make_badge_key(user, 3);
            let flagged: bool = match self.reached_stage.get(&key) {
                Some(v) => *v,
                None => false,
            };
            if !flagged {
                if self.earned_flag(user, 7) {
                    return Err(Error::AlreadyEarned);
                }
                self.reached_stage.insert(key, true);
                proof {
                    Self::lemma_wf_same_badges(*old(self), *self);
                }
                let ghost mid = *self;
                match self.award_achievement(caller, user, 7, pet_token_id) {
                    Ok(()) => {
                        proof {
                            Self::lemma_award_delta_same_badges(
                                *old(self),
                                mid,
                                *self,
                                user,
                                7,
                                pet_token_id,
                            );
                        }
                    },
                    Err(e) => {
                        return Err(e);
                    },
                }
            }
        }
        Ok(())
    }

    /// The administrative owner, if the ledger is initialized.
    pub fn owner(&self) -> (r: Result<u64, Error>)
        ensures
            match r {
                Ok(o) => self.owner == Some(o),
                Err(e) => self.owner is None && e == Error::NotInitialized,
            },
    {
        match self.owner {
            Some(o) => Ok(o),
            None => Err(Error::NotInitialized),
        }
    }

    /// Whether `user` has earned `achievement_id`; refuses ids outside the
    /// catalog.
    pub fn has_earned(&self, user: u64, achievement_id: u128) -> (r: Result<bool, Error>)
        ensures
            match r {
                Ok(b) => achievement_id < 8 && b == self.spec_earned(user, achievement_id),
                Err(e) => achievement_id >= 8 && e == Error::InvalidAchievementId,
            },
    {
        if achievement_id >= TOTAL_ACHIEVEMENTS {
            return Err(Error::InvalidAchievementId);
        }
        Ok(self.earned_flag(user, achievement_id))
    }

    /// The holder's balance for one achievement; 0 for unknown ids.
    pub fn balance_of(&self, owner: u64, achievement_id: u128) -> (b: u128)
        ensures
            b == self.spec_balance(owner, achievement_id),
    {
        if achievement_id >= TOTAL_ACHIEVEMENTS {
            return 0;
        }
        let key: u128 = make_badge_key(owner, achievement_id);
        match self.balances.get(&key) {
            Some(v) => *v,
            None => 0,
        }
    }

    /// The global supply of one achievement; 0 for unknown ids.
    pub fn total_supply(&self, achievement_id: u128) -> (n: u128)
        requires
            self.wf(),
        ensures
            n == self.spec_supply(achievement_id),
    {
        if achievement_id >= TOTAL_ACHIEVEMENTS {
            return 0;
        }
        self.supply[achievement_id as usize]
    }

    /// One catalog entry, by id.
    pub fn get_achievement_details(&self, achievement_id: u128) -> (r: Result<Achievement, Error>)
        requires
            self.wf(),
        ensures
            r == Err::<Achievement, Error>(Error::InvalidAchievementId) <==> achievement_id >= 8,
            r == Err::<Achievement, Error>(Error::NotInitialized) <==> achievement_id < 8
                && !self.initialized(),
            r is Ok <==> achievement_id < 8 && self.initialized(),
            r is Ok ==> r == Ok::<Achievement, Error>(self.catalog@[achievement_id as int]),
    {
        if achievement_id >= TOTAL_ACHIEVEMENTS {
            return Err(Error::InvalidAchievementId);
        }
        if self.owner.is_none() {
            return Err(Error::NotInitialized);
        }
        Ok(self.catalog[achievement_id as usize].snapshot())
    }

    /// The whole catalog, in id order.
    pub fn get_all_achievements(&self) -> (r: Result<Vec<Achievement>, Error>)
        requires
            self.wf(),
        ensures
            r is Err <==> !self.initialized(),
            r is Err ==> r == Err::<Vec<Achievement>, Error>(Error::NotInitialized),
            r is Ok ==> (r matches Ok(v) && v@ == self.catalog@),
    {
        if self.owner.is_none() {
            return Err(Error::NotInitialized);
        }
        let mut out: Vec<Achievement> = Vec::new();
        let mut j: usize = 0;
        while j < 8
            invariant
                self.wf(),
                self.initialized(),
                j <= 8,
                out@.len() == j,
                forall|k: int| 0 <= k < j ==> (#[trigger] out@[k]) == self.catalog@[k],
            decreases 8 - j,
        {
            out.push(self.catalog[j].snapshot());
            j = j + 1;
        }
        proof {
            assert(out@ =~= self.catalog@);
        }
        Ok(out)
    }

    /// The achievements `user` has earned, as a strictly increasing list of
    /// ids.
    pub fn get_user_achievements(&self, user: u64) -> (ids: Vec<u128>)
        ensures
            forall|k: int|
                0 <= k < ids@.len() ==> (#[trigger] ids@[k]) < 8 && self.spec_earned(
                    user,
                    ids@[k],
                ),
            forall|id: u128| id < 8 && self.spec_earned(user, id) ==> ids@.contains(id),
            forall|k1: int, k2: int| 0 <= k1 < k2 < ids@.len() ==> ids@[k1] < ids@[k2],
    {
        let mut ids: Vec<u128> = Vec::new();
        let mut j: u128 = 0;
        while j < 8
            invariant
                j <= 8,
                forall|k: int|
                    0 <= k < ids@.len() ==> (#[trigger] ids@[k]) < j && self.spec_earned(
                        user,
                        ids@[k],
                    ),
                forall|id: u128| id < j && self.spec_earned(user, id) ==> ids@.contains(id),
                forall|k1: int, k2: int| 0 <= k1 < k2 < ids@.len() ==> ids@[k1] < ids@[k2],
            decreases 8 - j,
        {
            if self.earned_flag(user, j) {
                let ghost pre = ids@;
                ids.push(j);
                proof {
                    assert forall|id: u128|
                        id < j + 1 && self.spec_earned(user, id) implies ids@.contains(id) by {
                        if id < j {
                            let k = choose|k: int| 0 <= k < pre.len() && pre[k] == id;
                            assert(ids@[k] == id);
                        } else {
                            assert(ids@[ids@.len() - 1] == id);
                        }
                    }
                }
            }
            j = j + 1;
        }
        ids
    }

    /// The badges carried by one pet, as a strictly increasing list of ids.
    pub fn get_pet_achievements(&self, pet_token_id: u128) -> (ids: Vec<u128>)
        ensures
            forall|k: int|
                0 <= k < ids@.len() ==> (#[trigger] ids@[k]) < 8 && self.spec_pet_badge(
                    pet_token_id,
                    ids@[k],
                ),
            forall|id: u128| id < 8 && self.spec_pet_badge(pet_token_id, id) ==> ids@.contains(id),
            forall|k1: int, k2: int| 0 <= k1 < k2 < ids@.len() ==> ids@[k1] < ids@[k2],
    {
        let mut ids: Vec<u128> = Vec::new();
        let mut j: u128 = 0;
        while j < 8
            invariant
                j <= 8,
                forall|k: int|
                    0 <= k < ids@.len() ==> (#[trigger] ids@[k]) < j && self.spec_pet_badge(
                        pet_token_id,
                        ids@[k],
                    ),
                forall|id: u128| id < j && self.spec_pet_badge(pet_token_id, id) ==> ids@.contains(
                    id,
                ),
                forall|k1: int, k2: int| 0 <= k1 < k2 < ids@.len() ==> ids@[k1] < ids@[k2],
            decreases 8 - j,
        {
            if self.pet_badge_flag(pet_token_id, j) {
                let ghost pre = ids@;
                ids.push(j);
                proof {
                    assert forall|id: u128|
                        id < j + 1 && self.spec_pet_badge(pet_token_id, id) implies ids@.contains(
                        id,
                    ) by {
                        if id < j {
                            let k = choose|k: int| 0 <= k < pre.len() && pre[k] == id;
                            assert(ids@[k] == id);
                        } else {
                            assert(ids@[ids@.len() - 1] == id);
                        }
                    }
                }
            }
            j = j + 1;
        }
        ids
    }

    /// How many of the first `n` achievement ids the holder has earned.
    pub open spec fn count_earned(self, user: u64, n: int) -> int
        decreases n,
    {
        if n <= 0 {
            0
        } else {
            self.count_earned(user, n - 1) + if self.spec_earned(user, (n - 1) as u128) {
                1int
            } else {
                0int
            }
        }
    }

    /// The number of achievements the holder has earned.
    pub fn get_user_achievement_count(&self, user: u64) -> (n: u128)
        ensures
            n == self.count_earned(user, 8),
    {
        let mut n: u128 = 0;
        let mut j: u128 = 0;
        while j < 8
            invariant
                j <= 8,
                n == self.count_earned(user, j as int),
                n <= j,
            decreases 8 - j,
        {
            if self.earned_flag(user, j) {
                n = n + 1;
            }
            j = j + 1;
        }
        n
    }
}

} // verus!
