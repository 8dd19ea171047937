//! The pet world: token ownership, the per-pet decay/evolution lifecycle,
//! and the four user actions (feed, play, revive, apply external event
//! effects), each of which catches the pet up to the current tick, applies
//! its own effect, reports milestones to the companion achievement ledger
//! and re-evaluates evolution.
//!
//! Every action is all-or-nothing: when it returns an error, neither the
//! world nor the companion ledger has changed. Time comes in as explicit
//! arguments (`current_tick`, `now`), supplied by the embedding platform's
//! monotonic tick source and wall clock.

use vstd::prelude::*;
use vstd::hash_map::HashMapWithView;
use vstd::set_lib::lemma_len_subset;
use vstd::set_lib::lemma_int_range;
use vstd::set_lib::set_int_range;
use vstd::string::StringExecFns;
use crate::errors::Error;
use crate::ledger::PetWorldAchievement;
use crate::pet::Config;
use crate::pet::EvolutionStage;
use crate::pet::Pet;
use crate::pet::advance;
use crate::pet::decayed;
use crate::pet::elapsed_ticks;
use crate::pet::evaluate;
use crate::pet::evolution_result;
use crate::pet::evolved;

verus! {

broadcast use vstd::std_specs::hash::group_hash_axioms;

/// The tokens (as integers) that `m` assigns to holder `a`.
pub open spec fn owned_by(m: Map<u128, u64>, a: u64) -> Set<int> {
    Set::new(
        |t: int|
            0 <= t < 0x1_0000_0000_0000_0000_0000_0000_0000_0000 && m.contains_key(t as u128)
                && m[t as u128] == a,
    )
}

/// A holder's token set is finite and no larger than the token id space
/// below `bound`.
proof fn lemma_owned_by_bound(m: Map<u128, u64>, a: u64, bound: int)
    requires
        0 <= bound <= 0x1_0000_0000_0000_0000_0000_0000_0000_0000,
        forall|t: u128| #[trigger] m.contains_key(t) ==> (t as int) < bound,
    ensures
        owned_by(m, a).finite(),
        owned_by(m, a).len() <= bound,
{
    lemma_int_range(0, bound);
    assert(owned_by(m, a).subset_of(set_int_range(0, bound)));
    lemma_len_subset(owned_by(m, a), set_int_range(0, bound));
}

/// Assigning a fresh token to `a` grows exactly `a`'s set, by exactly the
/// new token.
proof fn lemma_owned_by_insert_fresh(m: Map<u128, u64>, a: u64, t: u128)
    requires
        !m.contains_key(t),
    ensures
        owned_by(m.insert(t, a), a) == owned_by(m, a).insert(t as int),
        forall|b: u64| b != a ==> (#[trigger] owned_by(m.insert(t, a), b)) == owned_by(m, b),
        !owned_by(m, a).contains(t as int),
{
    assert(owned_by(m.insert(t, a), a) =~= owned_by(m, a).insert(t as int));
    assert forall|b: u64| b != a implies (#[trigger] owned_by(m.insert(t, a), b)) == owned_by(
        m,
        b,
    ) by {
        assert(owned_by(m.insert(t, a), b) =~= owned_by(m, b));
    }
}

/// Reassigning an owned token from `from` to `to` moves it between exactly
/// those two sets.
proof fn lemma_owned_by_move(m: Map<u128, u64>, t: u128, from: u64, to: u64)
    requires
        m.contains_key(t),
        m[t] == from,
        to != from,
    ensures
        owned_by(m.insert(t, to), from) == owned_by(m, from).remove(t as int),
        owned_by(m.insert(t, to), to) == owned_by(m, to).insert(t as int),
        forall|b: u64|
            b != from && b != to ==> (#[trigger] owned_by(m.insert(t, to), b)) == owned_by(m, b),
        owned_by(m, from).contains(t as int),
        !owned_by(m, to).contains(t as int),
{
    assert(owned_by(m.insert(t, to), from) =~= owned_by(m, from).remove(t as int));
    assert(owned_by(m.insert(t, to), to) =~= owned_by(m, to).insert(t as int));
    assert forall|b: u64| b != from && b != to implies (#[trigger] owned_by(m.insert(t, to), b))
        == owned_by(m, b) by {
        assert(owned_by(m.insert(t, to), b) =~= owned_by(m, b));
    }
}

/// The pet-world component.
pub struct PetWorld {
    /// Administrative principal; set once by `initialize`.
    pub owner: Option<u64>,
    /// This component's own principal, used as the caller identity towards
    /// the companion ledger.
    pub contract_address: u64,
    /// The registered companion ledger's principal; milestone reports are
    /// silently skipped while none is registered.
    pub achievement_contract: Option<u64>,
    /// Next token id to mint; ids start at 1 and only grow.
    pub next_token_id: u128,
    /// Decay rates, evolution gates and costs.
    pub config: Config,
    /// The minted pets, by token id. Never removed; dead pets persist.
    pub pets: HashMapWithView<u128, Pet>,
    /// Current holder of each token.
    pub token_owner: HashMapWithView<u128, u64>,
    /// Tokens held per holder.
    pub owner_balance: HashMapWithView<u64, u128>,
    /// Per-holder enumeration list; the first `balance` entries are read
    /// back. A transfer leaves the token in the sender's list (it only
    /// shortens the read window), exactly as the ledger platform left it.
    pub owner_tokens: HashMapWithView<u64, Vec<u128>>,
    /// Metadata pointer per token; absent means the default egg pointer.
    pub token_uri: HashMapWithView<u128, String>,
}

impl PetWorld {
    /// Is a pet minted under this token id?
    pub open spec fn has_pet(self, t: u128) -> bool {
        self.pets@.contains_key(t)
    }

    /// The pet under a token id.
    pub open spec fn spec_pet(self, t: u128) -> Pet
        recommends
            self.has_pet(t),
    {
        self.pets@[t]
    }

    /// The holder of a token.
    pub open spec fn spec_owner_of(self, t: u128) -> u64
        recommends
            self.has_pet(t),
    {
        self.token_owner@[t]
    }

    /// How many tokens a holder owns (absent means 0).
    pub open spec fn spec_balance_of(self, a: u64) -> u128 {
        if self.owner_balance@.contains_key(a) {
            self.owner_balance@[a]
        } else {
            0
        }
    }

    /// A holder's enumeration list (absent means empty).
    pub open spec fn spec_tokens_of(self, a: u64) -> Seq<u128> {
        if self.owner_tokens@.contains_key(a) {
            self.owner_tokens@[a]@
        } else {
            Seq::<u128>::empty()
        }
    }

    /// The metadata pointer of a token, with the default for eggs.
    pub open spec fn spec_uri_of(self, t: u128) -> Seq<char> {
        if self.token_uri@.contains_key(t) {
            self.token_uri@[t]@
        } else {
            "ipfs://QmEggMetadata"@
        }
    }

    /// Every pet is well-formed and sits below the mint counter, and every
    /// pet has a holder.
    pub open spec fn pets_ok(self) -> bool {
        &&& forall|t: u128|
            #[trigger] self.pets@.contains_key(t) ==> 1 <= t < self.next_token_id
                && self.pets@[t].wf()
        &&& forall|t: u128|
            #[trigger] self.pets@.contains_key(t) ==> self.token_owner@.contains_key(t)
        &&& forall|t: u128|
            #[trigger] self.token_owner@.contains_key(t) ==> self.pets@.contains_key(t)
    }

    /// Balances count exactly the owned tokens, and never overrun the
    /// enumeration list.
    pub open spec fn ownership_ok(self) -> bool {
        &&& forall|a: u64|
            (#[trigger] self.spec_balance_of(a)) as int == owned_by(self.token_owner@, a).len()
        &&& forall|a: u64|
            (#[trigger] self.spec_balance_of(a)) as int <= self.spec_tokens_of(a).len()
    }

    /// The component invariant.
    pub open spec fn wf(self) -> bool {
        &&& self.config.wf()
        &&& self.next_token_id >= 1
        &&& self.pets_ok()
        &&& self.ownership_ok()
    }

    /// A fresh world: no owner, no companion, no pets, mint counter at 1,
    /// stock configuration.
    pub fn new(contract_address: u64) -> (w: Self)
        ensures
            w.wf(),
            w.owner is None,
            w.achievement_contract is None,
            w.contract_address == contract_address,
            w.next_token_id == 1,
            w.config.is_standard(),
            w.pets@ == Map::<u128, Pet>::empty(),
            w.token_owner@ == Map::<u128, u64>::empty(),
            w.owner_balance@ == Map::<u64, u128>::empty(),
            w.owner_tokens@ == Map::<u64, Vec<u128>>::empty(),
            w.token_uri@ == Map::<u128, String>::empty(),
    {
        let w = PetWorld {
            owner: None,
            contract_address,
            achievement_contract: None,
            next_token_id: 1,
            config: Config::standard(),
            pets: HashMapWithView::new(),
            token_owner: HashMapWithView::new(),
            owner_balance: HashMapWithView::new(),
            owner_tokens: HashMapWithView::new(),
            token_uri: HashMapWithView::new(),
        };
        proof {
            assert forall|a: u64| (#[trigger] w.spec_balance_of(a)) as int == owned_by(
                w.token_owner@,
                a,
            ).len() by {
                assert(owned_by(w.token_owner@, a) =~= Set::<int>::empty());
            }
        }
        w
    }

    /// The invariant carries over to any state with the same ownership
    /// state and a pet map of the same shape.
    proof fn lemma_wf_same_ownership(a: Self, b: Self)
        requires
            a.wf(),
            b.config == a.config,
            b.next_token_id == a.next_token_id,
            b.token_owner@ == a.token_owner@,
            b.owner_balance@ == a.owner_balance@,
            b.owner_tokens@ == a.owner_tokens@,
            forall|t: u128|
                #[trigger] b.pets@.contains_key(t) ==> a.pets@.contains_key(t) && b.pets@[t].wf(),
            forall|t: u128| #[trigger] a.pets@.contains_key(t) ==> b.pets@.contains_key(t),
        ensures
            b.wf(),
    {
        assert forall|a2: u64| (#[trigger] b.spec_balance_of(a2)) as int == owned_by(
            b.token_owner@,
            a2,
        ).len() by {
            assert(a.spec_balance_of(a2) as int == owned_by(a.token_owner@, a2).len());
        }
        assert forall|a2: u64| (#[trigger] b.spec_balance_of(a2)) as int <= b.spec_tokens_of(
            a2,
        ).len() by {
            assert(a.spec_balance_of(a2) as int <= a.spec_tokens_of(a2).len());
        }
    }

    /// Claims ownership of a fresh world. The component is initialized
    /// before any entity exists.
    pub fn initialize(&mut self, owner: u64) -> (r: Result<(), Error>)
        requires
            old(self).wf(),
            old(self).pets@ == Map::<u128, Pet>::empty(),
        ensures
            final(self).wf(),
            r == Err::<(), Error>(Error::AlreadyInitialized) <==> old(self).owner is Some,
            r is Ok <==> old(self).owner is None,
            r is Err ==> *final(self) == *old(self),
            r is Ok ==> *final(self) == (PetWorld {
                owner: Some(owner),
                next_token_id: 1,
                config: final(self).config,
                ..*old(self)
            }),
            r is Ok ==> final(self).config.is_standard(),
    {
        if self.owner.is_some() {
            return Err(Error::AlreadyInitialized);
        }
        self.owner = Some(owner);
        self.next_token_id = 1;
        self.config = Config::standard();
        proof {
            assert forall|a: u64| (#[trigger] self.spec_balance_of(a)) as int == owned_by(
                self.token_owner@,
                a,
            ).len() by {
                assert(old(self).spec_balance_of(a) as int == owned_by(
                    old(self).token_owner@,
                    a,
                ).len());
            }
            assert forall|a: u64| (#[trigger] self.spec_balance_of(a)) as int
                <= self.spec_tokens_of(a).len() by {
                assert(old(self).spec_balance_of(a) as int <= old(self).spec_tokens_of(a).len());
            }
        }
        Ok(())
    }

    /// The administrative owner, if the world is initialized.
    pub fn owner(&self) -> (r: Result<u64, Error>)
        ensures
            match r {
                Ok(o) => self.owner == Some(o),
                Err(e) => self.owner is None && e == Error::NotInitialized,
            },
    {
        match self.owner {
            Some(o) => Ok(o),
            None => Err(Error::NotInitialized),
        }
    }

    /// Registers the companion achievement ledger. Only the owner may call.
    pub fn set_achievement_contract(&mut self, caller: u64, contract_address: u64) -> (r: Result<
        (),
        Error,
    >)
        requires
            old(self).wf(),
        ensures
            final(self).wf(),
            r == Err::<(), Error>(Error::NotInitialized) <==> old(self).owner is None,
            r == Err::<(), Error>(Error::Unauthorized) <==> old(self).owner is Some && old(
                self,
            ).owner != Some(caller),
            r is Ok <==> old(self).owner == Some(caller),
            r is Err ==> *final(self) == *old(self),
            r is Ok ==> *final(self) == (PetWorld {
                achievement_contract: Some(contract_address),
                ..*old(self)
            }),
    {
        let own: u64 = match self.owner {
            Some(o) => o,
            None => {
                return Err(Error::NotInitialized);
            },
        };
        if caller != own {
            return Err(Error::Unauthorized);
        }
        self.achievement_contract = Some(contract_address);
        proof {
            Self::lemma_wf_same_ownership(*old(self), *self);
        }
        Ok(())
    }

    /// The owner's withdrawal entry point. Money movement itself belongs to
    /// the embedding platform; the component only decides who may ask.
    pub fn withdraw(&self, caller: u64) -> (r: Result<(), Error>)
        ensures
            r == Err::<(), Error>(Error::NotInitialized) <==> self.owner is None,
            r == Err::<(), Error>(Error::Unauthorized) <==> self.owner is Some && self.owner
                != Some(caller),
            r is Ok <==> self.owner == Some(caller),
    {
        let own: u64 = match self.owner {
            Some(o) => o,
            None => {
                return Err(Error::NotInitialized);
            },
        };
        if caller != own {
            return Err(Error::Unauthorized);
        }
        Ok(())
    }

    /// The holder of a token.
    pub fn owner_of(&self, token_id: u128) -> (r: Result<u64, Error>)
        requires
            self.wf(),
        ensures
            r is Ok <==> self.has_pet(token_id),
            r is Ok ==> r == Ok::<u64, Error>(self.spec_owner_of(token_id)),
            r is Err ==> r == Err::<u64, Error>(Error::EntityNotFound),
    {
        match self.token_owner.get(&token_id) {
            Some(o) => Ok(*o),
            None => Err(Error::EntityNotFound),
        }
    }

    /// How many tokens a holder owns.
    pub fn balance_of(&self, owner: u64) -> (b: u128)
        ensures
            b == self.spec_balance_of(owner),
    {
        match self.owner_balance.get(&owner) {
            Some(v) => *v,
            None => 0,
        }
    }

    /// The pet a mint creates: a newborn egg with full stats at the mint
    /// tick.
    pub open spec fn newborn(name: String, tick: u32) -> Pet {
        Pet {
            name,
            birth_tick: tick,
            last_updated_tick: tick,
            evolution_stage: EvolutionStage::Egg,
            happiness: 100,
            hunger: 0,
            health: 100,
            is_dead: false,
            death_timestamp: 0,
        }
    }

    /// Mints a new pet named `name` for `caller` and reports the first-mint
    /// milestone to the companion (when one is registered). Fails with
    /// `InvalidNameLength` unless the name has 1 to 20 characters; a
    /// companion failure rolls the whole mint back.
    pub fn mint(
        &mut self,
        caller: u64,
        name: String,
        current_tick: u32,
        ach: &mut PetWorldAchievement,
    ) -> (r: Result<u128, Error>)
        requires
            old(self).wf(),
            old(ach).wf(),
            old(self).next_token_id < u128::MAX,
        ensures
            final(self).wf(),
            final(ach).wf(),
            PetWorldAchievement::same_admin(*old(ach), *final(ach)),
            ({
                let name_ok = 1 <= name@.len() <= 20;
                let configured = old(self).achievement_contract is Some;
                let me = old(self).contract_address;
                let blocked = !old(ach).spec_has_first_pet(caller) && old(ach).spec_earned(
                    caller,
                    0,
                );
                &&& (r == Err::<u128, Error>(Error::InvalidNameLength) <==> !name_ok)
                &&& (r == Err::<u128, Error>(Error::NotInitialized) <==> name_ok && configured
                    && old(ach).owner is None)
                &&& (r == Err::<u128, Error>(Error::Unauthorized) <==> name_ok && configured
                    && old(ach).owner is Some && !old(ach).authorized(me))
                &&& (r == Err::<u128, Error>(Error::AlreadyEarned) <==> name_ok && configured
                    && old(ach).initialized() && old(ach).authorized(me) && blocked)
                &&& (r is Ok <==> name_ok && (configured ==> old(ach).initialized() && old(
                    ach,
                ).authorized(me) && !blocked))
                &&& (r is Err ==> *final(self) == *old(self) && *final(ach) == *old(ach))
                &&& (r is Ok ==> {
                    let tid = old(self).next_token_id;
                    &&& r == Ok::<u128, Error>(tid)
                    &&& final(self).next_token_id == tid + 1
                    &&& final(self).pets@ == old(self).pets@.insert(
                        tid,
                        Self::newborn(name, current_tick),
                    )
                    &&& final(self).token_owner@ == old(self).token_owner@.insert(tid, caller)
                    &&& final(self).spec_balance_of(caller) == old(self).spec_balance_of(caller)
                        + 1
                    &&& forall|b: u64|
                        b != caller ==> (#[trigger] final(self).spec_balance_of(b)) == old(
                            self,
                        ).spec_balance_of(b)
                    &&& final(self).spec_tokens_of(caller) == (if old(self).spec_balance_of(caller)
                        < old(self).spec_tokens_of(caller).len() {
                        old(self).spec_tokens_of(caller).update(
                            old(self).spec_balance_of(caller) as int,
                            tid,
                        )
                    } else {
                        old(self).spec_tokens_of(caller).push(tid)
                    })
                    &&& forall|b: u64|
                        b != caller ==> (#[trigger] final(self).spec_tokens_of(b)) == old(
                            self,
                        ).spec_tokens_of(b)
                    &&& final(self).spec_uri_of(tid) == "ipfs://QmEggMetadata"@
                    &&& final(self).token_uri@.remove(tid) == old(self).token_uri@.remove(tid)
                    &&& *final(self) == (PetWorld {
                        next_token_id: final(self).next_token_id,
                        pets: final(self).pets,
                        token_owner: final(self).token_owner,
                        owner_balance: final(self).owner_balance,
                        owner_tokens: final(self).owner_tokens,
                        token_uri: final(self).token_uri,
                        ..*old(self)
                    })
                    &&& (!configured ==> *final(ach) == *old(ach))
                    &&& (configured && old(ach).spec_has_first_pet(caller) ==> *final(ach) == *old(
                        ach,
                    ))
                    &&& (configured && !old(ach).spec_has_first_pet(caller) ==> {
                        &&& final(ach).has_first_pet@ == old(ach).has_first_pet@.insert(
                            caller,
                            true,
                        )
                        &&& PetWorldAchievement::award_delta(*old(ach), *final(ach), caller, 0, tid)
                        &&& final(ach).feed_counts@ == old(ach).feed_counts@
                        &&& final(ach).play_counts@ == old(ach).play_counts@
                        &&& final(ach).has_evolved@ == old(ach).has_evolved@
                        &&& final(ach).has_revived@ == old(ach).has_revived@
                        &&& final(ach).reached_stage@ == old(ach).reached_stage@
                    })
                })
            }),
    {
        let name_len: usize = name.as_str().unicode_len();
        if name_len == 0 || name_len > 20 {
            return Err(Error::InvalidNameLength);
        }
        let token_id: u128 = self.next_token_id;

        // Report the milestone first: a refused report must leave the whole
        // mint unapplied, and the world mutation below cannot fail.
        if self.achievement_contract.is_some() {
            match ach.record_first_pet(self.contract_address, caller, token_id) {
                Ok(()) => {},
                Err(e) => {
                    return Err(e);
                },
            }
        }

        self.next_token_id = token_id + 1;
        let pet = Pet {
            name,
            birth_tick: current_tick,
            last_updated_tick: current_tick,
            evolution_stage: EvolutionStage::Egg,
            happiness: 100,
            hunger: 0,
            health: 100,
            is_dead: false,
            death_timestamp: 0,
        };
        self.pets.insert(token_id, pet);
        self.token_owner.insert(token_id, caller);

        let balance: u128 = match self.owner_balance.get(&caller) {
            Some(v) => *v,
            None => 0,
        };
        proof {
            assert(!old(self).token_owner@.contains_key(token_id));
            lemma_owned_by_insert_fresh(old(self).token_owner@, caller, token_id);
            lemma_owned_by_bound(
                old(self).token_owner@,
                caller,
                old(self).next_token_id as int,
            );
        }
        self.owner_balance.insert(caller, balance + 1);

        let mut list: Vec<u128> = match self.owner_tokens.get(&caller) {
            Some(v) => copy_token_list(v),
            None => Vec::new(),
        };
        let slot: usize = balance as usize;
        if slot < list.len() {
            list[slot] = token_id;
        } else {
            list.push(token_id);
        }
        self.owner_tokens.insert(caller, list);
        self.token_uri.insert(token_id, String::from_str("ipfs://QmEggMetadata"));

        proof {
            self.lemma_wf_after_mint(*old(self), caller, token_id);
            assert(final(self).token_uri@.remove(token_id) =~= old(self).token_uri@.remove(
                token_id,
            ));
        }
        Ok(token_id)
    }

    /// The invariant after a mint's world mutation.
    proof fn lemma_wf_after_mint(self, pre: Self, caller: u64, tid: u128)
        requires
            pre.wf(),
            pre.next_token_id < u128::MAX,
            tid == pre.next_token_id,
            self.config == pre.config,
            self.next_token_id == tid + 1,
            self.pets@.dom() == pre.pets@.dom().insert(tid),
            forall|t: u128|
                #[trigger] self.pets@.contains_key(t) && t != tid ==> self.pets@[t]
                    == pre.pets@[t],
            self.pets@.contains_key(tid) && self.pets@[tid].wf(),
            self.token_owner@ == pre.token_owner@.insert(tid, caller),
            self.owner_balance@ == pre.owner_balance@.insert(
                caller,
                (pre.spec_balance_of(caller) + 1) as u128,
            ),
            self.owner_tokens@.contains_key(caller),
            self.owner_tokens@ == pre.owner_tokens@.insert(caller, self.owner_tokens@[caller]),
            self.owner_tokens@[caller]@.len() >= pre.spec_balance_of(caller) + 1,
        ensures
            self.wf(),
    {
        lemma_owned_by_insert_fresh(pre.token_owner@, caller, tid);
        lemma_owned_by_bound(pre.token_owner@, caller, pre.next_token_id as int);
        assert forall|a2: u64| (#[trigger] self.spec_balance_of(a2)) as int == owned_by(
            self.token_owner@,
            a2,
        ).len() by {
            assert(pre.spec_balance_of(a2) as int == owned_by(pre.token_owner@, a2).len());
        }
        assert forall|a2: u64| (#[trigger] self.spec_balance_of(a2)) as int <= self.spec_tokens_of(
            a2,
        ).len() by {
            assert(pre.spec_balance_of(a2) as int <= pre.spec_tokens_of(a2).len());
        }
    }
}

/// A holder's age-gated stage flag in the ledger, per stage.
pub open spec fn stage_flag(ach: PetWorldAchievement, user: u64, s: EvolutionStage) -> bool {
    match s {
        EvolutionStage::Egg => true,
        EvolutionStage::Baby => ach.spec_has_evolved(user),
        EvolutionStage::Teen => ach.spec_reached(user, 2),
        EvolutionStage::Adult => ach.spec_reached(user, 3),
    }
}

/// The achievement granted for first reaching a stage.
pub open spec fn stage_badge(s: EvolutionStage) -> u128 {
    match s {
        EvolutionStage::Egg => 0,
        EvolutionStage::Baby => 1,
        EvolutionStage::Teen => 3,
        EvolutionStage::Adult => 7,
    }
}

/// Age of a pet at a tick; a clock behind the birth tick reads as age 0.
pub open spec fn age_of(p: Pet, tick: u32) -> u32 {
    if tick >= p.birth_tick {
        (tick - p.birth_tick) as u32
    } else {
        0
    }
}

/// Whether a decay pass at this tick does anything: the pet is alive and
/// time has passed.
pub open spec fn is_active(p: Pet, tick: u32) -> bool {
    !p.is_dead && elapsed_ticks(p, tick) != 0
}

/// The pet after a catch-up pass: decay, then one evolution evaluation.
/// A dead or already-current pet is left untouched.
pub open spec fn caught_up(p: Pet, tick: u32, now: u64, cfg: Config) -> Pet {
    let d = decayed(p, tick, now, cfg);
    if is_active(p, tick) {
        evolved(d, age_of(p, tick), cfg)
    } else {
        d
    }
}

/// The stage a catch-up pass advances to, if any.
pub open spec fn catch_up_stage(p: Pet, tick: u32, now: u64, cfg: Config) -> Option<
    EvolutionStage,
> {
    if is_active(p, tick) {
        evolution_result(decayed(p, tick, now, cfg), age_of(p, tick), cfg)
    } else {
        None
    }
}

/// The metadata pointer published for each stage.
pub open spec fn stage_uri(s: EvolutionStage) -> Seq<char> {
    match s {
        EvolutionStage::Egg => "ipfs://QmEggMetadata"@,
        EvolutionStage::Baby => "ipfs://QmBabyMetadata"@,
        EvolutionStage::Teen => "ipfs://QmTeenMetadata"@,
        EvolutionStage::Adult => "ipfs://QmAdultMetadata"@,
    }
}

/// Builds the metadata pointer for a stage.
fn uri_for_stage(s: EvolutionStage) -> (u: String)
    ensures
        u@ == stage_uri(s),
{
    match s {
        EvolutionStage::Egg => String::from_str("ipfs://QmEggMetadata"),
        EvolutionStage::Baby => String::from_str("ipfs://QmBabyMetadata"),
        EvolutionStage::Teen => String::from_str("ipfs://QmTeenMetadata"),
        EvolutionStage::Adult => String::from_str("ipfs://QmAdultMetadata"),
    }
}

/// A stage report the ledger would refuse: the holder's flag is clear but
/// the badge already exists.
pub open spec fn stage_blocked(ach: PetWorldAchievement, user: u64, s: Option<EvolutionStage>,
) -> bool {
    match s {
        Some(st) => ach.evolution_blocked(user, stage_badge_level(st)),
        None => false,
    }
}

/// The stage number reported to the ledger.
pub open spec fn stage_badge_level(s: EvolutionStage) -> u128 {
    s.index() as u128
}

/// A revival report the ledger would refuse: the holder's revival flag is
/// clear but the badge already exists.
pub open spec fn revival_blocked(ach: PetWorldAchievement, user: u64) -> bool {
    !ach.spec_has_revived(user) && ach.spec_earned(user, 2)
}

/// Everything one action's milestone reports do to the ledger, stated over
/// its accessors: the action counter grows by one and its streak badge
/// lands exactly on the first crossing of 10; the perfect-stats badge is
/// earned exactly when the stats were perfect; each advanced stage earns
/// its badge on the holder's first advancement to it; earned badges are
/// never lost; nothing else moves.
pub open spec fn milestones_reported(
    pre: PetWorldAchievement,
    post: PetWorldAchievement,
    user: u64,
    s1: Option<EvolutionStage>,
    s2: Option<EvolutionStage>,
    count_feed: bool,
    count_play: bool,
    is_perfect: bool,
    is_revival: bool,
) -> bool {
    &&& PetWorldAchievement::same_admin(pre, post)
    &&& post.has_first_pet@ == pre.has_first_pet@
    &&& (!is_revival ==> post.has_revived@ == pre.has_revived@)
    &&& (is_revival ==> post.spec_earned(user, 2) == (pre.spec_earned(user, 2)
        || !pre.spec_has_revived(user)) && post.spec_has_revived(user))
    &&& (count_feed ==> post.spec_feed_count(user) == pre.spec_feed_count(user) + 1
        && post.spec_earned(user, 5) == (pre.spec_earned(user, 5) || pre.spec_feed_count(user) + 1
            >= 10))
    &&& (!count_feed ==> post.feed_counts@ == pre.feed_counts@)
    &&& (count_play ==> post.spec_play_count(user) == pre.spec_play_count(user) + 1
        && post.spec_earned(user, 6) == (pre.spec_earned(user, 6) || pre.spec_play_count(user) + 1
            >= 10))
    &&& (!count_play ==> post.play_counts@ == pre.play_counts@)
    &&& (is_perfect ==> post.spec_earned(user, 4))
    &&& (!is_perfect ==> post.spec_earned(user, 4) == pre.spec_earned(user, 4))
    &&& (match s1 {
        Some(st) => post.spec_earned(user, stage_badge(st)) == (pre.spec_earned(
            user,
            stage_badge(st),
        ) || !stage_flag(pre, user, st)) && stage_flag(post, user, st),
        None => true,
    })
    &&& (match s2 {
        Some(st) => post.spec_earned(user, stage_badge(st)) == (pre.spec_earned(
            user,
            stage_badge(st),
        ) || !stage_flag(pre, user, st)) && stage_flag(post, user, st),
        None => true,
    })
    &&& forall|u2: u64, i2: u128|
        i2 < 8 && pre.spec_earned(u2, i2) ==> #[trigger] post.spec_earned(u2, i2)
    &&& forall|u2: u64, i2: u128|
        i2 < 8 && u2 != user ==> (#[trigger] post.spec_earned(u2, i2)) == pre.spec_earned(u2, i2)
    &&& forall|i2: u128|
        i2 < 8 && i2 != 4 && i2 != 5 && i2 != 6 && (is_revival ==> i2 != 2) && (match s1 {
            Some(st) => i2 != stage_badge(st),
            None => true,
        }) && (match s2 {
            Some(st) => i2 != stage_badge(st),
            None => true,
        }) ==> (#[trigger] post.spec_earned(user, i2)) == pre.spec_earned(user, i2)
}

impl PetWorld {
    /// Reports one action's milestones to the companion ledger, in order:
    /// the catch-up evolution, the action counter, the perfect-stats check,
    /// the revival, the post-action evolution. Skipped entirely
    /// while no companion is registered; on any refusal the ledger is left
    /// untouched.
    #[verifier::rlimit(60)]
    fn report_milestones(
        &self,
        ach: &mut PetWorldAchievement,
        user: u64,
        token_id: u128,
        stage1: Option<EvolutionStage>,
        stage2: Option<EvolutionStage>,
        count_feed: bool,
        count_play: bool,
        is_perfect: bool,
        is_revival: bool,
    ) -> (r: Result<(), Error>)
        requires
            old(ach).wf(),
            count_feed ==> old(ach).spec_feed_count(user) < u128::MAX,
            count_play ==> old(ach).spec_play_count(user) < u128::MAX,
            !(count_feed && count_play),
            stage1 is Some && stage2 is Some ==> stage1 != stage2,
            stage1 is Some ==> stage1->0 != EvolutionStage::Egg,
            stage2 is Some ==> stage2->0 != EvolutionStage::Egg,
        ensures
            final(ach).wf(),
            ({
                let configured = self.achievement_contract is Some;
                &&& (r == Err::<(), Error>(Error::NotInitialized) <==> configured && old(
                    ach,
                ).owner is None)
                &&& (r == Err::<(), Error>(Error::Unauthorized) <==> configured && old(
                    ach,
                ).owner is Some && !old(ach).authorized(self.contract_address))
                &&& (r == Err::<(), Error>(Error::AlreadyEarned) <==> configured && old(
                    ach,
                ).initialized() && old(ach).authorized(self.contract_address) && (stage_blocked(
                    *old(ach),
                    user,
                    stage1,
                ) || stage_blocked(*old(ach), user, stage2) || (is_revival && revival_blocked(
                    *old(ach),
                    user,
                ))))
                &&& (r is Ok <==> (configured ==> old(ach).initialized() && old(ach).authorized(
                    self.contract_address,
                ) && !stage_blocked(*old(ach), user, stage1) && !stage_blocked(
                    *old(ach),
                    user,
                    stage2,
                ) && !(is_revival && revival_blocked(*old(ach), user))))
                &&& (r is Err ==> *final(ach) == *old(ach))
                &&& (!configured ==> *final(ach) == *old(ach))
                &&& (r is Ok && configured ==> milestones_reported(
                    *old(ach),
                    *final(ach),
                    user,
                    stage1,
                    stage2,
                    count_feed,
                    count_play,
                    is_perfect,
                    is_revival,
                ))
            }),
    {
        if self.achievement_contract.is_none() {
            return Ok(());
        }
        let me: u64 = self.contract_address;
        match ach.require_notifier(me) {
            Ok(()) => {},
            Err(e) => {
                return Err(e);
            },
        }
        if let Some(s1) = stage1 {
            if ach.evolution_blocked_now(user, s1.level()) {
                return Err(Error::AlreadyEarned);
            }
        }
        if let Some(s2) = stage2 {
            if ach.evolution_blocked_now(user, s2.level()) {
                return Err(Error::AlreadyEarned);
            }
        }
        if is_revival {
            let flagged: bool = match ach.has_revived.get(&user) {
                Some(v) => *v,
                None => false,
            };
            if !flagged && ach.earned_flag(user, 2) {
                return Err(Error::AlreadyEarned);
            }
        }
        let ghost a0 = *ach;
        if let Some(s1) = stage1 {
            match ach.record_evolution(me, user, token_id, s1.level()) {
                Ok(()) => {},
                Err(e) => {
                    return Err(e);
                },
            }
        }
        let ghost a1 = *ach;
        if count_feed {
            match ach.record_feed(me, user, token_id) {
                Ok(()) => {},
                Err(e) => {
                    return Err(e);
                },
            }
        }
        if count_play {
            match ach.record_play(me, user, token_id) {
                Ok(()) => {},
                Err(e) => {
                    return Err(e);
                },
            }
        }
        let ghost a2 = *ach;
        if is_perfect {
            match ach.record_perfect_stats(me, user, token_id) {
                Ok(()) => {},
                Err(e) => {
                    return Err(e);
                },
            }
        }
        let ghost a3 = *ach;
        if is_revival {
            proof {
                assert(a1.spec_earned(user, 2) == a0.spec_earned(user, 2));
                assert(a2.spec_earned(user, 2) == a1.spec_earned(user, 2));
                assert(a3.spec_earned(user, 2) == a2.spec_earned(user, 2));
                assert(a1.has_revived@ == a0.has_revived@);
                assert(a2.has_revived@ == a1.has_revived@);
                assert(a3.has_revived@ == a2.has_revived@);
            }
            match ach.record_revival(me, user, token_id) {
                Ok(()) => {},
                Err(e) => {
                    return Err(e);
                },
            }
        }
        let ghost a3b = *ach;
        if let Some(s2) = stage2 {
            proof {
                let l2 = stage_badge_level(s2);
                assert(a1.evolution_blocked(user, l2) == a0.evolution_blocked(user, l2));
                assert(a2.evolution_blocked(user, l2) == a1.evolution_blocked(user, l2));
                assert(a3.evolution_blocked(user, l2) == a2.evolution_blocked(user, l2));
                assert(a3b.evolution_blocked(user, l2) == a3.evolution_blocked(user, l2));
                assert(!a3b.evolution_blocked(user, l2));
            }
            match ach.record_evolution(me, user, token_id, s2.level()) {
                Ok(()) => {},
                Err(e) => {
                    return Err(e);
                },
            }
        }
        proof {
            let a4 = *ach;
            assert forall|u2: u64, i2: u128|
                i2 < 8 && a0.spec_earned(u2, i2) implies #[trigger] a4.spec_earned(u2, i2) by {
                assert(a1.spec_earned(u2, i2) || !a0.spec_earned(u2, i2));
                assert(a2.spec_earned(u2, i2) || !a1.spec_earned(u2, i2));
                assert(a3.spec_earned(u2, i2) || !a2.spec_earned(u2, i2));
                assert(a3b.spec_earned(u2, i2) || !a3.spec_earned(u2, i2));
                assert(a4.spec_earned(u2, i2) || !a3b.spec_earned(u2, i2));
            }
            assert forall|u2: u64, i2: u128| i2 < 8 && u2 != user implies (
            #[trigger] a4.spec_earned(u2, i2)) == a0.spec_earned(u2, i2) by {
                assert(a1.spec_earned(u2, i2) == a0.spec_earned(u2, i2));
                assert(a2.spec_earned(u2, i2) == a1.spec_earned(u2, i2));
                assert(a3.spec_earned(u2, i2) == a2.spec_earned(u2, i2));
                assert(a3b.spec_earned(u2, i2) == a3.spec_earned(u2, i2));
                assert(a4.spec_earned(u2, i2) == a3b.spec_earned(u2, i2));
            }
            assert forall|i2: u128|
                i2 < 8 && i2 != 4 && i2 != 5 && i2 != 6 && (is_revival ==> i2 != 2) && (match
                stage1 {
                    Some(st) => i2 != stage_badge(st),
                    None => true,
                }) && (match stage2 {
                    Some(st) => i2 != stage_badge(st),
                    None => true,
                }) implies (#[trigger] a4.spec_earned(user, i2)) == a0.spec_earned(user, i2) by {
                assert(a1.spec_earned(user, i2) == a0.spec_earned(user, i2));
                assert(a2.spec_earned(user, i2) == a1.spec_earned(user, i2));
                assert(a3.spec_earned(user, i2) == a2.spec_earned(user, i2));
                assert(a3b.spec_earned(user, i2) == a3.spec_earned(user, i2));
                assert(a4.spec_earned(user, i2) == a3b.spec_earned(user, i2));
            }

            // The perfect-stats badge moves only in the perfect-stats step.
            assert(a1.spec_earned(user, 4) == a0.spec_earned(user, 4));
            assert(a2.spec_earned(user, 4) == a1.spec_earned(user, 4));
            assert(a3b.spec_earned(user, 4) == a3.spec_earned(user, 4));
            assert(a4.spec_earned(user, 4) == a3b.spec_earned(user, 4));

            // The streak badges and counters move only in their own step.
            assert(a1.spec_earned(user, 5) == a0.spec_earned(user, 5));
            assert(a1.spec_earned(user, 6) == a0.spec_earned(user, 6));
            assert(a1.feed_counts@ == a0.feed_counts@);
            assert(a1.play_counts@ == a0.play_counts@);
            assert(a3.spec_earned(user, 5) == a2.spec_earned(user, 5));
            assert(a3.spec_earned(user, 6) == a2.spec_earned(user, 6));
            assert(a3b.spec_earned(user, 5) == a3.spec_earned(user, 5));
            assert(a3b.spec_earned(user, 6) == a3.spec_earned(user, 6));
            assert(a4.spec_earned(user, 5) == a3b.spec_earned(user, 5));
            assert(a4.spec_earned(user, 6) == a3b.spec_earned(user, 6));
            assert(a3.feed_counts@ == a2.feed_counts@ && a3.play_counts@ == a2.play_counts@);
            assert(a3b.feed_counts@ == a3.feed_counts@ && a3b.play_counts@ == a3.play_counts@);
            assert(a4.feed_counts@ == a3b.feed_counts@ && a4.play_counts@ == a3b.play_counts@);

            // The revival badge and flag move only in the revival step.
            if is_revival {
                assert(a3b.spec_earned(user, 2) == (a3.spec_earned(user, 2) || !a3.spec_has_revived(
                    user,
                )) && a3b.spec_has_revived(user));
                assert(a4.spec_earned(user, 2) == a3b.spec_earned(user, 2));
                assert(a4.spec_has_revived(user) == a3b.spec_has_revived(user));
            } else {
                assert(a3b.has_revived@ == a3.has_revived@);
                assert(a4.has_revived@ == a3b.has_revived@);
                assert(a1.has_revived@ == a0.has_revived@);
                assert(a2.has_revived@ == a1.has_revived@);
                assert(a3.has_revived@ == a2.has_revived@);
            }

            // Stage badges and flags survive the unrelated steps.
            if stage1 is Some {
                let st = stage1->0;
                let b1 = stage_badge(st);
                assert(a1.spec_earned(user, b1) == (a0.spec_earned(user, b1) || !stage_flag(
                    a0,
                    user,
                    st,
                )) && stage_flag(a1, user, st));
                assert(a2.spec_earned(user, b1) == a1.spec_earned(user, b1));
                assert(a3.spec_earned(user, b1) == a2.spec_earned(user, b1));
                assert(a3b.spec_earned(user, b1) == a3.spec_earned(user, b1));
                assert(a4.spec_earned(user, b1) == a3b.spec_earned(user, b1));
                assert(a2.has_evolved@ == a1.has_evolved@ && a2.reached_stage@
                    == a1.reached_stage@);
                assert(a3.has_evolved@ == a2.has_evolved@ && a3.reached_stage@
                    == a2.reached_stage@);
                assert(a3b.has_evolved@ == a3.has_evolved@ && a3b.reached_stage@
                    == a3.reached_stage@);
                assert(stage_flag(a3b, user, st));
                assert(stage_flag(a4, user, st));
            }
            if stage2 is Some {
                let st = stage2->0;
                let b2 = stage_badge(st);
                assert(a1.spec_earned(user, b2) == a0.spec_earned(user, b2));
                assert(a2.spec_earned(user, b2) == a1.spec_earned(user, b2));
                assert(a3.spec_earned(user, b2) == a2.spec_earned(user, b2));
                assert(a3b.spec_earned(user, b2) == a3.spec_earned(user, b2));
                assert(a1.has_evolved@ == a0.has_evolved@ || stage1 == Some(
                    EvolutionStage::Baby,
                ));
                assert(a3b.has_evolved@ == a3.has_evolved@ && a3b.reached_stage@
                    == a3.reached_stage@);
                assert(stage_flag(a3b, user, st) == stage_flag(a0, user, st));
                assert(a4.spec_earned(user, b2) == (a3b.spec_earned(user, b2) || !stage_flag(
                    a3b,
                    user,
                    st,
                )) && stage_flag(a4, user, st));
            }
        }
        Ok(())
    }
}

/// The evolution stage is monotonic across a whole catch-up pass: decay
/// never touches it and the one evaluation advances it by at most one
/// level.
pub proof fn lemma_catch_up_stage_monotonic(p: Pet, tick: u32, now: u64, cfg: Config)
    ensures
        caught_up(p, tick, now, cfg).evolution_stage.index() >= p.evolution_stage.index(),
        caught_up(p, tick, now, cfg).evolution_stage.index() <= p.evolution_stage.index() + 1,
{
}

/// The evolution stage is monotonic across a whole action: the catch-up
/// pass and the post-action evaluation each advance it by at most one
/// level, and neither ever moves it backwards.
pub proof fn lemma_action_stage_monotonic(p: Pet, q: Pet, age: u32, cfg: Config)
    requires
        q.evolution_stage == p.evolution_stage,
    ensures
        evolved(q, age, cfg).evolution_stage.index() >= p.evolution_stage.index(),
        evolved(q, age, cfg).evolution_stage.index() <= p.evolution_stage.index() + 1,
{
}

/// The pet after a feeding: hunger falls by 40 (floored at 0), happiness
/// rises by 15 (capped at 100).
pub open spec fn fed(p: Pet) -> Pet {
    Pet {
        hunger: if p.hunger > 40 {
            (p.hunger - 40) as u32
        } else {
            0
        },
        happiness: if p.happiness + 15 > 100 {
            100
        } else {
            (p.happiness + 15) as u32
        },
        ..p
    }
}

/// The pet after a play: happiness rises by 25 (capped at 100).
pub open spec fn played(p: Pet) -> Pet {
    Pet {
        happiness: if p.happiness + 25 > 100 {
            100
        } else {
            (p.happiness + 25) as u32
        },
        ..p
    }
}

/// The pet after caller-supplied event deltas, each independently clamped
/// to 0..=100; a pet whose health lands on 0 dies at wall-clock `now`.
pub open spec fn event_applied(p: Pet, dhap: i32, dhun: i32, dhp: i32, now: u64) -> Pet {
    let hap = crate::pet::cap100(crate::pet::floor0(p.happiness + dhap));
    let hun = crate::pet::cap100(crate::pet::floor0(p.hunger + dhun));
    let hp = crate::pet::cap100(crate::pet::floor0(p.health + dhp));
    let dies = hp == 0 && !p.is_dead;
    Pet {
        happiness: hap as u32,
        hunger: hun as u32,
        health: hp as u32,
        is_dead: p.is_dead || hp == 0,
        death_timestamp: if dies {
            now
        } else {
            p.death_timestamp
        },
        ..p
    }
}

/// All stats at their best simultaneously.
pub open spec fn perfect(p: Pet) -> bool {
    p.happiness == 100 && p.hunger == 0 && p.health == 100
}

/// The pet after a revival: alive again on half health, low happiness,
/// middling hunger, caught up to the revival tick.
pub open spec fn revived(p: Pet, tick: u32) -> Pet {
    Pet {
        is_dead: false,
        health: 50,
        happiness: 30,
        hunger: 50,
        death_timestamp: 0,
        last_updated_tick: tick,
        ..p
    }
}

/// Everything one catch-up pass (`update_state`) does on success: a dead
/// or already-current pet leaves both components untouched; otherwise the
/// pet is replaced by its caught-up successor, an advancement rewrites the
/// token's metadata pointer and is reported to the companion, and nothing
/// else moves.
pub open spec fn update_applied(
    pre_w: PetWorld,
    pre_a: PetWorldAchievement,
    post_w: PetWorld,
    post_a: PetWorldAchievement,
    token_id: u128,
    current_tick: u32,
    now: u64,
) -> bool {
    let p = pre_w.spec_pet(token_id);
    let cfg = pre_w.config;
    let active = is_active(p, current_tick);
    let s1 = catch_up_stage(p, current_tick, now, cfg);
    let holder = pre_w.spec_owner_of(token_id);
    let configured = pre_w.achievement_contract is Some;
    let notifying = active && s1 is Some && configured;
    if !active {
        post_w == pre_w && post_a == pre_a
    } else {
        ({
            &&& post_w.pets@ == pre_w.pets@.insert(token_id, caught_up(p, current_tick, now, cfg))
            &&& (s1 is Some ==> post_w.spec_uri_of(token_id) == stage_uri(s1->0)
                && post_w.token_uri@.remove(token_id) == pre_w.token_uri@.remove(token_id))
            &&& (s1 is None ==> post_w.token_uri@ == pre_w.token_uri@)
            &&& post_w == (PetWorld { pets: post_w.pets, token_uri: post_w.token_uri, ..pre_w })
            &&& (notifying ==> milestones_reported(
                pre_a,
                post_a,
                holder,
                s1,
                None,
                false,
                false,
                false,
                false,
            ))
            &&& (!notifying ==> post_a == pre_a)
        })
    }
}

/// Why one catch-up pass on an existing pet was refused with `e`: its
/// advancement had to be reported and the companion refused the report.
pub open spec fn update_refused(
    w: PetWorld,
    a: PetWorldAchievement,
    token_id: u128,
    current_tick: u32,
    now: u64,
    e: Error,
) -> bool {
    let p = w.spec_pet(token_id);
    let cfg = w.config;
    let s1 = catch_up_stage(p, current_tick, now, cfg);
    let holder = w.spec_owner_of(token_id);
    let notifying = is_active(p, current_tick) && s1 is Some && w.achievement_contract is Some;
    &&& w.has_pet(token_id)
    &&& notifying
    &&& match e {
        Error::NotInitialized => a.owner is None,
        Error::Unauthorized => a.owner is Some && !a.authorized(w.contract_address),
        Error::AlreadyEarned => a.initialized() && a.authorized(w.contract_address)
            && stage_blocked(a, holder, s1),
        _ => false,
    }
}

/// One step of a batch pass: an unknown token id is skipped, a known one
/// gets the catch-up pass.
pub open spec fn caught_up_step(
    pre_w: PetWorld,
    pre_a: PetWorldAchievement,
    post_w: PetWorld,
    post_a: PetWorldAchievement,
    token_id: u128,
    current_tick: u32,
    now: u64,
) -> bool {
    if pre_w.has_pet(token_id) {
        update_applied(pre_w, pre_a, post_w, post_a, token_id, current_tick, now)
    } else {
        post_w == pre_w && post_a == pre_a
    }
}

/// The left fold of catch-up steps over a list of token ids, in list
/// order: what a whole batch pass does.
pub open spec fn batch_caught_up(
    pre_w: PetWorld,
    pre_a: PetWorldAchievement,
    post_w: PetWorld,
    post_a: PetWorldAchievement,
    ids: Seq<u128>,
    current_tick: u32,
    now: u64,
) -> bool
    decreases ids.len(),
{
    if ids.len() == 0 {
        post_w == pre_w && post_a == pre_a
    } else {
        exists|mid_w: PetWorld, mid_a: PetWorldAchievement|
            #[trigger] caught_up_step(pre_w, pre_a, mid_w, mid_a, ids[0], current_tick, now)
                && batch_caught_up(mid_w, mid_a, post_w, post_a, ids.drop_first(), current_tick, now)
    }
}

/// Extending a fold by one more step at the end.
proof fn lemma_batch_snoc(
    w0: PetWorld,
    a0: PetWorldAchievement,
    w1: PetWorld,
    a1: PetWorldAchievement,
    w2: PetWorld,
    a2: PetWorldAchievement,
    ids: Seq<u128>,
    t: u128,
    current_tick: u32,
    now: u64,
)
    requires
        batch_caught_up(w0, a0, w1, a1, ids, current_tick, now),
        caught_up_step(w1, a1, w2, a2, t, current_tick, now),
    ensures
        batch_caught_up(w0, a0, w2, a2, ids.push(t), current_tick, now),
    decreases ids.len(),
{
    if ids.len() == 0 {
        assert(ids.push(t)[0] == t);
        assert(ids.push(t).drop_first() =~= Seq::<u128>::empty());
        assert(caught_up_step(w0, a0, w2, a2, ids.push(t)[0], current_tick, now));
        assert(batch_caught_up(w2, a2, w2, a2, ids.push(t).drop_first(), current_tick, now));
    } else {
        let (mw, ma): (PetWorld, PetWorldAchievement) = choose|
            mw: PetWorld,
            ma: PetWorldAchievement,
        |
            #[trigger] caught_up_step(w0, a0, mw, ma, ids[0], current_tick, now)
                && batch_caught_up(mw, ma, w1, a1, ids.drop_first(), current_tick, now);
        lemma_batch_snoc(mw, ma, w1, a1, w2, a2, ids.drop_first(), t, current_tick, now);
        assert(ids.push(t).drop_first() =~= ids.drop_first().push(t));
        assert(ids.push(t)[0] == ids[0]);
        assert(caught_up_step(w0, a0, mw, ma, ids.push(t)[0], current_tick, now));
        assert(batch_caught_up(mw, ma, w2, a2, ids.push(t).drop_first(), current_tick, now));
    }
}

impl PetWorld {
    /// Catches one pet up to the current tick: applies stat decay, records
    /// a death, evaluates evolution once and reports an advancement to the
    /// companion. A dead or already-current pet is left untouched.
    pub fn update_state(
        &mut self,
        token_id: u128,
        current_tick: u32,
        now: u64,
        ach: &mut PetWorldAchievement,
    ) -> (r: Result<(), Error>)
        requires
            old(self).wf(),
            old(ach).wf(),
        ensures
            final(self).wf(),
            final(ach).wf(),
            ({
                let p = old(self).spec_pet(token_id);
                let cfg = old(self).config;
                let active = is_active(p, current_tick);
                let s1 = catch_up_stage(p, current_tick, now, cfg);
                let holder = old(self).spec_owner_of(token_id);
                let configured = old(self).achievement_contract is Some;
                let notifying = active && s1 is Some && configured;
                &&& (r == Err::<(), Error>(Error::EntityNotFound) <==> !old(self).has_pet(
                    token_id,
                ))
                &&& (r == Err::<(), Error>(Error::NotInitialized) <==> old(self).has_pet(token_id)
                    && notifying && old(ach).owner is None)
                &&& (r == Err::<(), Error>(Error::Unauthorized) <==> old(self).has_pet(token_id)
                    && notifying && old(ach).owner is Some && !old(ach).authorized(
                    old(self).contract_address,
                ))
                &&& (r == Err::<(), Error>(Error::AlreadyEarned) <==> old(self).has_pet(token_id)
                    && notifying && old(ach).initialized() && old(ach).authorized(
                    old(self).contract_address,
                ) && stage_blocked(*old(ach), holder, s1))
                &&& (r is Ok <==> old(self).has_pet(token_id) && (notifying ==> old(
                    ach,
                ).initialized() && old(ach).authorized(old(self).contract_address)
                    && !stage_blocked(*old(ach), holder, s1)))
                &&& (r is Err ==> *final(self) == *old(self) && *final(ach) == *old(ach))
                &&& (r is Ok ==> update_applied(
                    *old(self),
                    *old(ach),
                    *final(self),
                    *final(ach),
                    token_id,
                    current_tick,
                    now,
                ))
            }),
    {
        let p: Pet = match self.pets.get(&token_id) {
            Some(q) => q.snapshot(),
            None => {
                return Err(Error::EntityNotFound);
            },
        };
        let elapsed: u32 = if current_tick >= p.last_updated_tick {
            current_tick - p.last_updated_tick
        } else {
            0
        };
        if p.is_dead || elapsed == 0 {
            return Ok(());
        }
        let cfg = self.config;
        let d: Pet = advance(&p, current_tick, now, &cfg);
        let age: u32 = if current_tick >= p.birth_tick {
            current_tick - p.birth_tick
        } else {
            0
        };
        let (pnew, s1): (Pet, Option<EvolutionStage>) = evaluate(&d, age, &cfg);
        if s1.is_some() {
            let holder: u64 = match self.token_owner.get(&token_id) {
                Some(o) => *o,
                None => {
                    return Err(Error::EntityNotFound);
                },
            };
            match self.report_milestones(ach, holder, token_id, s1, None, false, false, false, false) {
                Ok(()) => {},
                Err(e) => {
                    return Err(e);
                },
            }
        }
        self.pets.insert(token_id, pnew);
        if let Some(st) = s1 {
            self.token_uri.insert(token_id, uri_for_stage(st));
        }
        proof {
            Self::lemma_wf_same_ownership(*old(self), *self);
            assert(final(self).token_uri@.remove(token_id) =~= old(self).token_uri@.remove(
                token_id,
            ));
        }
        Ok(())
    }
}

impl PetWorld {
    /// Feeds a pet: after the catch-up pass, hunger falls by 40 and
    /// happiness rises by 15; the feed milestone, a perfect-stats check and
    /// a fresh evolution evaluation follow. Only the holder may feed, and
    /// only a living pet.
    pub fn feed(
        &mut self,
        caller: u64,
        token_id: u128,
        current_tick: u32,
        now: u64,
        ach: &mut PetWorldAchievement,
    ) -> (r: Result<(), Error>)
        requires
            old(self).wf(),
            old(ach).wf(),
            old(ach).spec_feed_count(caller) < u128::MAX,
        ensures
            final(self).wf(),
            final(ach).wf(),
            ({
                let p = old(self).spec_pet(token_id);
                let cfg = old(self).config;
                let pa = caught_up(p, current_tick, now, cfg);
                let s1 = catch_up_stage(p, current_tick, now, cfg);
                let pb = fed(pa);
                let age = age_of(p, current_tick);
                let s2 = evolution_result(pb, age, cfg);
                let pc = evolved(pb, age, cfg);
                let owned = old(self).has_pet(token_id) && old(self).spec_owner_of(token_id)
                    == caller;
                let alive = owned && !pa.is_dead;
                let configured = old(self).achievement_contract is Some;
                let me = old(self).contract_address;
                &&& (r == Err::<(), Error>(Error::EntityNotFound) <==> !old(self).has_pet(
                    token_id,
                ))
                &&& (r == Err::<(), Error>(Error::NotOwner) <==> old(self).has_pet(token_id)
                    && old(self).spec_owner_of(token_id) != caller)
                &&& (r == Err::<(), Error>(Error::EntityIsDead) <==> owned && pa.is_dead)
                &&& (r == Err::<(), Error>(Error::NotInitialized) <==> alive && configured && old(
                    ach,
                ).owner is None)
                &&& (r == Err::<(), Error>(Error::Unauthorized) <==> alive && configured && old(
                    ach,
                ).owner is Some && !old(ach).authorized(me))
                &&& (r == Err::<(), Error>(Error::AlreadyEarned) <==> alive && configured && old(
                    ach,
                ).initialized() && old(ach).authorized(me) && (stage_blocked(*old(ach), caller, s1)
                    || stage_blocked(*old(ach), caller, s2)))
                &&& (r is Ok <==> alive && (configured ==> old(ach).initialized() && old(
                    ach,
                ).authorized(me) && !stage_blocked(*old(ach), caller, s1) && !stage_blocked(
                    *old(ach),
                    caller,
                    s2,
                )))
                &&& (r is Err ==> *final(self) == *old(self) && *final(ach) == *old(ach))
                &&& (r is Ok ==> {
                    &&& final(self).pets@ == old(self).pets@.insert(token_id, pc)
                    &&& (s2 is Some ==> final(self).spec_uri_of(token_id) == stage_uri(s2->0))
                    &&& (s2 is None && s1 is Some ==> final(self).spec_uri_of(token_id)
                        == stage_uri(s1->0))
                    &&& (s2 is None && s1 is None ==> final(self).token_uri@ == old(
                        self,
                    ).token_uri@)
                    &&& final(self).token_uri@.remove(token_id) == old(self).token_uri@.remove(
                        token_id,
                    )
                    &&& *final(self) == (PetWorld {
                        pets: final(self).pets,
                        token_uri: final(self).token_uri,
                        ..*old(self)
                    })
                    &&& (configured ==> milestones_reported(
                        *old(ach),
                        *final(ach),
                        caller,
                        s1,
                        s2,
                        true,
                        false,
                        perfect(pb),
                        false,
                    ))
                    &&& (!configured ==> *final(ach) == *old(ach))
                })
            }),
    {
        let holder: u64 = match self.token_owner.get(&token_id) {
            Some(o) => *o,
            None => {
                return Err(Error::EntityNotFound);
            },
        };
        if holder != caller {
            return Err(Error::NotOwner);
        }
        let p: Pet = match self.pets.get(&token_id) {
            Some(q) => q.snapshot(),
            None => {
                return Err(Error::EntityNotFound);
            },
        };
        let cfg = self.config;
        let elapsed: u32 = if current_tick >= p.last_updated_tick {
            current_tick - p.last_updated_tick
        } else {
            0
        };
        let age: u32 = if current_tick >= p.birth_tick {
            current_tick - p.birth_tick
        } else {
            0
        };
        let d: Pet = advance(&p, current_tick, now, &cfg);
        let (pa, s1): (Pet, Option<EvolutionStage>) = if !p.is_dead && elapsed != 0 {
            evaluate(&d, age, &cfg)
        } else {
            (d, None)
        };
        if pa.is_dead {
            return Err(Error::EntityIsDead);
        }
        let new_hunger: u32 = if pa.hunger > 40 {
            pa.hunger - 40
        } else {
            0
        };
        let new_happiness: u32 = if pa.happiness + 15 > 100 {
            100
        } else {
            pa.happiness + 15
        };
        let pb = Pet { hunger: new_hunger, happiness: new_happiness, ..pa };
        let is_perf: bool = pb.happiness == 100 && pb.hunger == 0 && pb.health == 100;
        let (pc, s2): (Pet, Option<EvolutionStage>) = evaluate(&pb, age, &cfg);
        match self.report_milestones(ach, caller, token_id, s1, s2, true, false, is_perf, false) {
            Ok(()) => {},
            Err(e) => {
                return Err(e);
            },
        }
        self.pets.insert(token_id, pc);
        if let Some(st2) = s2 {
            self.token_uri.insert(token_id, uri_for_stage(st2));
        } else {
            if let Some(st1) = s1 {
                self.token_uri.insert(token_id, uri_for_stage(st1));
            }
        }
        proof {
            Self::lemma_wf_same_ownership(*old(self), *self);
            assert(final(self).token_uri@.remove(token_id) =~= old(self).token_uri@.remove(
                token_id,
            ));
        }
        Ok(())
    }

    /// Plays with a pet: after the catch-up pass, happiness rises by 25;
    /// the play milestone, a perfect-stats check and a fresh evolution
    /// evaluation follow. Only the holder may play, and only with a living
    /// pet.
    pub fn play(
        &mut self,
        caller: u64,
        token_id: u128,
        current_tick: u32,
        now: u64,
        ach: &mut PetWorldAchievement,
    ) -> (r: Result<(), Error>)
        requires
            old(self).wf(),
            old(ach).wf(),
            old(ach).spec_play_count(caller) < u128::MAX,
        ensures
            final(self).wf(),
            final(ach).wf(),
            ({
                let p = old(self).spec_pet(token_id);
                let cfg = old(self).config;
                let pa = caught_up(p, current_tick, now, cfg);
                let s1 = catch_up_stage(p, current_tick, now, cfg);
                let pb = played(pa);
                let age = age_of(p, current_tick);
                let s2 = evolution_result(pb, age, cfg);
                let pc = evolved(pb, age, cfg);
                let owned = old(self).has_pet(token_id) && old(self).spec_owner_of(token_id)
                    == caller;
                let alive = owned && !pa.is_dead;
                let configured = old(self).achievement_contract is Some;
                let me = old(self).contract_address;
                &&& (r == Err::<(), Error>(Error::EntityNotFound) <==> !old(self).has_pet(
                    token_id,
                ))
                &&& (r == Err::<(), Error>(Error::NotOwner) <==> old(self).has_pet(token_id)
                    && old(self).spec_owner_of(token_id) != caller)
                &&& (r == Err::<(), Error>(Error::EntityIsDead) <==> owned && pa.is_dead)
                &&& (r == Err::<(), Error>(Error::NotInitialized) <==> alive && configured && old(
                    ach,
                ).owner is None)
                &&& (r == Err::<(), Error>(Error::Unauthorized) <==> alive && configured && old(
                    ach,
                ).owner is Some && !old(ach).authorized(me))
                &&& (r == Err::<(), Error>(Error::AlreadyEarned) <==> alive && configured && old(
                    ach,
                ).initialized() && old(ach).authorized(me) && (stage_blocked(*old(ach), caller, s1)
                    || stage_blocked(*old(ach), caller, s2)))
                &&& (r is Ok <==> alive && (configured ==> old(ach).initialized() && old(
                    ach,
                ).authorized(me) && !stage_blocked(*old(ach), caller, s1) && !stage_blocked(
                    *old(ach),
                    caller,
                    s2,
                )))
                &&& (r is Err ==> *final(self) == *old(self) && *final(ach) == *old(ach))
                &&& (r is Ok ==> {
                    &&& final(self).pets@ == old(self).pets@.insert(token_id, pc)
                    &&& (s2 is Some ==> final(self).spec_uri_of(token_id) == stage_uri(s2->0))
                    &&& (s2 is None && s1 is Some ==> final(self).spec_uri_of(token_id)
                        == stage_uri(s1->0))
                    &&& (s2 is None && s1 is None ==> final(self).token_uri@ == old(
                        self,
                    ).token_uri@)
                    &&& final(self).token_uri@.remove(token_id) == old(self).token_uri@.remove(
                        token_id,
                    )
                    &&& *final(self) == (PetWorld {
                        pets: final(self).pets,
                        token_uri: final(self).token_uri,
                        ..*old(self)
                    })
                    &&& (configured ==> milestones_reported(
                        *old(ach),
                        *final(ach),
                        caller,
                        s1,
                        s2,
                        false,
                        true,
                        perfect(pb),
                        false,
                    ))
                    &&& (!configured ==> *final(ach) == *old(ach))
                })
            }),
    {
        let holder: u64 = match self.token_owner.get(&token_id) {
            Some(o) => *o,
            None => {
                return Err(Error::EntityNotFound);
            },
        };
        if holder != caller {
            return Err(Error::NotOwner);
        }
        let p: Pet = match self.pets.get(&token_id) {
            Some(q) => q.snapshot(),
            None => {
                return Err(Error::EntityNotFound);
            },
        };
        let cfg = self.config;
        let elapsed: u32 = if current_tick >= p.last_updated_tick {
            current_tick - p.last_updated_tick
        } else {
            0
        };
        let age: u32 = if current_tick >= p.birth_tick {
            current_tick - p.birth_tick
        } else {
            0
        };
        let d: Pet = advance(&p, current_tick, now, &cfg);
        let (pa, s1): (Pet, Option<EvolutionStage>) = if !p.is_dead && elapsed != 0 {
            evaluate(&d, age, &cfg)
        } else {
            (d, None)
        };
        if pa.is_dead {
            return Err(Error::EntityIsDead);
        }
        let new_happiness: u32 = if pa.happiness + 25 > 100 {
            100
        } else {
            pa.happiness + 25
        };
        let pb = Pet { happiness: new_happiness, ..pa };
        let is_perf: bool = pb.happiness == 100 && pb.hunger == 0 && pb.health == 100;
        let (pc, s2): (Pet, Option<EvolutionStage>) = evaluate(&pb, age, &cfg);
        match self.report_milestones(ach, caller, token_id, s1, s2, false, true, is_perf, false) {
            Ok(()) => {},
            Err(e) => {
                return Err(e);
            },
        }
        self.pets.insert(token_id, pc);
        if let Some(st2) = s2 {
            self.token_uri.insert(token_id, uri_for_stage(st2));
        } else {
            if let Some(st1) = s1 {
                self.token_uri.insert(token_id, uri_for_stage(st1));
            }
        }
        proof {
            Self::lemma_wf_same_ownership(*old(self), *self);
            assert(final(self).token_uri@.remove(token_id) =~= old(self).token_uri@.remove(
                token_id,
            ));
        }
        Ok(())
    }
}

impl PetWorld {
    /// Applies caller-supplied event deltas to a pet's stats, each clamped
    /// to 0..=100, after the catch-up pass; a perfect-stats check and a
    /// fresh evolution evaluation follow, and a pet whose health lands on 0
    /// dies. Only the holder may apply effects, and only to a living pet.
    pub fn apply_event_effects(
        &mut self,
        caller: u64,
        token_id: u128,
        happiness_delta: i32,
        hunger_delta: i32,
        health_delta: i32,
        current_tick: u32,
        now: u64,
        ach: &mut PetWorldAchievement,
    ) -> (r: Result<(), Error>)
        requires
            old(self).wf(),
            old(ach).wf(),
        ensures
            final(self).wf(),
            final(ach).wf(),
            ({
                let p = old(self).spec_pet(token_id);
                let cfg = old(self).config;
                let pa = caught_up(p, current_tick, now, cfg);
                let s1 = catch_up_stage(p, current_tick, now, cfg);
                let pb = event_applied(pa, happiness_delta, hunger_delta, health_delta, now);
                let age = age_of(p, current_tick);
                let s2 = evolution_result(pb, age, cfg);
                let pc = evolved(pb, age, cfg);
                let owned = old(self).has_pet(token_id) && old(self).spec_owner_of(token_id)
                    == caller;
                let alive = owned && !pa.is_dead;
                let configured = old(self).achievement_contract is Some;
                let me = old(self).contract_address;
                &&& (r == Err::<(), Error>(Error::EntityNotFound) <==> !old(self).has_pet(
                    token_id,
                ))
                &&& (r == Err::<(), Error>(Error::NotOwner) <==> old(self).has_pet(token_id)
                    && old(self).spec_owner_of(token_id) != caller)
                &&& (r == Err::<(), Error>(Error::EntityIsDead) <==> owned && pa.is_dead)
                &&& (r == Err::<(), Error>(Error::NotInitialized) <==> alive && configured && old(
                    ach,
                ).owner is None)
                &&& (r == Err::<(), Error>(Error::Unauthorized) <==> alive && configured && old(
                    ach,
                ).owner is Some && !old(ach).authorized(me))
                &&& (r == Err::<(), Error>(Error::AlreadyEarned) <==> alive && configured && old(
                    ach,
                ).initialized() && old(ach).authorized(me) && (stage_blocked(*old(ach), caller, s1)
                    || stage_blocked(*old(ach), caller, s2)))
                &&& (r is Ok <==> alive && (configured ==> old(ach).initialized() && old(
                    ach,
                ).authorized(me) && !stage_blocked(*old(ach), caller, s1) && !stage_blocked(
                    *old(ach),
                    caller,
                    s2,
                )))
                &&& (r is Err ==> *final(self) == *old(self) && *final(ach) == *old(ach))
                &&& (r is Ok ==> {
                    &&& final(self).pets@ == old(self).pets@.insert(token_id, pc)
                    &&& (s2 is Some ==> final(self).spec_uri_of(token_id) == stage_uri(s2->0))
                    &&& (s2 is None && s1 is Some ==> final(self).spec_uri_of(token_id)
                        == stage_uri(s1->0))
                    &&& (s2 is None && s1 is None ==> final(self).token_uri@ == old(
                        self,
                    ).token_uri@)
                    &&& final(self).token_uri@.remove(token_id) == old(self).token_uri@.remove(
                        token_id,
                    )
                    &&& *final(self) == (PetWorld {
                        pets: final(self).pets,
                        token_uri: final(self).token_uri,
                        ..*old(self)
                    })
                    &&& (configured ==> milestones_reported(
                        *old(ach),
                        *final(ach),
                        caller,
                        s1,
                        s2,
                        false,
                        false,
                        perfect(pb),
                        false,
                    ))
                    &&& (!configured ==> *final(ach) == *old(ach))
                })
            }),
    {
        let holder: u64 = match self.token_owner.get(&token_id) {
            Some(o) => *o,
            None => {
                return Err(Error::EntityNotFound);
            },
        };
        if holder != caller {
            return Err(Error::NotOwner);
        }
        let p: Pet = match self.pets.get(&token_id) {
            Some(q) => q.snapshot(),
            None => {
                return Err(Error::EntityNotFound);
            },
        };
        let cfg = self.config;
        let elapsed: u32 = if current_tick >= p.last_updated_tick {
            current_tick - p.last_updated_tick
        } else {
            0
        };
        let age: u32 = if current_tick >= p.birth_tick {
            current_tick - p.birth_tick
        } else {
            0
        };
        let d: Pet = advance(&p, current_tick, now, &cfg);
        let (pa, s1): (Pet, Option<EvolutionStage>) = if !p.is_dead && elapsed != 0 {
            evaluate(&d, age, &cfg)
        } else {
            (d, None)
        };
        if pa.is_dead {
            return Err(Error::EntityIsDead);
        }
        let new_happiness: u32 = clamp_stat(pa.happiness, happiness_delta);
        let new_hunger: u32 = clamp_stat(pa.hunger, hunger_delta);
        let new_health: u32 = clamp_stat(pa.health, health_delta);
        let dies: bool = new_health == 0;
        let pb = Pet {
            happiness: new_happiness,
            hunger: new_hunger,
            health: new_health,
            is_dead: dies,
            death_timestamp: if dies {
                now
            } else {
                pa.death_timestamp
            },
            ..pa
        };
        let is_perf: bool = pb.happiness == 100 && pb.hunger == 0 && pb.health == 100;
        let (pc, s2): (Pet, Option<EvolutionStage>) = evaluate(&pb, age, &cfg);
        match self.report_milestones(ach, caller, token_id, s1, s2, false, false, is_perf, false) {
            Ok(()) => {},
            Err(e) => {
                return Err(e);
            },
        }
        self.pets.insert(token_id, pc);
        if let Some(st2) = s2 {
            self.token_uri.insert(token_id, uri_for_stage(st2));
        } else {
            if let Some(st1) = s1 {
                self.token_uri.insert(token_id, uri_for_stage(st1));
            }
        }
        proof {
            Self::lemma_wf_same_ownership(*old(self), *self);
            assert(final(self).token_uri@.remove(token_id) =~= old(self).token_uri@.remove(
                token_id,
            ));
        }
        Ok(())
    }

    /// Revives a dead pet on partial stats (health 50, happiness 30, hunger
    /// 50), clears the death timestamp, reports the revival milestone, and
    /// re-evaluates evolution once on the revived pet (reporting an
    /// advancement). Only the holder may revive, and only a dead pet.
    pub fn revive(
        &mut self,
        caller: u64,
        token_id: u128,
        current_tick: u32,
        ach: &mut PetWorldAchievement,
    ) -> (r: Result<(), Error>)
        requires
            old(self).wf(),
            old(ach).wf(),
        ensures
            final(self).wf(),
            final(ach).wf(),
            ({
                let p = old(self).spec_pet(token_id);
                let cfg = old(self).config;
                let pr = revived(p, current_tick);
                let age = age_of(p, current_tick);
                let s2 = evolution_result(pr, age, cfg);
                let pc = evolved(pr, age, cfg);
                let owned = old(self).has_pet(token_id) && old(self).spec_owner_of(token_id)
                    == caller;
                let dead = owned && p.is_dead;
                let configured = old(self).achievement_contract is Some;
                let me = old(self).contract_address;
                &&& (r == Err::<(), Error>(Error::EntityNotFound) <==> !old(self).has_pet(
                    token_id,
                ))
                &&& (r == Err::<(), Error>(Error::NotOwner) <==> old(self).has_pet(token_id)
                    && old(self).spec_owner_of(token_id) != caller)
                &&& (r == Err::<(), Error>(Error::EntityNotDead) <==> owned && !p.is_dead)
                &&& (r == Err::<(), Error>(Error::NotInitialized) <==> dead && configured && old(
                    ach,
                ).owner is None)
                &&& (r == Err::<(), Error>(Error::Unauthorized) <==> dead && configured && old(
                    ach,
                ).owner is Some && !old(ach).authorized(me))
                &&& (r == Err::<(), Error>(Error::AlreadyEarned) <==> dead && configured && old(
                    ach,
                ).initialized() && old(ach).authorized(me) && (revival_blocked(*old(ach), caller)
                    || stage_blocked(*old(ach), caller, s2)))
                &&& (r is Ok <==> dead && (configured ==> old(ach).initialized() && old(
                    ach,
                ).authorized(me) && !revival_blocked(*old(ach), caller) && !stage_blocked(
                    *old(ach),
                    caller,
                    s2,
                )))
                &&& (r is Err ==> *final(self) == *old(self) && *final(ach) == *old(ach))
                &&& (r is Ok ==> {
                    &&& final(self).pets@ == old(self).pets@.insert(token_id, pc)
                    &&& (s2 is Some ==> final(self).spec_uri_of(token_id) == stage_uri(s2->0))
                    &&& (s2 is None ==> final(self).token_uri@ == old(self).token_uri@)
                    &&& final(self).token_uri@.remove(token_id) == old(self).token_uri@.remove(
                        token_id,
                    )
                    &&& *final(self) == (PetWorld {
                        pets: final(self).pets,
                        token_uri: final(self).token_uri,
                        ..*old(self)
                    })
                    &&& (!configured ==> *final(ach) == *old(ach))
                    &&& (configured ==> milestones_reported(
                        *old(ach),
                        *final(ach),
                        caller,
                        None,
                        s2,
                        false,
                        false,
                        false,
                        true,
                    ))
                })
            }),
    {
        let holder: u64 = match self.token_owner.get(&token_id) {
            Some(o) => *o,
            None => {
                return Err(Error::EntityNotFound);
            },
        };
        if holder != caller {
            return Err(Error::NotOwner);
        }
        let p: Pet = match self.pets.get(&token_id) {
            Some(q) => q.snapshot(),
            None => {
                return Err(Error::EntityNotFound);
            },
        };
        if !p.is_dead {
            return Err(Error::EntityNotDead);
        }
        let cfg = self.config;
        let age: u32 = if current_tick >= p.birth_tick {
            current_tick - p.birth_tick
        } else {
            0
        };
        let pr = Pet {
            is_dead: false,
            health: 50,
            happiness: 30,
            hunger: 50,
            death_timestamp: 0,
            last_updated_tick: current_tick,
            ..p
        };
        let (pc, s2): (Pet, Option<EvolutionStage>) = evaluate(&pr, age, &cfg);
        match self.report_milestones(ach, caller, token_id, None, s2, false, false, false, true) {
            Ok(()) => {},
            Err(e) => {
                return Err(e);
            },
        }
        self.pets.insert(token_id, pc);
        if let Some(st2) = s2 {
            self.token_uri.insert(token_id, uri_for_stage(st2));
        }
        proof {
            Self::lemma_wf_same_ownership(*old(self), *self);
            assert(final(self).token_uri@.remove(token_id) =~= old(self).token_uri@.remove(
                token_id,
            ));
        }
        Ok(())
    }

    /// Transfers a pet between holders: reassigns the token, moves one unit
    /// of balance, and appends the token to the receiver's enumeration
    /// list. The token is not removed from the sender's list; the sender's
    /// shrunken balance simply shortens the window that is read back.
    pub fn transfer(&mut self, from: u64, to: u64, token_id: u128) -> (r: Result<(), Error>)
        requires
            old(self).wf(),
        ensures
            final(self).wf(),
            r == Err::<(), Error>(Error::EntityNotFound) <==> !old(self).has_pet(token_id),
            r == Err::<(), Error>(Error::NotOwner) <==> old(self).has_pet(token_id) && old(
                self,
            ).spec_owner_of(token_id) != from,
            r is Ok <==> old(self).has_pet(token_id) && old(self).spec_owner_of(token_id) == from,
            r is Err ==> *final(self) == *old(self),
            r is Ok && from == to ==> *final(self) == *old(self),
            r is Ok && from != to ==> {
                &&& final(self).token_owner@ == old(self).token_owner@.insert(token_id, to)
                &&& final(self).spec_balance_of(from) == old(self).spec_balance_of(from) - 1
                &&& final(self).spec_balance_of(to) == old(self).spec_balance_of(to) + 1
                &&& forall|b: u64|
                    b != from && b != to ==> (#[trigger] final(self).spec_balance_of(b)) == old(
                        self,
                    ).spec_balance_of(b)
                &&& final(self).spec_tokens_of(to) == (if old(self).spec_balance_of(to) < old(
                    self,
                ).spec_tokens_of(to).len() {
                    old(self).spec_tokens_of(to).update(
                        old(self).spec_balance_of(to) as int,
                        token_id,
                    )
                } else {
                    old(self).spec_tokens_of(to).push(token_id)
                })
                &&& forall|b: u64|
                    b != to ==> (#[trigger] final(self).spec_tokens_of(b)) == old(
                        self,
                    ).spec_tokens_of(b)
                &&& final(self).pets@ == old(self).pets@
                &&& final(self).token_uri@ == old(self).token_uri@
                &&& final(self).next_token_id == old(self).next_token_id
                &&& final(self).owner == old(self).owner
                &&& final(self).achievement_contract == old(self).achievement_contract
            },
    {
        let holder: u64 = match self.token_owner.get(&token_id) {
            Some(o) => *o,
            None => {
                return Err(Error::EntityNotFound);
            },
        };
        if holder != from {
            return Err(Error::NotOwner);
        }
        if from == to {
            return Ok(());
        }
        proof {
            let pre = *old(self);
            let bound: int = pre.next_token_id as int;
            assert(owned_by(pre.token_owner@, from).contains(token_id as int));
            lemma_owned_by_bound(pre.token_owner@, from, bound);
            lemma_owned_by_bound(pre.token_owner@, to, bound);
            lemma_owned_by_move(pre.token_owner@, token_id, from, to);
            assert(pre.spec_balance_of(from) as int == owned_by(pre.token_owner@, from).len());
            assert(pre.spec_balance_of(from) >= 1);
            // The receiver's set misses this token, so its size is strictly
            // below the id space and the balance can grow.
            lemma_int_range(0, bound);
            let grown = owned_by(pre.token_owner@, to).insert(token_id as int);
            assert(grown.subset_of(set_int_range(0, bound)));
            lemma_len_subset(grown, set_int_range(0, bound));
            assert(pre.spec_balance_of(to) as int == owned_by(pre.token_owner@, to).len());
            assert(pre.spec_balance_of(to) + 1 <= bound);
            assert(pre.spec_balance_of(to) as int <= pre.spec_tokens_of(to).len());
        }
        self.token_owner.insert(token_id, to);
        let from_balance: u128 = match self.owner_balance.get(&from) {
            Some(v) => *v,
            None => 0,
        };
        let to_balance: u128 = match self.owner_balance.get(&to) {
            Some(v) => *v,
            None => 0,
        };
        self.owner_balance.insert(from, from_balance - 1);
        self.owner_balance.insert(to, to_balance + 1);
        let mut list: Vec<u128> = match self.owner_tokens.get(&to) {
            Some(v) => copy_token_list(v),
            None => Vec::new(),
        };
        let slot: usize = to_balance as usize;
        if slot < list.len() {
            list[slot] = token_id;
        } else {
            list.push(token_id);
        }
        self.owner_tokens.insert(to, list);
        proof {
            self.lemma_wf_after_transfer(*old(self), from, to, token_id);
        }
        Ok(())
    }

    /// The invariant after a transfer's mutation.
    proof fn lemma_wf_after_transfer(self, pre: Self, from: u64, to: u64, tid: u128)
        requires
            pre.wf(),
            pre.token_owner@.contains_key(tid),
            pre.token_owner@[tid] == from,
            to != from,
            self.config == pre.config,
            self.next_token_id == pre.next_token_id,
            self.pets@ == pre.pets@,
            self.token_owner@ == pre.token_owner@.insert(tid, to),
            self.owner_balance@ == pre.owner_balance@.insert(
                from,
                (pre.spec_balance_of(from) - 1) as u128,
            ).insert(to, (pre.spec_balance_of(to) + 1) as u128),
            self.owner_tokens@.contains_key(to),
            self.owner_tokens@ == pre.owner_tokens@.insert(to, self.owner_tokens@[to]),
            self.owner_tokens@[to]@.len() >= pre.spec_balance_of(to) + 1,
            pre.spec_balance_of(from) >= 1,
            pre.spec_balance_of(to) < u128::MAX,
        ensures
            self.wf(),
    {
        lemma_owned_by_move(pre.token_owner@, tid, from, to);
        lemma_owned_by_bound(pre.token_owner@, from, pre.next_token_id as int);
        lemma_owned_by_bound(pre.token_owner@, to, pre.next_token_id as int);
        assert forall|a2: u64| (#[trigger] self.spec_balance_of(a2)) as int == owned_by(
            self.token_owner@,
            a2,
        ).len() by {
            assert(pre.spec_balance_of(a2) as int == owned_by(pre.token_owner@, a2).len());
        }
        assert forall|a2: u64| (#[trigger] self.spec_balance_of(a2)) as int <= self.spec_tokens_of(
            a2,
        ).len() by {
            assert(pre.spec_balance_of(a2) as int <= pre.spec_tokens_of(a2).len());
        }
    }
}

impl PetWorld {
    /// Catches a batch of pets up to the current tick, skipping unknown
    /// token ids: on success the final state is exactly the left fold of
    /// one catch-up pass per listed id, in list order. Each inner update is
    /// atomic on its own, but the batch is a convenience wrapper, not one
    /// transaction: on the first refused milestone report it stops with
    /// that error, keeping the updates already applied — a deliberate
    /// deviation from the all-or-nothing rule that holds for every single
    /// action, stated exactly below.
    pub fn batch_update_state(
        &mut self,
        token_ids: &Vec<u128>,
        current_tick: u32,
        now: u64,
        ach: &mut PetWorldAchievement,
    ) -> (r: Result<(), Error>)
        requires
            old(self).wf(),
            old(ach).wf(),
        ensures
            final(self).wf(),
            final(ach).wf(),
            final(self).token_owner@ == old(self).token_owner@,
            final(self).owner_balance@ == old(self).owner_balance@,
            final(self).owner_tokens@ == old(self).owner_tokens@,
            final(self).next_token_id == old(self).next_token_id,
            final(self).owner == old(self).owner,
            final(self).achievement_contract == old(self).achievement_contract,
            final(self).contract_address == old(self).contract_address,
            final(self).config == old(self).config,
            forall|t: u128|
                (#[trigger] final(self).pets@.contains_key(t)) == old(self).pets@.contains_key(t),
            token_ids@.len() == 0 ==> r is Ok,
            r is Ok ==> batch_caught_up(
                *old(self),
                *old(ach),
                *final(self),
                *final(ach),
                token_ids@,
                current_tick,
                now,
            ),
            (r matches Err(e) ==> exists|i: int, mw: PetWorld, ma: PetWorldAchievement|
                {
                    &&& 0 <= i < token_ids@.len()
                    &&& #[trigger] batch_caught_up(
                        *old(self),
                        *old(ach),
                        mw,
                        ma,
                        token_ids@.take(i),
                        current_tick,
                        now,
                    )
                    &&& update_refused(mw, ma, token_ids@[i], current_tick, now, e)
                    &&& *final(self) == mw
                    &&& *final(ach) == ma
                }),
    {
        proof {
            assert(token_ids@.take(0) =~= Seq::<u128>::empty());
        }
        let mut i: usize = 0;
        while i < token_ids.len()
            invariant
                self.wf(),
                ach.wf(),
                i <= token_ids@.len(),
                self.token_owner@ == old(self).token_owner@,
                self.owner_balance@ == old(self).owner_balance@,
                self.owner_tokens@ == old(self).owner_tokens@,
                self.next_token_id == old(self).next_token_id,
                self.owner == old(self).owner,
                self.achievement_contract == old(self).achievement_contract,
                self.contract_address == old(self).contract_address,
                self.config == old(self).config,
                forall|t: u128|
                    (#[trigger] self.pets@.contains_key(t)) == old(self).pets@.contains_key(t),
                batch_caught_up(
                    *old(self),
                    *old(ach),
                    *self,
                    *ach,
                    token_ids@.take(i as int),
                    current_tick,
                    now,
                ),
            decreases token_ids@.len() - i,
        {
            let ghost pre_w = *self;
            let ghost pre_a = *ach;
            let token_id: u128 = token_ids[i];
            if self.pets.contains_key(&token_id) {
                match self.update_state(token_id, current_tick, now, ach) {
                    Ok(()) => {},
                    Err(e) => {
                        proof {
                            assert(update_refused(
                                pre_w,
                                pre_a,
                                token_id,
                                current_tick,
                                now,
                                e,
                            ));
                        }
                        return Err(e);
                    },
                }
            }
            proof {
                assert(caught_up_step(pre_w, pre_a, *self, *ach, token_id, current_tick, now));
                lemma_batch_snoc(
                    *old(self),
                    *old(ach),
                    pre_w,
                    pre_a,
                    *self,
                    *ach,
                    token_ids@.take(i as int),
                    token_id,
                    current_tick,
                    now,
                );
                assert(token_ids@.take(i as int).push(token_id) =~= token_ids@.take(i + 1));
            }
            i = i + 1;
        }
        proof {
            assert(token_ids@.take(token_ids@.len() as int) =~= token_ids@);
        }
        Ok(())
    }

    /// A read-only snapshot of one pet: name, birth tick, age, stage, the
    /// three stats as last persisted, ticks since the last decay pass,
    /// whether the pet is dead, and the death timestamp.
    pub fn get_pet_info(&self, token_id: u128, current_tick: u32) -> (r: Result<
        (String, u32, u32, EvolutionStage, u32, u32, u32, u32, bool, u64),
        Error,
    >)
        requires
            self.wf(),
        ensures
            r is Ok <==> self.has_pet(token_id),
            r is Err ==> r == Err::<(String, u32, u32, EvolutionStage, u32, u32, u32, u32, bool, u64), Error>(Error::EntityNotFound),
            r matches Ok(info) ==> {
                let p = self.spec_pet(token_id);
                &&& info.0@ == p.name@
                &&& info.1 == p.birth_tick
                &&& info.2 == age_of(p, current_tick)
                &&& info.3 == p.evolution_stage
                &&& info.4 == p.happiness
                &&& info.5 == p.hunger
                &&& info.6 == p.health
                &&& info.7 == (if current_tick >= p.last_updated_tick {
                    (current_tick - p.last_updated_tick) as u32
                } else {
                    0u32
                })
                &&& info.8 == p.is_dead
                &&& info.9 == p.death_timestamp
            },
    {
        let p: Pet = match self.pets.get(&token_id) {
            Some(q) => q.snapshot(),
            None => {
                return Err(Error::EntityNotFound);
            },
        };
        let age: u32 = if current_tick >= p.birth_tick {
            current_tick - p.birth_tick
        } else {
            0
        };
        let since: u32 = if current_tick >= p.last_updated_tick {
            current_tick - p.last_updated_tick
        } else {
            0
        };
        Ok(
            (
                p.name,
                p.birth_tick,
                age,
                p.evolution_stage,
                p.happiness,
                p.hunger,
                p.health,
                since,
                p.is_dead,
                p.death_timestamp,
            ),
        )
    }

    /// The tokens a holder currently enumerates: the first `balance`
    /// entries of their list.
    pub fn get_user_pets(&self, user: u64) -> (tokens: Vec<u128>)
        requires
            self.wf(),
        ensures
            tokens@ == self.spec_tokens_of(user).subrange(0, self.spec_balance_of(user) as int),
    {
        let balance: u128 = match self.owner_balance.get(&user) {
            Some(v) => *v,
            None => 0,
        };
        let mut tokens: Vec<u128> = Vec::new();
        match self.owner_tokens.get(&user) {
            Some(list) => {
                let len: usize = list.len();
                proof {
                    assert(self.spec_balance_of(user) as int <= self.spec_tokens_of(user).len());
                    assert(balance <= len);
                }
                let n: usize = balance as usize;
                let mut i: usize = 0;
                while i < n
                    invariant
                        i <= n,
                        n <= list@.len(),
                        tokens@ == list@.subrange(0, i as int),
                    decreases n - i,
                {
                    tokens.push(list[i]);
                    i = i + 1;
                }
                proof {
                    assert(tokens@ =~= self.spec_tokens_of(user).subrange(
                        0,
                        self.spec_balance_of(user) as int,
                    ));
                }
            },
            None => {
                proof {
                    assert(self.spec_balance_of(user) as int <= self.spec_tokens_of(user).len());
                    assert(tokens@ =~= self.spec_tokens_of(user).subrange(
                        0,
                        self.spec_balance_of(user) as int,
                    ));
                }
            },
        }
        tokens
    }

    /// Points a token's metadata at a new location. Only the holder may.
    pub fn update_token_uri(&mut self, caller: u64, token_id: u128, new_token_uri: String) -> (r:
        Result<(), Error>)
        requires
            old(self).wf(),
        ensures
            final(self).wf(),
            r == Err::<(), Error>(Error::EntityNotFound) <==> !old(self).has_pet(token_id),
            r == Err::<(), Error>(Error::NotOwner) <==> old(self).has_pet(token_id) && old(
                self,
            ).spec_owner_of(token_id) != caller,
            r is Ok <==> old(self).has_pet(token_id) && old(self).spec_owner_of(token_id)
                == caller,
            r is Err ==> *final(self) == *old(self),
            r is Ok ==> final(self).token_uri@ == old(self).token_uri@.insert(
                token_id,
                new_token_uri,
            ),
            r is Ok ==> *final(self) == (PetWorld { token_uri: final(self).token_uri, ..*old(
                self,
            ) }),
    {
        let holder: u64 = match self.token_owner.get(&token_id) {
            Some(o) => *o,
            None => {
                return Err(Error::EntityNotFound);
            },
        };
        if holder != caller {
            return Err(Error::NotOwner);
        }
        self.token_uri.insert(token_id, new_token_uri);
        proof {
            Self::lemma_wf_same_ownership(*old(self), *self);
        }
        Ok(())
    }

    /// A token's metadata pointer, with the default for unset tokens.
    pub fn token_uri(&self, token_id: u128) -> (r: Result<String, Error>)
        requires
            self.wf(),
        ensures
            r is Ok <==> self.has_pet(token_id),
            r is Err ==> r == Err::<String, Error>(Error::EntityNotFound),
            r matches Ok(u) ==> u@ == self.spec_uri_of(token_id),
    {
        if !self.pets.contains_key(&token_id) {
            return Err(Error::EntityNotFound);
        }
        match self.token_uri.get(&token_id) {
            Some(u) => Ok(u.clone()),
            None => Ok(String::from_str("ipfs://QmEggMetadata")),
        }
    }
}

/// A verified element-wise copy of a token list.
fn copy_token_list(v: &Vec<u128>) -> (r: Vec<u128>)
    ensures
        r@ == v@,
{
    let mut r: Vec<u128> = Vec::new();
    let mut i: usize = 0;
    while i < v.len()
        invariant
            i <= v@.len(),
            r@ == v@.subrange(0, i as int),
        decreases v@.len() - i,
    {
        r.push(v[i]);
        i = i + 1;
    }
    proof {
        assert(r@ =~= v@);
    }
    r
}

/// Clamps `stat + delta` into 0..=100.
fn clamp_stat(stat: u32, delta: i32) -> (r: u32)
    requires
        stat <= 100,
    ensures
        r == crate::pet::cap100(crate::pet::floor0(stat + delta)) as u32,
{
    let wide: i64 = stat as i64 + delta as i64;
    let floored: i64 = if wide < 0 {
        0
    } else {
        wide
    };
    if floored > 100 {
        100
    } else {
        floored as u32
    }
}

} // verus!
