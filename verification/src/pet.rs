//! The pet entity: its life stages, its well-formedness invariant, the
//! stat-decay engine and the evolution state machine.
//!
//! Both engines are pure: they take a pet, the elapsed time and the
//! configured rates, and return the successor pet. Their exact behaviour is
//! written once as spec functions ([`decayed`], [`evolved`]) and the
//! executable code is proved equal to them.

use vstd::prelude::*;

verus! {

/// The four ordered life stages. The order is total and forward-only:
/// a pet never moves backwards, and never more than one stage per
/// evaluation.
#[derive(Clone, Copy, Debug, PartialEq, Eq, Structural)]
pub enum EvolutionStage {
    Egg,
    Baby,
    Teen,
    Adult,
}

impl EvolutionStage {
    /// Position of the stage in the forward-only order.
    pub open spec fn index(self) -> int {
        match self {
            EvolutionStage::Egg => 0,
            EvolutionStage::Baby => 1,
            EvolutionStage::Teen => 2,
            EvolutionStage::Adult => 3,
        }
    }

    /// The stage number used on the wire towards the achievement ledger.
    pub fn level(&self) -> (n: u128)
        ensures
            n == self.index(),
    {
        match self {
            EvolutionStage::Egg => 0,
            EvolutionStage::Baby => 1,
            EvolutionStage::Teen => 2,
            EvolutionStage::Adult => 3,
        }
    }
}

/// Decay rates, evolution gates and action costs. Fixed at construction;
/// the world never rewrites them mid-lifecycle.
#[derive(Clone, Copy, Debug, PartialEq, Eq, Structural)]
pub struct Config {
    /// Elapsed ticks per point of hunger gained.
    pub ticks_per_hunger_point: u32,
    /// Elapsed ticks per point of happiness lost.
    pub ticks_per_happiness_point: u32,
    /// Age gate for Egg to Baby.
    pub egg_to_baby_ticks: u32,
    /// Age gate for Baby to Teen.
    pub baby_to_teen_ticks: u32,
    /// Age gate for Teen to Adult.
    pub teen_to_adult_ticks: u32,
    /// Minimum happiness for the Baby-to-Teen and Teen-to-Adult gates.
    pub evolution_happiness_threshold: u32,
    /// Price of one feeding, in the platform's smallest money unit.
    pub feed_cost: u64,
    /// Price of one mint.
    pub mint_cost: u64,
    /// Price of one revival.
    pub revival_cost: u64,
}

impl Config {
    /// Rates must be positive: they are divisors of elapsed time.
    pub open spec fn wf(self) -> bool {
        &&& self.ticks_per_hunger_point >= 1
        &&& self.ticks_per_happiness_point >= 1
    }

    /// The stock tuning the world is initialized with.
    pub open spec fn is_standard(self) -> bool {
        &&& self.ticks_per_hunger_point == 30
        &&& self.ticks_per_happiness_point == 60
        &&& self.egg_to_baby_ticks == 36
        &&& self.baby_to_teen_ticks == 84
        &&& self.teen_to_adult_ticks == 144
        &&& self.evolution_happiness_threshold == 60
        &&& self.feed_cost == 1000000000u64
        &&& self.mint_cost == 10000000000u64
        &&& self.revival_cost == 5000000000u64
    }

    /// Builds the stock tuning.
    pub fn standard() -> (c: Config)
        ensures
            c.is_standard(),
            c.wf(),
    {
        Config {
            ticks_per_hunger_point: 30,
            ticks_per_happiness_point: 60,
            egg_to_baby_ticks: 36,
            baby_to_teen_ticks: 84,
            teen_to_adult_ticks: 144,
            evolution_happiness_threshold: 60,
            feed_cost: 1000000000,
            mint_cost: 10000000000,
            revival_cost: 5000000000,
        }
    }
}

/// One pet entity. Created at mint, mutated by every action and by the
/// decay pass, never destroyed: a dead pet persists as a reviveable
/// tombstone.
#[derive(Clone, Debug)]
pub struct Pet {
    /// Display name, 1 to 20 characters.
    pub name: String,
    /// Tick at which the pet was minted; its age is measured from here.
    pub birth_tick: u32,
    /// Tick up to which decay has been applied.
    pub last_updated_tick: u32,
    /// Current life stage; non-decreasing over the pet's history.
    pub evolution_stage: EvolutionStage,
    /// 0 to 100.
    pub happiness: u32,
    /// 0 to 100.
    pub hunger: u32,
    /// 0 to 100; 0 exactly when the pet is dead.
    pub health: u32,
    /// Death is permanent until an explicit revival.
    pub is_dead: bool,
    /// Wall-clock time of death; 0 while the pet is alive.
    pub death_timestamp: u64,
}

impl Pet {
    /// The entity invariant: stats stay in 0..=100, a dead pet has no
    /// health, and a living pet carries no death timestamp.
    pub open spec fn wf(self) -> bool {
        &&& self.happiness <= 100
        &&& self.hunger <= 100
        &&& self.health <= 100
        &&& self.is_dead ==> self.health == 0
        &&& !self.is_dead ==> self.death_timestamp == 0
    }

    /// A field-wise copy, proved equal to its source value.
    pub fn snapshot(&self) -> (p: Pet)
        ensures
            p == *self,
    {
        Pet {
            name: self.name.clone(),
            birth_tick: self.birth_tick,
            last_updated_tick: self.last_updated_tick,
            evolution_stage: self.evolution_stage,
            happiness: self.happiness,
            hunger: self.hunger,
            health: self.health,
            is_dead: self.is_dead,
            death_timestamp: self.death_timestamp,
        }
    }
}

/// Ticks that have passed since the pet was last caught up. The tick source
/// is monotonic, so a current tick behind the stored one is treated as no
/// elapsed time.
pub open spec fn elapsed_ticks(pet: Pet, current_tick: u32) -> int {
    if current_tick >= pet.last_updated_tick {
        current_tick - pet.last_updated_tick
    } else {
        0
    }
}

/// Caps a stat at 100.
pub open spec fn cap100(v: int) -> int {
    if v > 100 {
        100
    } else {
        v
    }
}

/// Floors a stat at 0.
pub open spec fn floor0(v: int) -> int {
    if v < 0 {
        0
    } else {
        v
    }
}

/// The stat-decay engine, exactly. A dead pet, or one already caught up,
/// is returned unchanged. Otherwise: hunger rises by one point per
/// `ticks_per_hunger_point` elapsed ticks (capped at 100), happiness falls
/// by one point per `ticks_per_happiness_point` (floored at 0); hunger
/// above 80 bleeds health by `(hunger - 80) / 5` per pass, while a well-fed
/// happy pet (`hunger < 30`, `happiness > 70`) regains at most one point of
/// health per pass. A pet whose health reaches 0 dies at wall-clock `now`.
pub open spec fn decayed(pet: Pet, current_tick: u32, now: u64, cfg: Config) -> Pet {
    let elapsed = elapsed_ticks(pet, current_tick);
    if pet.is_dead || elapsed == 0 {
        pet
    } else {
        let hunger1 = cap100(pet.hunger + elapsed / (cfg.ticks_per_hunger_point as int));
        let happiness1 = floor0(pet.happiness - elapsed / (cfg.ticks_per_happiness_point as int));
        let health1 = if hunger1 > 80 && pet.health > 0 {
            floor0(pet.health - (hunger1 - 80) / 5)
        } else {
            pet.health as int
        };
        let health2 = if hunger1 < 30 && happiness1 > 70 && health1 < 100 {
            health1 + 1
        } else {
            health1
        };
        let dies = health2 == 0;
        Pet {
            name: pet.name,
            birth_tick: pet.birth_tick,
            last_updated_tick: current_tick,
            evolution_stage: pet.evolution_stage,
            happiness: happiness1 as u32,
            hunger: hunger1 as u32,
            health: health2 as u32,
            is_dead: dies,
            death_timestamp: if dies {
                now
            } else {
                pet.death_timestamp
            },
        }
    }
}

/// Decay preserves the entity invariant.
pub proof fn lemma_decay_preserves_wf(pet: Pet, current_tick: u32, now: u64, cfg: Config)
    requires
        pet.wf(),
        cfg.wf(),
    ensures
        decayed(pet, current_tick, now, cfg).wf(),
{
}

/// No decay is applied while the pet is dead.
pub proof fn lemma_dead_pet_does_not_decay(pet: Pet, current_tick: u32, now: u64, cfg: Config)
    requires
        pet.is_dead,
    ensures
        decayed(pet, current_tick, now, cfg) == pet,
{
}

/// Decay never touches the name, the birth tick or the stage.
pub proof fn lemma_decay_fixes_identity(pet: Pet, current_tick: u32, now: u64, cfg: Config)
    ensures
        decayed(pet, current_tick, now, cfg).name == pet.name,
        decayed(pet, current_tick, now, cfg).birth_tick == pet.birth_tick,
        decayed(pet, current_tick, now, cfg).evolution_stage == pet.evolution_stage,
{
}

/// Runs the stat-decay engine up to `current_tick`, recording `now` as the
/// time of death if the pet dies under it.
pub fn advance(pet: &Pet, current_tick: u32, now: u64, cfg: &Config) -> (p: Pet)
    requires
        pet.wf(),
        cfg.wf(),
    ensures
        p == decayed(*pet, current_tick, now, *cfg),
        p.wf(),
{
    let elapsed: u32 = if current_tick >= pet.last_updated_tick {
        current_tick - pet.last_updated_tick
    } else {
        0
    };
    if pet.is_dead || elapsed == 0 {
        return pet.snapshot();
    }
    let hunger_increase: u32 = elapsed / cfg.ticks_per_hunger_point;
    let happiness_decrease: u32 = elapsed / cfg.ticks_per_happiness_point;

    let wide_hunger: u64 = pet.hunger as u64 + hunger_increase as u64;
    let hunger1: u32 = if wide_hunger > 100 {
        100
    } else {
        wide_hunger as u32
    };
    let happiness1: u32 = if happiness_decrease >= pet.happiness {
        0
    } else {
        pet.happiness - happiness_decrease
    };
    let health1: u32 = if hunger1 > 80 && pet.health > 0 {
        let health_decrease: u32 = (hunger1 - 80) / 5;
        if health_decrease >= pet.health {
            0
        } else {
            pet.health - health_decrease
        }
    } else {
        pet.health
    };
    let health2: u32 = if hunger1 < 30 && happiness1 > 70 && health1 < 100 {
        health1 + 1
    } else {
        health1
    };
    let dies: bool = health2 == 0;
    Pet {
        name: pet.name.clone(),
        birth_tick: pet.birth_tick,
        last_updated_tick: current_tick,
        evolution_stage: pet.evolution_stage,
        happiness: happiness1,
        hunger: hunger1,
        health: health2,
        is_dead: dies,
        death_timestamp: if dies {
            now
        } else {
            pet.death_timestamp
        },
    }
}

/// The stage the pet advances to under the gates, if any. Gates:
/// Egg to Baby needs only age; Baby to Teen adds the happiness threshold;
/// Teen to Adult adds health of at least 80; Adult is terminal.
pub open spec fn evolution_result(pet: Pet, age: u32, cfg: Config) -> Option<EvolutionStage> {
    match pet.evolution_stage {
        EvolutionStage::Egg => if age >= cfg.egg_to_baby_ticks {
            Some(EvolutionStage::Baby)
        } else {
            None
        },
        EvolutionStage::Baby => if age >= cfg.baby_to_teen_ticks && pet.happiness
            >= cfg.evolution_happiness_threshold {
            Some(EvolutionStage::Teen)
        } else {
            None
        },
        EvolutionStage::Teen => if age >= cfg.teen_to_adult_ticks && pet.happiness
            >= cfg.evolution_happiness_threshold && pet.health >= 80 {
            Some(EvolutionStage::Adult)
        } else {
            None
        },
        EvolutionStage::Adult => None,
    }
}

/// The pet after one evaluation of the evolution state machine: the same
/// pet, except that a passed gate advances the stage by exactly one level.
pub open spec fn evolved(pet: Pet, age: u32, cfg: Config) -> Pet {
    match evolution_result(pet, age, cfg) {
        Some(stage) => Pet { evolution_stage: stage, ..pet },
        None => pet,
    }
}

/// The evolution stage is monotonic: one evaluation never moves it
/// backwards, and advances it by at most one level.
pub proof fn lemma_evolution_monotonic(pet: Pet, age: u32, cfg: Config)
    ensures
        evolved(pet, age, cfg).evolution_stage.index() >= pet.evolution_stage.index(),
        evolved(pet, age, cfg).evolution_stage.index() <= pet.evolution_stage.index() + 1,
        evolved(pet, age, cfg) == pet || evolved(pet, age, cfg).evolution_stage.index()
            == pet.evolution_stage.index() + 1,
{
}

/// Evolution touches nothing but the stage.
pub proof fn lemma_evolution_fixes_stats(pet: Pet, age: u32, cfg: Config)
    ensures
        evolved(pet, age, cfg) == (Pet {
            evolution_stage: evolved(pet, age, cfg).evolution_stage,
            ..pet
        }),
{
}

/// Evaluates the evolution state machine once, returning the successor pet
/// and the stage it advanced to, if any.
pub fn evaluate(pet: &Pet, age: u32, cfg: &Config) -> (r: (Pet, Option<EvolutionStage>))
    requires
        pet.wf(),
    ensures
        r.0 == evolved(*pet, age, *cfg),
        r.1 == evolution_result(*pet, age, *cfg),
        r.0.wf(),
{
    let advanced: Option<EvolutionStage> = match pet.evolution_stage {
        EvolutionStage::Egg => if age >= cfg.egg_to_baby_ticks {
            Some(EvolutionStage::Baby)
        } else {
            None
        },
        EvolutionStage::Baby => if age >= cfg.baby_to_teen_ticks && pet.happiness
            >= cfg.evolution_happiness_threshold {
            Some(EvolutionStage::Teen)
        } else {
            None
        },
        EvolutionStage::Teen => if age >= cfg.teen_to_adult_ticks && pet.happiness
            >= cfg.evolution_happiness_threshold && pet.health >= 80 {
            Some(EvolutionStage::Adult)
        } else {
            None
        },
        EvolutionStage::Adult => None,
    };
    match advanced {
        Some(stage) => (Pet { evolution_stage: stage, ..pet.snapshot() }, Some(stage)),
        None => (pet.snapshot(), None),
    }
}

} // verus!
