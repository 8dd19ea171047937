use petworld::errors::Error;
use petworld::ledger::PetWorldAchievement;
use petworld::pet::EvolutionStage;
use petworld::world::PetWorld;

const OWNER: u64 = 1;
const WORLD_ADDR: u64 = 9;
const ALICE: u64 = 42;
const BOB: u64 = 77;

/// A fully wired pair of components: both initialized, each registered
/// with the other.
fn wired() -> (PetWorld, PetWorldAchievement) {
    let mut world = PetWorld::new(WORLD_ADDR);
    let mut ach = PetWorldAchievement::new();
    world.initialize(OWNER).unwrap();
    ach.initialize(OWNER).unwrap();
    world.set_achievement_contract(OWNER, 8).unwrap();
    ach.set_petworld_contract(OWNER, WORLD_ADDR).unwrap();
    (world, ach)
}

#[test]
fn mint_creates_newborn_egg_and_first_pet_badge() {
    let (mut world, mut ach) = wired();
    let tid = world.mint(ALICE, "Rex".to_string(), 100, &mut ach).unwrap();
    assert_eq!(tid, 1);

    let info = world.get_pet_info(tid, 100).unwrap();
    assert_eq!(info.0, "Rex");
    assert_eq!(info.1, 100); // birth tick
    assert_eq!(info.2, 0); // age
    assert_eq!(info.3, EvolutionStage::Egg);
    assert_eq!(info.4, 100); // happiness
    assert_eq!(info.5, 0); // hunger
    assert_eq!(info.6, 100); // health
    assert!(!info.8); // not dead
    assert_eq!(info.9, 0); // no death timestamp

    assert!(ach.has_earned(ALICE, 0).unwrap());
    assert_eq!(ach.balance_of(ALICE, 0), 1);
    assert_eq!(ach.total_supply(0), 1);
    assert_eq!(ach.get_user_achievement_count(ALICE), 1);
    assert_eq!(world.balance_of(ALICE), 1);
    assert_eq!(world.owner_of(tid).unwrap(), ALICE);
    assert_eq!(world.get_user_pets(ALICE), vec![tid]);
}

#[test]
fn second_mint_does_not_award_first_pet_again() {
    let (mut world, mut ach) = wired();
    world.mint(ALICE, "Rex".to_string(), 0, &mut ach).unwrap();
    world.mint(ALICE, "Fido".to_string(), 0, &mut ach).unwrap();
    assert_eq!(ach.total_supply(0), 1);
    assert_eq!(ach.balance_of(ALICE, 0), 1);
    assert_eq!(world.balance_of(ALICE), 2);
}

#[test]
fn mint_rejects_bad_name_lengths() {
    let (mut world, mut ach) = wired();
    assert_eq!(
        world.mint(ALICE, "".to_string(), 0, &mut ach),
        Err(Error::InvalidNameLength)
    );
    assert_eq!(
        world.mint(ALICE, "abcdefghijklmnopqrstu".to_string(), 0, &mut ach),
        Err(Error::InvalidNameLength)
    );
    // 20 characters are fine.
    assert!(world
        .mint(ALICE, "abcdefghijklmnopqrst".to_string(), 0, &mut ach)
        .is_ok());
}

#[test]
fn forty_ticks_raise_hunger_by_one() {
    let (mut world, mut ach) = wired();
    let tid = world.mint(ALICE, "Rex".to_string(), 0, &mut ach).unwrap();
    world.update_state(tid, 40, 777, &mut ach).unwrap();
    let info = world.get_pet_info(tid, 40).unwrap();
    assert_eq!(info.5, 1); // hunger = floor(40 / 30) = 1
    assert_eq!(info.4, 100); // happiness = 100 - floor(40 / 60) = 100
}

#[test]
fn starving_pet_bleeds_four_health_per_pass_and_dies() {
    let (mut world, mut ach) = wired();
    let tid = world.mint(ALICE, "Rex".to_string(), 0, &mut ach).unwrap();

    // 3000 ticks: hunger saturates at 100, health takes (100-80)/5 = 4.
    world.update_state(tid, 3000, 50, &mut ach).unwrap();
    let info = world.get_pet_info(tid, 3000).unwrap();
    assert_eq!(info.5, 100);
    assert_eq!(info.6, 96);

    // Each further pass takes another 4 until the pet dies.
    let mut tick = 3000;
    for _ in 0..23 {
        tick += 1;
        world.update_state(tid, tick, 51, &mut ach).unwrap();
    }
    let info = world.get_pet_info(tid, tick).unwrap();
    assert_eq!(info.6, 4);
    assert!(!info.8);

    tick += 1;
    world.update_state(tid, tick, 1234, &mut ach).unwrap();
    let info = world.get_pet_info(tid, tick).unwrap();
    assert_eq!(info.6, 0);
    assert!(info.8);
    assert_eq!(info.9, 1234); // wall-clock time of death

    // A dead pet no longer decays.
    world.update_state(tid, tick + 500, 60, &mut ach).unwrap();
    let after = world.get_pet_info(tid, tick + 500).unwrap();
    assert_eq!(after.4, info.4);
    assert_eq!(after.5, info.5);
    assert_eq!(after.6, 0);
    assert!(after.8);
}

fn dead_pet(world: &mut PetWorld, ach: &mut PetWorldAchievement) -> (u128, u32) {
    let tid = world.mint(ALICE, "Rex".to_string(), 0, ach).unwrap();
    let mut tick = 3000;
    world.update_state(tid, tick, 50, ach).unwrap();
    loop {
        let info = world.get_pet_info(tid, tick).unwrap();
        if info.8 {
            return (tid, tick);
        }
        tick += 1;
        world.update_state(tid, tick, 50, ach).unwrap();
    }
}

#[test]
fn revive_resets_stats_and_awards_once() {
    let (mut world, mut ach) = wired();
    let (tid, tick) = dead_pet(&mut world, &mut ach);

    world.revive(ALICE, tid, tick + 10, &mut ach).unwrap();
    let info = world.get_pet_info(tid, tick + 10).unwrap();
    assert_eq!(info.6, 50); // health
    assert_eq!(info.4, 30); // happiness
    assert_eq!(info.5, 50); // hunger
    assert!(!info.8);
    assert_eq!(info.9, 0);
    assert!(ach.has_earned(ALICE, 2).unwrap());
    assert_eq!(ach.total_supply(2), 1);

    // Reviving a living pet is refused.
    assert_eq!(
        world.revive(ALICE, tid, tick + 11, &mut ach),
        Err(Error::EntityNotDead)
    );
    assert_eq!(ach.total_supply(2), 1);
}

#[test]
fn revive_reevaluates_evolution() {
    let (mut world, mut ach) = wired();
    let tid = world.mint(ALICE, "Rex".to_string(), 0, &mut ach).unwrap();
    // Kill the egg before any decay pass, so it dies without evolving.
    world
        .apply_event_effects(ALICE, tid, 0, 0, -200, 0, 99, &mut ach)
        .unwrap();
    let info = world.get_pet_info(tid, 0).unwrap();
    assert!(info.8);
    assert_eq!(info.3, EvolutionStage::Egg);

    // Reviving past the age gate hatches the egg immediately; the other
    // gates stay shut because a revived pet wakes up with happiness 30.
    world.revive(ALICE, tid, 50, &mut ach).unwrap();
    let info = world.get_pet_info(tid, 50).unwrap();
    assert_eq!(info.3, EvolutionStage::Baby);
    assert_eq!((info.4, info.5, info.6), (30, 50, 50));
    assert!(!info.8);
    assert!(ach.has_earned(ALICE, 1).unwrap());
    assert_eq!(world.token_uri(tid).unwrap(), "ipfs://QmBabyMetadata");
}

#[test]
fn feed_and_play_on_dead_pets_are_refused() {
    let (mut world, mut ach) = wired();
    let (tid, tick) = dead_pet(&mut world, &mut ach);
    assert_eq!(
        world.feed(ALICE, tid, tick, 0, &mut ach),
        Err(Error::EntityIsDead)
    );
    assert_eq!(
        world.play(ALICE, tid, tick, 0, &mut ach),
        Err(Error::EntityIsDead)
    );
}

#[test]
fn egg_becomes_baby_at_the_age_gate_and_awards_once() {
    let (mut world, mut ach) = wired();
    let tid = world.mint(ALICE, "Rex".to_string(), 0, &mut ach).unwrap();

    // One tick too early: still an egg.
    world.update_state(tid, 35, 0, &mut ach).unwrap();
    assert_eq!(world.get_pet_info(tid, 35).unwrap().3, EvolutionStage::Egg);

    world.update_state(tid, 36, 0, &mut ach).unwrap();
    assert_eq!(world.get_pet_info(tid, 36).unwrap().3, EvolutionStage::Baby);
    assert!(ach.has_earned(ALICE, 1).unwrap());
    assert_eq!(ach.total_supply(1), 1);
    assert_eq!(world.token_uri(tid).unwrap(), "ipfs://QmBabyMetadata");

    // A second pet of the same holder evolving grants nothing new.
    let tid2 = world.mint(ALICE, "Fido".to_string(), 0, &mut ach).unwrap();
    world.update_state(tid2, 40, 0, &mut ach).unwrap();
    assert_eq!(ach.total_supply(1), 1);
}

#[test]
fn unhappy_baby_does_not_become_teen() {
    let (mut world, mut ach) = wired();
    let tid = world.mint(ALICE, "Rex".to_string(), 0, &mut ach).unwrap();
    world.update_state(tid, 36, 0, &mut ach).unwrap();
    // By tick 6000 happiness has decayed to 1, far below the threshold of
    // 60, so the age gate alone does not suffice.
    world.update_state(tid, 6000, 0, &mut ach).unwrap();
    let info = world.get_pet_info(tid, 6000).unwrap();
    assert_eq!(info.3, EvolutionStage::Baby);
    assert!(info.4 < 60);
}

#[test]
fn one_feed_can_advance_two_stages() {
    let (mut world, mut ach) = wired();
    let tid = world.mint(ALICE, "Rex".to_string(), 0, &mut ach).unwrap();
    // At tick 90 the pet is past both the egg and the baby age gates with
    // happiness still high: the catch-up pass advances Egg to Baby, the
    // post-feed evaluation Baby to Teen.
    world.feed(ALICE, tid, 90, 0, &mut ach).unwrap();
    let info = world.get_pet_info(tid, 90).unwrap();
    assert_eq!(info.3, EvolutionStage::Teen);
    assert!(ach.has_earned(ALICE, 1).unwrap());
    assert!(ach.has_earned(ALICE, 3).unwrap());
    assert_eq!(world.token_uri(tid).unwrap(), "ipfs://QmTeenMetadata");
}

#[test]
fn tenth_feed_awards_the_streak_badge_exactly_once() {
    let (mut world, mut ach) = wired();
    let tid = world.mint(ALICE, "Rex".to_string(), 0, &mut ach).unwrap();
    for i in 0..9 {
        world.feed(ALICE, tid, 0, 0, &mut ach).unwrap();
        assert!(!ach.has_earned(ALICE, 5).unwrap(), "after feed {}", i + 1);
    }
    world.feed(ALICE, tid, 0, 0, &mut ach).unwrap();
    assert!(ach.has_earned(ALICE, 5).unwrap());
    assert_eq!(ach.total_supply(5), 1);
    world.feed(ALICE, tid, 0, 0, &mut ach).unwrap();
    assert_eq!(ach.total_supply(5), 1);
    assert_eq!(ach.balance_of(ALICE, 5), 1);
}

#[test]
fn tenth_play_awards_the_activity_badge_exactly_once() {
    let (mut world, mut ach) = wired();
    let tid = world.mint(ALICE, "Rex".to_string(), 0, &mut ach).unwrap();
    for _ in 0..9 {
        world.play(ALICE, tid, 0, 0, &mut ach).unwrap();
    }
    assert!(!ach.has_earned(ALICE, 6).unwrap());
    world.play(ALICE, tid, 0, 0, &mut ach).unwrap();
    assert!(ach.has_earned(ALICE, 6).unwrap());
    assert_eq!(ach.total_supply(6), 1);
}

#[test]
fn perfect_stats_award_exactly_once() {
    let (mut world, mut ach) = wired();
    let tid = world.mint(ALICE, "Rex".to_string(), 0, &mut ach).unwrap();
    // A newborn has 100/0/100; playing at the mint tick keeps it perfect.
    world.play(ALICE, tid, 0, 0, &mut ach).unwrap();
    assert!(ach.has_earned(ALICE, 4).unwrap());
    assert_eq!(ach.total_supply(4), 1);
    world.play(ALICE, tid, 0, 0, &mut ach).unwrap();
    assert_eq!(ach.total_supply(4), 1);
}

#[test]
fn imperfect_stats_award_nothing() {
    let (mut world, mut ach) = wired();
    let tid = world.mint(ALICE, "Rex".to_string(), 0, &mut ach).unwrap();
    // 40 ticks raise hunger to 1: playing no longer finds perfect stats.
    world.update_state(tid, 40, 0, &mut ach).unwrap();
    world.play(ALICE, tid, 40, 0, &mut ach).unwrap();
    assert!(!ach.has_earned(ALICE, 4).unwrap());
}

#[test]
fn feed_effects_are_exact() {
    let (mut world, mut ach) = wired();
    let tid = world.mint(ALICE, "Rex".to_string(), 0, &mut ach).unwrap();
    // Raise hunger to 100 first, then feed: hunger 100 -> 60.
    world.update_state(tid, 3000, 0, &mut ach).unwrap();
    world.feed(ALICE, tid, 3000, 0, &mut ach).unwrap();
    let info = world.get_pet_info(tid, 3000).unwrap();
    assert_eq!(info.5, 60);
    // Happiness was 50 after decay, +15 from the feeding.
    assert_eq!(info.4, 65);
}

#[test]
fn event_effects_clamp_and_can_kill() {
    let (mut world, mut ach) = wired();
    let tid = world.mint(ALICE, "Rex".to_string(), 0, &mut ach).unwrap();
    world
        .apply_event_effects(ALICE, tid, 50, 30, -20, 0, 0, &mut ach)
        .unwrap();
    let info = world.get_pet_info(tid, 0).unwrap();
    assert_eq!(info.4, 100); // happiness clamped at 100
    assert_eq!(info.5, 30);
    assert_eq!(info.6, 80);

    world
        .apply_event_effects(ALICE, tid, 0, 0, -200, 0, 4242, &mut ach)
        .unwrap();
    let info = world.get_pet_info(tid, 0).unwrap();
    assert_eq!(info.6, 0);
    assert!(info.8);
    assert_eq!(info.9, 4242);
}

#[test]
fn award_is_idempotent_and_failed_attempts_change_nothing() {
    let mut ach = PetWorldAchievement::new();
    ach.initialize(OWNER).unwrap();
    ach.award_achievement(OWNER, BOB, 3, 5).unwrap();
    assert_eq!(
        ach.award_achievement(OWNER, BOB, 3, 5),
        Err(Error::AlreadyEarned)
    );
    assert_eq!(ach.total_supply(3), 1);
    assert_eq!(ach.balance_of(BOB, 3), 1);
    assert_eq!(ach.get_achievement_details(3).unwrap().total_earned, 1);
    assert_eq!(ach.get_pet_achievements(5), vec![3]);
}

#[test]
fn award_validates_caller_and_id() {
    let mut ach = PetWorldAchievement::new();
    assert_eq!(
        ach.award_achievement(OWNER, BOB, 0, 1),
        Err(Error::NotInitialized)
    );
    ach.initialize(OWNER).unwrap();
    assert_eq!(
        ach.award_achievement(ALICE, BOB, 0, 1),
        Err(Error::Unauthorized)
    );
    assert_eq!(
        ach.award_achievement(OWNER, BOB, 8, 1),
        Err(Error::InvalidAchievementId)
    );
}

#[test]
fn unauthorized_companion_rolls_the_whole_mint_back() {
    let mut world = PetWorld::new(WORLD_ADDR);
    let mut ach = PetWorldAchievement::new();
    world.initialize(OWNER).unwrap();
    ach.initialize(OWNER).unwrap();
    // The world points at a companion, but the companion never registered
    // the world: every report is unauthorized, so the mint must not happen.
    world.set_achievement_contract(OWNER, 8).unwrap();
    assert_eq!(
        world.mint(ALICE, "Rex".to_string(), 0, &mut ach),
        Err(Error::Unauthorized)
    );
    assert_eq!(world.balance_of(ALICE), 0);
    assert_eq!(world.owner_of(1), Err(Error::EntityNotFound));
    assert_eq!(ach.total_supply(0), 0);
}

#[test]
fn without_a_companion_no_milestones_are_recorded() {
    let mut world = PetWorld::new(WORLD_ADDR);
    let mut ach = PetWorldAchievement::new();
    world.initialize(OWNER).unwrap();
    ach.initialize(OWNER).unwrap();
    let tid = world.mint(ALICE, "Rex".to_string(), 0, &mut ach).unwrap();
    assert_eq!(tid, 1);
    assert!(!ach.has_earned(ALICE, 0).unwrap());
    assert_eq!(ach.get_user_achievement_count(ALICE), 0);
}

#[test]
fn actions_check_ownership_and_existence() {
    let (mut world, mut ach) = wired();
    let tid = world.mint(ALICE, "Rex".to_string(), 0, &mut ach).unwrap();
    assert_eq!(
        world.feed(BOB, tid, 0, 0, &mut ach),
        Err(Error::NotOwner)
    );
    assert_eq!(
        world.feed(ALICE, 999, 0, 0, &mut ach),
        Err(Error::EntityNotFound)
    );
    assert_eq!(
        world.play(BOB, tid, 0, 0, &mut ach),
        Err(Error::NotOwner)
    );
    assert_eq!(
        world.revive(BOB, tid, 0, &mut ach),
        Err(Error::NotOwner)
    );
    assert_eq!(
        world.update_state(999, 0, 0, &mut ach),
        Err(Error::EntityNotFound)
    );
    assert_eq!(
        world.apply_event_effects(BOB, tid, 1, 1, 1, 0, 0, &mut ach),
        Err(Error::NotOwner)
    );
}

#[test]
fn transfer_moves_ownership_and_balances() {
    let (mut world, mut ach) = wired();
    let t1 = world.mint(ALICE, "Rex".to_string(), 0, &mut ach).unwrap();
    let t2 = world.mint(ALICE, "Fido".to_string(), 0, &mut ach).unwrap();
    assert_eq!(world.get_user_pets(ALICE), vec![t1, t2]);

    world.transfer(ALICE, BOB, t1).unwrap();
    assert_eq!(world.owner_of(t1).unwrap(), BOB);
    assert_eq!(world.balance_of(ALICE), 1);
    assert_eq!(world.balance_of(BOB), 1);
    assert_eq!(world.get_user_pets(BOB), vec![t1]);
    // The sender's enumeration list keeps its entries; the shrunken
    // balance only narrows the window that is read back.
    assert_eq!(world.get_user_pets(ALICE), vec![t1]);

    assert_eq!(world.transfer(ALICE, BOB, t1), Err(Error::NotOwner));
    assert_eq!(world.transfer(BOB, BOB, t1), Ok(()));
    assert_eq!(world.balance_of(BOB), 1);
}

#[test]
fn batch_update_touches_every_known_pet_and_skips_strangers() {
    let (mut world, mut ach) = wired();
    let t1 = world.mint(ALICE, "Rex".to_string(), 0, &mut ach).unwrap();
    let t2 = world.mint(ALICE, "Fido".to_string(), 0, &mut ach).unwrap();
    world.batch_update_state(&vec![], 40, 0, &mut ach).unwrap();
    assert_eq!(world.get_pet_info(t1, 40).unwrap().5, 0);
    world
        .batch_update_state(&vec![t1, 999, t2], 40, 0, &mut ach)
        .unwrap();
    assert_eq!(world.get_pet_info(t1, 40).unwrap().5, 1);
    assert_eq!(world.get_pet_info(t2, 40).unwrap().5, 1);
}

#[test]
fn catalog_is_fixed_and_complete() {
    let mut ach = PetWorldAchievement::new();
    assert!(matches!(
        ach.get_achievement_details(0),
        Err(Error::NotInitialized)
    ));
    ach.initialize(OWNER).unwrap();
    assert_eq!(
        ach.initialize(OWNER),
        Err(Error::AlreadyInitialized)
    );
    let all = ach.get_all_achievements().unwrap();
    assert_eq!(all.len(), 8);
    let names = [
        "First Steps",
        "Metamorphosis",
        "Death Survivor",
        "Triple Evolution",
        "Perfectionist",
        "Streak Master",
        "Active Player",
        "Legend",
    ];
    for (i, a) in all.iter().enumerate() {
        assert_eq!(a.id, i as u128);
        assert_eq!(a.name, names[i]);
        assert_eq!(a.total_earned, 0);
    }
    let d = ach.get_achievement_details(2).unwrap();
    assert_eq!(d.name, "Death Survivor");
    assert_eq!(d.rarity, "Rare");
    assert!(matches!(
        ach.get_achievement_details(8),
        Err(Error::InvalidAchievementId)
    ));
    assert_eq!(ach.has_earned(ALICE, 8), Err(Error::InvalidAchievementId));
}

#[test]
fn user_achievements_list_in_id_order() {
    let mut ach = PetWorldAchievement::new();
    ach.initialize(OWNER).unwrap();
    ach.award_achievement(OWNER, ALICE, 7, 1).unwrap();
    ach.award_achievement(OWNER, ALICE, 2, 1).unwrap();
    ach.award_achievement(OWNER, ALICE, 4, 2).unwrap();
    assert_eq!(ach.get_user_achievements(ALICE), vec![2, 4, 7]);
    assert_eq!(ach.get_user_achievement_count(ALICE), 3);
    assert_eq!(ach.get_pet_achievements(1), vec![2, 7]);
    assert_eq!(ach.get_pet_achievements(2), vec![4]);
}

#[test]
fn adult_is_terminal_and_awards_legend() {
    let (mut world, mut ach) = wired();
    let tid = world.mint(ALICE, "Rex".to_string(), 0, &mut ach).unwrap();
    // Step through the gates with regular feeding to keep stats high.
    world.feed(ALICE, tid, 36, 0, &mut ach).unwrap(); // Egg -> Baby
    world.feed(ALICE, tid, 84, 0, &mut ach).unwrap(); // Baby -> Teen
    world.feed(ALICE, tid, 144, 0, &mut ach).unwrap(); // Teen -> Adult
    let info = world.get_pet_info(tid, 144).unwrap();
    assert_eq!(info.3, EvolutionStage::Adult);
    assert!(ach.has_earned(ALICE, 7).unwrap());
    assert_eq!(world.token_uri(tid).unwrap(), "ipfs://QmAdultMetadata");

    // Adult is terminal.
    world.feed(ALICE, tid, 500, 0, &mut ach).unwrap();
    assert_eq!(world.get_pet_info(tid, 500).unwrap().3, EvolutionStage::Adult);
}

#[test]
fn uri_management() {
    let (mut world, mut ach) = wired();
    let tid = world.mint(ALICE, "Rex".to_string(), 0, &mut ach).unwrap();
    assert_eq!(world.token_uri(tid).unwrap(), "ipfs://QmEggMetadata");
    assert_eq!(world.token_uri(999), Err(Error::EntityNotFound));
    world
        .update_token_uri(ALICE, tid, "ipfs://QmCustom".to_string())
        .unwrap();
    assert_eq!(world.token_uri(tid).unwrap(), "ipfs://QmCustom");
    assert_eq!(
        world.update_token_uri(BOB, tid, "x".to_string()),
        Err(Error::NotOwner)
    );
}

#[test]
fn administration_is_guarded() {
    let mut world = PetWorld::new(WORLD_ADDR);
    assert_eq!(world.owner(), Err(Error::NotInitialized));
    assert_eq!(world.withdraw(OWNER), Err(Error::NotInitialized));
    assert_eq!(
        world.set_achievement_contract(OWNER, 8),
        Err(Error::NotInitialized)
    );
    world.initialize(OWNER).unwrap();
    assert_eq!(world.initialize(OWNER), Err(Error::AlreadyInitialized));
    assert_eq!(world.owner().unwrap(), OWNER);
    assert_eq!(world.withdraw(BOB), Err(Error::Unauthorized));
    assert_eq!(world.withdraw(OWNER), Ok(()));
    assert_eq!(
        world.set_achievement_contract(BOB, 8),
        Err(Error::Unauthorized)
    );

    let mut ach = PetWorldAchievement::new();
    assert_eq!(ach.owner(), Err(Error::NotInitialized));
    assert_eq!(
        ach.set_petworld_contract(OWNER, WORLD_ADDR),
        Err(Error::NotInitialized)
    );
    ach.initialize(OWNER).unwrap();
    assert_eq!(ach.owner().unwrap(), OWNER);
    assert_eq!(
        ach.set_petworld_contract(BOB, WORLD_ADDR),
        Err(Error::Unauthorized)
    );
}

#[test]
fn update_state_before_any_elapsed_tick_is_a_no_op() {
    let (mut world, mut ach) = wired();
    let tid = world.mint(ALICE, "Rex".to_string(), 100, &mut ach).unwrap();
    world.update_state(tid, 100, 0, &mut ach).unwrap();
    let info = world.get_pet_info(tid, 100).unwrap();
    assert_eq!((info.4, info.5, info.6), (100, 0, 100));
}

#[test]
fn well_fed_happy_pet_regains_health() {
    let (mut world, mut ach) = wired();
    let tid = world.mint(ALICE, "Rex".to_string(), 0, &mut ach).unwrap();
    // Damage health by event, keep hunger low and happiness high.
    world
        .apply_event_effects(ALICE, tid, 0, 0, -10, 0, 0, &mut ach)
        .unwrap();
    assert_eq!(world.get_pet_info(tid, 0).unwrap().6, 90);
    // One decay pass with hunger < 30 and happiness > 70: +1 health.
    world.update_state(tid, 30, 0, &mut ach).unwrap();
    let info = world.get_pet_info(tid, 30).unwrap();
    assert_eq!(info.5, 1); // hunger crept up by one
    assert_eq!(info.6, 91); // passive regeneration, at most one per pass
}
