use centripetal::config::{keycode_desc, on_rebind_add, on_rebind_remove, Config, KeyCode, KeyboardBindings, RebindObservers};
use centripetal::control::ground::{
    evaluate_ground, ground_jump, ground_move, GroundContact, GroundContacts, GroundControlDirection,
    GroundControlState, GroundControlStatePrevious, GroundJumpParams, GroundJumpState, GroundJumpStep,
    GroundMoveInput, GroundMoveState, GroundMoveStep, Sign,
};
use centripetal::entities::characters::selene::{
    react_selene_animations, AnimationRepeat, AnimationTransition,
};
use centripetal::entity::Entity;
use centripetal::logic::control::sync_input_map;
use centripetal::logic::entities::penumbra::bullet::{simple, spiky};
use centripetal::logic::entities::penumbra::launchable::{
    launch_damage, trigger_launch_charging, update_launch_charging, update_launch_idle, ChargingStep, LaunchCharging,
    LaunchCooldown, LaunchDurations, LaunchFinished, LaunchHit, LaunchIdle, LaunchStep, LaunchTarget, Launched,
};
use centripetal::logic::entities::penumbra::selene_penumbra::{
    draw_selene_launch_disc, on_selene_launched, DiscColor, LaunchDiscStyle, SelenePenumbra,
};
use centripetal::logic::entities::{CollisionLayers, EntityLayers, Health, MaxHealth, TryHurt};
use centripetal::logic::level::{Fields, LdtkEntityField};
use centripetal::logic::levels::penumbra_wing_l::{
    next_phase, on_align_collision_end, on_align_collision_start, on_selene_killed, on_selene_respawned,
    script_entities, update_align_time, IntroShown, SeleneUi, TutorialAlign, TutorialLaunch, TutorialPhase, ATTRACTOR, HOVER_TARGET,
    RING, SELENE, TUTORIAL_MOVE_ALIGN_DURATION,
};
use centripetal::logic::level::LevelEntities;
use centripetal::graphics::sprite_sheet::SpriteSheetLayout;
use centripetal::logic::timed::{update_time_stun, update_timed, TimeScale, TimeStun, Timed};
use std::collections::HashMap;

// ---- Health ----

#[test]
fn health_hurts_and_kills() {
    let mut h = Health::new(10);
    assert!(!h.hurt(3));
    assert_eq!(h.0, 7);
    assert!(h.hurt(7));
    assert_eq!(h.0, 0);
    assert!(!h.hurt(1));
    assert_eq!(h.0, 0);
    assert_eq!(Health::new(0).0, 1);
}

#[test]
fn health_changes_respect_the_maximum() {
    let mut h = Health::new(5);
    assert!(!h.change(10, Some(MaxHealth::new(8))));
    assert_eq!(h.0, 8);
    assert!(h.change(-20, None));
    assert!(!h.change(5, None));
    assert_eq!(h.0, 0);
}

#[test]
fn hurt_requests_resolve() {
    let t = TryHurt::by_entity(Entity(7), 4);
    let o = t.resolve(Some(Health::new(4)), false);
    assert_eq!(o.health, Some(Health(0)));
    assert_eq!(o.killed.map(|k| k.by), Some(Entity(7)));
    assert!(o.despawn);
    let o = t.resolve(Some(Health::new(4)), true);
    assert!(!o.despawn);
    let mut stopped = TryHurt::new(4);
    stopped.stop();
    let o = stopped.resolve(Some(Health::new(4)), false);
    assert_eq!(o.health, Some(Health(4)));
    assert!(o.hurt.is_none());
}

#[test]
fn selene_and_hostiles_interact() {
    let selene = EntityLayers::penumbra_selene();
    let hostile = EntityLayers::penumbra_hostile();
    assert!(selene.filtered_by(&hostile));
    assert!(hostile.filtered_by(&selene));
    assert!(!hostile.filtered_by(&hostile));
}

// ---- Timers and stuns ----

#[test]
fn timers_finish_once_with_overtime() {
    let mut t = Timed::new(100);
    assert_eq!(update_timed(&mut t, 40), None);
    let f = update_timed(&mut t, 230).unwrap();
    assert_eq!((f.count, f.overtime), (2, 70));
    assert!(t.finished());
    assert_eq!(update_timed(&mut t, 500), None);
}

#[test]
fn stuns_slow_time_and_expire() {
    let mut short = TimeStun::short_instant();
    centripetal::logic::timed::on_time_stun_insert(&mut short, 1_000_000_000);
    let mut long = TimeStun::long_smooth();
    centripetal::logic::timed::on_time_stun_insert(&mut long, 1_000_000_000);
    let stuns = vec![(Entity(1), short), (Entity(2), long)];
    let (expired, scale) = update_time_stun(&stuns, 1_100_000_000);
    assert!(expired.is_empty());
    assert_eq!(scale, TimeScale::Stunned);
    let (expired, scale) = update_time_stun(&stuns, 1_500_000_000);
    assert_eq!(expired, vec![Entity(1)]);
    assert_eq!(scale, TimeScale::Recovering(500_000_000));
    let (expired, scale) = update_time_stun(&stuns, 2_000_000_000);
    assert_eq!(expired, vec![Entity(1), Entity(2)]);
    assert_eq!(scale, TimeScale::Normal);
}

// ---- Launching ----

#[test]
fn idle_launchers_start_charging_after_cooldown() {
    let target = LaunchTarget(Some(Entity(9)));
    let idle = LaunchIdle { last_attempted: 1_000 };
    assert_eq!(update_launch_idle(true, &target, &idle, Some(LaunchCooldown(500)), 1_400), None);
    assert_eq!(
        update_launch_idle(true, &target, &idle, Some(LaunchCooldown(500)), 1_500),
        Some(LaunchCharging { index: 0, time: 0 })
    );
    assert_eq!(update_launch_idle(false, &target, &idle, None, 9_000), None);
    assert_eq!(update_launch_idle(true, &LaunchTarget(None), &idle, None, 9_000), None);
}

#[test]
fn charging_moves_through_stages() {
    let d = LaunchDurations(vec![100, 200]);
    let c = LaunchCharging { index: 0, time: 50 };
    assert_eq!(
        update_launch_charging(&d, &c, true, 0, 70),
        ChargingStep::Continue(LaunchCharging { index: 1, time: 20 })
    );
    let c = LaunchCharging { index: 1, time: 150 };
    assert_eq!(update_launch_charging(&d, &c, true, 0, 70), ChargingStep::Finish(LaunchFinished { index: 1 }));
    assert_eq!(update_launch_charging(&d, &c, false, 0, 0), ChargingStep::Finish(LaunchFinished { index: 0 }));
    let c = LaunchCharging { index: 0, time: 10 };
    assert_eq!(update_launch_charging(&d, &c, false, 77, 0), ChargingStep::Cancel(LaunchIdle { last_attempted: 77 }));
    assert_eq!(launch_damage(2), Some(8));
    assert_eq!(launch_damage(3), None);
}

#[test]
fn finished_launches_pass_blocking_hits_nearest_first() {
    let layers = EntityLayers::penumbra_selene();
    let blocker = EntityLayers::penumbra_hostile();
    let ghost = CollisionLayers { memberships: 0, filters: 0 };
    let hits = vec![
        (LaunchHit { entity: Entity(3), data: 30u32 }, blocker, 30),
        (LaunchHit { entity: Entity(4), data: 40u32 }, ghost, 5),
        (LaunchHit { entity: Entity(5), data: 10u32 }, blocker, 10),
    ];
    let (idle, mut t) = trigger_launch_charging(
        Entity(1),
        &LaunchTarget(Some(Entity(2))),
        true,
        &LaunchFinished { index: 1 },
        &layers,
        &hits,
        1234,
    )
    .unwrap();
    assert_eq!(idle, LaunchIdle { last_attempted: 1234 });
    assert_eq!(t.by_entity(), Entity(1));
    assert_eq!(t.at(), Entity(2));
    assert_eq!(t.index(), 1);
    assert_eq!(t.begin(Entity(1)), LaunchStep::Trigger(Entity(1)));
    assert_eq!(t.next(), LaunchStep::Trigger(Entity(5)));
    assert_eq!(t.next(), LaunchStep::Trigger(Entity(3)));
    assert_eq!(t.next(), LaunchStep::Launched(Launched { at: Entity(2), index: 1 }));
    assert!(trigger_launch_charging(
        Entity(1),
        &LaunchTarget(Some(Entity(2))),
        false,
        &LaunchFinished { index: 1 },
        &layers,
        &hits,
        0
    )
    .is_none());
}

#[test]
fn selene_slashes_hurt_by_stage() {
    let (hurt, slash) = on_selene_launched(Entity(1), Launched { at: Entity(2), index: 1 });
    let (at, t) = hurt.unwrap();
    assert_eq!(at, Entity(2));
    assert_eq!((t.by, t.amount), (Entity(1), 4));
    assert_eq!(slash.lifetime, 336_000_000);
    assert!(on_selene_launched(Entity(1), Launched { at: Entity(2), index: 5 }).0.is_none());
}

#[test]
fn launch_disc_styles() {
    let d = LaunchDurations(vec![250, 500, 750]);
    assert_eq!(draw_selene_launch_disc(None, &d), LaunchDiscStyle::Hidden);
    match draw_selene_launch_disc(Some(LaunchCharging { index: 1, time: 40 }), &d) {
        LaunchDiscStyle::Charging { color, thickness_tenths, index, stages, time, duration } => {
            assert_eq!((color, thickness_tenths, index, stages, time, duration), (DiscColor::Orange, 15, 1, 3, 40, 500));
        },
        LaunchDiscStyle::Hidden => panic!("expected a disc"),
    }
    assert_eq!(draw_selene_launch_disc(Some(LaunchCharging { index: 3, time: 0 }), &d), LaunchDiscStyle::Hidden);
}

#[test]
fn selene_reads_her_orbit_direction() {
    let f = Fields(vec![("ccw".to_string(), LdtkEntityField::Bool(true))]);
    assert_eq!(SelenePenumbra::from_level_entity(&f).map(|i| i.ccw), Ok(true));
    let stats = SelenePenumbra::stats();
    assert_eq!(stats.launch_durations.0, vec![250_000_000, 500_000_000, 750_000_000]);
    assert_eq!(stats.health.0, 10);
}

#[test]
fn spiky_bullets_hurt_in_their_order() {
    let h = simple::spiky_collision(Entity(1), Some(Entity(2)));
    assert_eq!(h.iter().map(|(e, t)| (e.0, t.amount)).collect::<Vec<_>>(), vec![(1, 0x7fff_ffff), (2, 1)]);
    let h = spiky::spiky_collision(Entity(1), Some(Entity(2)));
    assert_eq!(h.iter().map(|(e, t)| (e.0, t.amount)).collect::<Vec<_>>(), vec![(2, 1), (1, 0x7fff_ffff)]);
    assert_eq!(spiky::spiky_collision(Entity(1), None).len(), 1);
    let b = spiky::spiky(Entity(8));
    assert_eq!((b.level_entity, b.collider_radius, b.health.0), (Entity(8), 6, 1));
}

// ---- Ground control ----

fn contact(since: u128) -> Option<GroundContact<i32>> {
    Some(GroundContact { since, linear_velocity: Some(5) })
}

#[test]
fn grounded_and_clinging() {
    let c = GroundContacts([contact(10), None, contact(10), None]);
    assert_eq!(c.is_grounded(10, 0, 0), Some(5));
    assert_eq!(c.is_grounded(11, 0, 0), None);
    assert_eq!(c.is_grounded(11, 1, 0), Some(5));
    assert_eq!(c.is_clinging(10, 0), [true, false]);
    assert!(!c.is_head_bumping(10, 0));
    let mut c2 = c;
    c2.clear_ground();
    assert_eq!(c2.is_grounded(10, 5, 0), None);
    assert_eq!(ground_move(true, 3), GroundMoveState::Moving(3));
}

#[test]
fn walking_and_jumping() {
    let mut control = GroundControlState::Idle;
    let mut previous = GroundControlStatePrevious(GroundControlState::Idle);
    let mut direction = GroundControlDirection::Right;
    let mut contacts = GroundContacts([None, None, contact(100), None]);
    let mut jump = GroundJumpState::<u32> { tried: None, acted: false, time: None };
    let walk = GroundMoveInput { state: GroundMoveState::Moving(-1), target_reached: false, target_sign: Sign::Negative, rightward: false };
    let r = evaluate_ground(
        &mut control, &mut previous, &mut direction, &mut contacts, Some(walk), None, &mut jump, 100, 0, 0u32,
    );
    assert_eq!(r.0, Some(GroundMoveStep::Grounded { blocked: false }));
    assert_eq!(control, GroundControlState::Run { decelerating: false });
    assert_eq!(previous, GroundControlStatePrevious(GroundControlState::Idle));
    assert_eq!(direction, GroundControlDirection::Left);

    ground_jump(&mut jump, true, false, 150);
    assert_eq!(jump.tried, Some(150));
    let params = GroundJumpParams::default_params();
    let r = evaluate_ground(
        &mut control, &mut previous, &mut direction, &mut contacts, None, Some(params), &mut jump, 150, 0, 0u32,
    );
    assert_eq!(r.1, Some(GroundJumpStep::Launch(5)));
    assert_eq!(control, GroundControlState::Jump);
    assert_eq!(previous, GroundControlStatePrevious(GroundControlState::Run { decelerating: false }));
    assert!(contacts.0[2].is_none());
    let r = evaluate_ground(
        &mut control, &mut previous, &mut direction, &mut contacts, None, Some(params), &mut jump, 160, 0, 0u32,
    );
    assert_eq!(r.1, Some(GroundJumpStep::Rise));
    ground_jump(&mut jump, false, true, 170);
    let r = evaluate_ground(
        &mut control, &mut previous, &mut direction, &mut contacts, None, Some(params), &mut jump, 170, 0, 0u32,
    );
    assert_eq!(r.1, Some(GroundJumpStep::Release(0)));
}

// ---- The level's script ----

#[test]
fn hovering_tutorial_time() {
    let mut a = TutorialAlign { time: 0, within: true };
    let p = update_align_time(&mut a, 1_000_000_000);
    assert!(!p.done && p.lit);
    let p = update_align_time(&mut a, 9_000_000_000);
    assert!(p.done);
    assert_eq!(a.time, TUTORIAL_MOVE_ALIGN_DURATION);
    let mut b = TutorialAlign { time: 100, within: false };
    let p = update_align_time(&mut b, 200);
    assert!(!p.lit && !p.done);
    assert_eq!(b.time, 0);
}

#[test]
fn hovering_hint_shows_once() {
    let mut a = TutorialAlign { time: 600_000_000, within: false };
    let mut hinted = false;
    on_align_collision_start(&mut a, true);
    assert!(a.within);
    assert!(on_align_collision_end(&mut a, &mut hinted, true, true));
    assert!(!a.within && hinted);
    on_align_collision_start(&mut a, true);
    assert!(!on_align_collision_end(&mut a, &mut hinted, true, true));
    on_align_collision_start(&mut a, false);
    assert!(!a.within);
}

#[test]
fn tutorial_ui_comes_back_after_respawn() {
    let mut ui = SeleneUi(Some(Entity(4)));
    let hidden = on_selene_killed(&mut ui, true);
    assert_eq!(hidden, Some(Entity(4)));
    assert_eq!(ui, SeleneUi(None));
    assert!(on_selene_respawned(&mut ui, Entity(4), true));
    assert_eq!(ui, SeleneUi(Some(Entity(4))));
    assert!(!on_selene_respawned(&mut ui, Entity(5), true));
}

#[test]
fn script_phases_and_entities() {
    let normal = TutorialLaunch::Normal;
    let special = TutorialLaunch::Special;
    assert_eq!(next_phase(TutorialPhase::SpawningAttractor, normal), Some(TutorialPhase::SpawningSelene));
    assert_eq!(next_phase(TutorialPhase::Launch, normal), Some(TutorialPhase::ParryOne));
    assert_eq!(next_phase(TutorialPhase::Launch, special), Some(TutorialPhase::End));
    assert_eq!(next_phase(TutorialPhase::ParryOne, special), Some(TutorialPhase::ParryMultiple));
    assert_eq!(next_phase(TutorialPhase::ParryMultiple, normal), Some(TutorialPhase::End));
    assert_eq!(next_phase(TutorialPhase::End, normal), None);
    let mut map = HashMap::new();
    map.insert(SELENE, Entity(1));
    map.insert(ATTRACTOR, Entity(2));
    map.insert(RING, Entity(3));
    map.insert(HOVER_TARGET, Entity(4));
    let entities = LevelEntities(map);
    let e = script_entities(IntroShown(false), &entities).unwrap();
    assert_eq!((e.selene, e.attractor, e.ring, e.hover_target), (Entity(1), Entity(2), Entity(3), Entity(4)));
    assert!(script_entities(IntroShown(true), &entities).is_none());
    assert_eq!(SELENE, 0x332e5310_3740_11f0_b0d1_4b444b848a1e);
}

#[test]
fn selene_animations_react() {
    let prev = GroundControlStatePrevious(GroundControlState::Idle);
    let r = react_selene_animations("idle", false, true, prev, GroundControlState::Run { decelerating: false }, GroundControlDirection::Left);
    assert_eq!(r.animation, Some(("run_trans_left", AnimationRepeat::Halt, AnimationTransition::Discrete)));
    assert_eq!(r.facing, Some(GroundControlDirection::Left));
    let r = react_selene_animations("run_trans_left", true, false, prev, GroundControlState::Run { decelerating: false }, GroundControlDirection::Left);
    assert_eq!(r.animation, Some(("run_left", AnimationRepeat::Loop, AnimationTransition::Continuous)));
    let r = react_selene_animations(
        "run_right",
        false,
        true,
        GroundControlStatePrevious(GroundControlState::Run { decelerating: false }),
        GroundControlState::Idle,
        GroundControlDirection::Right,
    );
    assert_eq!(r.animation, Some(("run_trans_right", AnimationRepeat::Halt, AnimationTransition::Discrete)));
    let r = react_selene_animations(
        "run_trans_right",
        true,
        true,
        GroundControlStatePrevious(GroundControlState::Run { decelerating: false }),
        GroundControlState::Run { decelerating: true },
        GroundControlDirection::Right,
    );
    assert_eq!(r.animation, None);
    let r = react_selene_animations("jump", false, false, prev, GroundControlState::Jump, GroundControlDirection::Right);
    assert_eq!(r.animation, None);
    assert_eq!(r.facing, None);
}

// ---- Configuration ----

#[test]
fn key_descriptions() {
    assert_eq!(keycode_desc(KeyCode::KeyZ), Some("Z"));
    assert_eq!(keycode_desc(KeyCode::F35), None);
}

#[test]
fn input_maps_follow_the_bindings() {
    let c = Config::from_parts(KeyboardBindings::default(), "keybinds.conf".to_string());
    let (player, attracted, launch) = sync_input_map(&c);
    assert_eq!(player.attack, KeyCode::KeyZ);
    assert_eq!(player.move_dpad, [KeyCode::KeyW, KeyCode::KeyS, KeyCode::KeyA, KeyCode::KeyD]);
    assert_eq!(attracted.hover, [KeyCode::ArrowDown, KeyCode::ArrowUp]);
    assert_eq!(launch.launch, c.inner().launch);
    assert_eq!(c.path(), "keybinds.conf");
}

#[test]
fn timed_from_anim_lasts_as_long_as_the_tag() {
    let sheet = SpriteSheetLayout {
        frames: vec![],
        durations: vec![100, 200, 300, 400],
        tags: vec![("in".to_string(), (1, 3)), ("all".to_string(), (0, 6)), ("in".to_string(), (2, 4))],
    };
    // A later tag of the same name replaces an earlier one.
    assert_eq!(Timed::from_anim(Some(&sheet), "in").lifetime, 700);
    // Frames past the end of the sheet count nothing.
    assert_eq!(Timed::from_anim(Some(&sheet), "all").lifetime, 1000);
    assert_eq!(Timed::from_anim(Some(&sheet), "out").lifetime, 1);
    assert_eq!(Timed::from_anim(None, "in").lifetime, 1);
    let t = Timed::from_anim(Some(&sheet), "all");
    assert_eq!(t.life(), 0);
    assert!(!t.finished());
}

#[test]
fn rebind_remove_undoes_add() {
    let mut observers = RebindObservers::new();
    on_rebind_add(&mut observers, Entity(1));
    on_rebind_add(&mut observers, Entity(2));
    on_rebind_add(&mut observers, Entity(2));
    assert_eq!(observers.to_vec(), vec![Entity(1), Entity(2)]);
    on_rebind_remove(&mut observers, Entity(2));
    assert!(!observers.contains(Entity(2)));
    assert!(observers.contains(Entity(1)));
    assert_eq!(observers.to_vec(), vec![Entity(1)]);
}
