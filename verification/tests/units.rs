use centripetal::graphics::sprite_sheet::SpriteSheetLayout;
use centripetal::i18n::I18nEntry;
use centripetal::config::{keycode_desc, KeyCode};
use centripetal::asset::{AssetId, AssetIdMapper, MapAssetIds};
use centripetal::i18n::{Locale, LocaleParseError};
use centripetal::config::{config_load_step, ConfigLoad, ConfigRead};
use centripetal::control::ground::GroundMoveState;
use centripetal::entity::Entity;
use centripetal::graphics::animation::{
    animation_visible, next_animation_frame, AnimateKey, AnimationData, AnimationHooks, AnimationMode, HookEvent,
};
use centripetal::logic::entities::penumbra::launchable::{blocking_hits, LaunchFailed, LaunchHit, LaunchStep, TryLaunch};
use centripetal::logic::entities::penumbra::thorn_pillar::thorn_on_try_launch;
use centripetal::logic::entities::penumbra::thorn_ring::thorn_ring_on_collision;
use centripetal::logic::entities::penumbra::attractor::attractor_on_collision;
use centripetal::logic::entities::penumbra::selene_penumbra::on_selene_hurt;
use centripetal::logic::entities::{CollisionLayers, TryHurt};
use centripetal::logic::ldtk::{
    check_layer_readable, check_level_readable, Point2, RawEntityInstance, RawLayerData, RawLayerInstance, RawLevel,
    RawTileInstance,
};
use centripetal::logic::levels::penumbra_wing_l::{
    hide_hint, launch_bullet_delay, launch_bullet_homes, parry_entry, parry_ignores_hurt, parry_multiple_charge_delay,
    parry_multiple_killed, parry_multiple_round_end, parry_one_killed, show_hint, LaunchBulletKilled, LaunchWatch,
    MultipleKilled, ParryEntry, ParryStep, SeleneUi, TutorialLaunch,
};
use centripetal::logic::timed::{TimeStun, Timed};
use centripetal::time::millis;

#[test]
fn millis_counts_nanoseconds() {
    assert_eq!(millis(0), 0);
    assert_eq!(millis(3), 3_000_000);
    assert_eq!(millis(u64::MAX), u64::MAX as u128 * 1_000_000);
}

#[test]
fn a_still_character_moves_along_zero() {
    assert_eq!(GroundMoveState::Moving(5i32).as_axis(0), 5);
    assert_eq!(GroundMoveState::<i32>::Still.as_axis(0), 0);
}

#[test]
fn timers_started_late_keep_within_their_lifetime() {
    let t = Timed::new_at(100, 250);
    assert_eq!(t.lifetime, 100);
    assert_eq!(t.life(), 100);
    let t = Timed::new_at(0, 5);
    assert_eq!(t.lifetime, 1);
    assert_eq!(t.life(), 1);
    let mut t = Timed::new_at(100, 40);
    assert_eq!(t.life(), 40);
    t.repeat_from(30);
    assert_eq!(t.life(), 30);
    assert!(!t.finished());
}

#[test]
fn showing_a_hint_replaces_the_shown_one() {
    let mut ui = SeleneUi(Some(Entity(1)));
    assert_eq!(show_hint(&mut ui, Entity(2)), Some(Entity(1)));
    assert_eq!(ui, SeleneUi(Some(Entity(2))));
    let mut ui = SeleneUi(None);
    assert_eq!(show_hint(&mut ui, Entity(3)), None);
    assert_eq!(ui, SeleneUi(Some(Entity(3))));
}

#[test]
fn tutorial_bullets_fire_fifty_milliseconds_apart() {
    assert_eq!(launch_bullet_delay(0), 150_000_000);
    assert_eq!(launch_bullet_delay(1), 200_000_000);
    assert_eq!(launch_bullet_delay(4), 350_000_000);
}

#[test]
fn the_launch_goes_normal_once_a_bullet_gets_past() {
    let selene = Entity(1);
    let mut w = LaunchWatch::new();
    assert_eq!(w.outcome, TutorialLaunch::Special);
    assert_eq!(w.on_bullet_killed(selene, selene), LaunchBulletKilled { stop_homing: false, done: false });
    assert_eq!(w.outcome, TutorialLaunch::Special);
    assert!(launch_bullet_homes(w.outcome));
    assert_eq!(w.on_bullet_killed(Entity(7), selene), LaunchBulletKilled { stop_homing: true, done: false });
    assert_eq!(w.outcome, TutorialLaunch::Normal);
    assert!(!launch_bullet_homes(w.outcome));
    w.on_bullet_killed(selene, selene);
    w.on_bullet_killed(selene, selene);
    assert_eq!(w.on_bullet_killed(selene, selene), LaunchBulletKilled { stop_homing: false, done: true });
    assert_eq!(w.outcome, TutorialLaunch::Normal);
    assert_eq!(w.killed, 5);
}

#[test]
fn parrying_lessons_are_skipped_after_a_special_launch() {
    assert_eq!(parry_entry(TutorialLaunch::Special), ParryEntry { special_dialog: true, skip: true });
    assert_eq!(parry_entry(TutorialLaunch::Normal), ParryEntry { special_dialog: false, skip: false });
}

#[test]
fn the_first_parrying_lesson() {
    let (selene, bullet) = (Entity(1), Entity(2));
    assert_eq!(parry_one_killed(1, selene, bullet, selene), ParryStep::Success);
    assert_eq!(parry_one_killed(1, bullet, bullet, selene), ParryStep::RetryAfterDialog { dialog: 1, next: 2 });
    assert_eq!(parry_one_killed(2, bullet, bullet, selene), ParryStep::RetryAfterDialog { dialog: 2, next: 3 });
    assert_eq!(parry_one_killed(3, bullet, bullet, selene), ParryStep::Retry { next: 3 });
    assert_eq!(parry_one_killed(1, Entity(9), bullet, selene), ParryStep::Retry { next: 1 });
}

#[test]
fn the_second_parrying_lesson() {
    let selene = Entity(1);
    let mut parried: usize = 0;
    assert_eq!(parry_multiple_killed(&mut parried, selene, selene), MultipleKilled::Parried { all: false });
    assert_eq!(parry_multiple_killed(&mut parried, Entity(3), selene), MultipleKilled::Failed);
    assert_eq!(parried, 1);
    assert_eq!(parry_multiple_killed(&mut parried, selene, selene), MultipleKilled::Parried { all: false });
    assert_eq!(parry_multiple_killed(&mut parried, selene, selene), MultipleKilled::Parried { all: true });
    assert_eq!(parry_multiple_round_end(1, 3), ParryStep::Success);
    assert_eq!(parry_multiple_round_end(1, 2), ParryStep::RetryAfterDialog { dialog: 1, next: 2 });
    assert_eq!(parry_multiple_round_end(2, 0), ParryStep::RetryAfterDialog { dialog: 2, next: 3 });
    assert_eq!(parry_multiple_round_end(3, 1), ParryStep::Retry { next: 3 });
    assert_eq!(parry_multiple_charge_delay(0), 0);
    assert_eq!(parry_multiple_charge_delay(2), 500_000_000);
    let bullets = vec![Entity(4), Entity(5), Entity(6)];
    assert!(parry_ignores_hurt(Entity(5), &bullets));
    assert!(!parry_ignores_hurt(Entity(7), &bullets));
}

#[test]
fn hiding_a_hint_leaves_other_hints() {
    let mut ui = SeleneUi(Some(Entity(2)));
    assert_eq!(hide_hint(&mut ui, Entity(3)), None);
    assert_eq!(ui, SeleneUi(Some(Entity(2))));
    assert_eq!(hide_hint(&mut ui, Entity(2)), Some(Entity(2)));
    assert_eq!(ui, SeleneUi(None));
}

#[test]
fn default_layers_interact_with_everything() {
    let l = CollisionLayers::default_layers();
    assert_eq!(l.memberships, 1);
    assert_eq!(l.filters, u32::MAX);
}

#[test]
fn blocking_hits_keep_their_order() {
    let launcher = CollisionLayers { memberships: 2, filters: u32::MAX };
    let hit = |e: u64, d: u32| LaunchHit { entity: Entity(e), data: d };
    let hits = vec![
        (hit(1, 10), CollisionLayers { memberships: 4, filters: 2 }),
        (hit(2, 20), CollisionLayers { memberships: 4, filters: 4 }),
        (hit(3, 30), CollisionLayers { memberships: 4, filters: 6 }),
    ];
    assert_eq!(blocking_hits(&launcher, &hits), vec![hit(1, 10), hit(3, 30)]);
    assert_eq!(blocking_hits(&launcher, &vec![]), Vec::<LaunchHit<u32>>::new());
}

#[test]
fn continuous_switches_keep_the_frame_time() {
    let a = AnimateKey::continuous("walk".to_string());
    assert_eq!(a.key, "walk");
    assert!(!a.reset_duration());
    assert!(a.fire_exit());
    let b = AnimateKey::reset("walk".to_string());
    assert!(b.reset_duration());
}

#[test]
fn entering_a_tag_goes_to_its_first_frame() {
    let mut d = AnimationData { time: 70, frame: 9, finished: true };
    d.enter_tag(3, false);
    assert_eq!(d, AnimationData { time: 70, frame: 3, finished: false });
    d.enter_tag(5, true);
    assert_eq!(d, AnimationData { time: 0, frame: 5, finished: false });
}

#[test]
fn the_frame_after_the_last_depends_on_the_mode() {
    assert_eq!(next_animation_frame(AnimationMode::Repeat, 5, 2, 5), Some(2));
    assert_eq!(next_animation_frame(AnimationMode::Finish, 5, 2, 5), None);
    assert_eq!(next_animation_frame(AnimationMode::Saturate, 5, 2, 5), None);
    assert_eq!(next_animation_frame(AnimationMode::Saturate, 3, 2, 5), Some(4));
}

#[test]
fn only_finished_finishing_animations_hide() {
    let done = AnimationData { time: 0, frame: 0, finished: true };
    let running = AnimationData { time: 0, frame: 0, finished: false };
    assert!(!animation_visible(&done, AnimationMode::Finish));
    assert!(animation_visible(&done, AnimationMode::Saturate));
    assert!(animation_visible(&done, AnimationMode::Repeat));
    assert!(animation_visible(&running, AnimationMode::Finish));
}

#[test]
fn exit_hooks_run_on_leaving_their_tag() {
    let hooks = AnimationHooks::new().on_exit("in".to_string(), 1u8).on_exit("in".to_string(), 2u8);
    assert_eq!(hooks.hooks(HookEvent::Exit, "in"), Some(&vec![1u8, 2u8]));
    assert_eq!(hooks.hooks(HookEvent::Enter, "in"), None);
    assert!(hooks.has_hooks(HookEvent::Exit));
    assert!(!hooks.has_hooks(HookEvent::Done));
}

#[test]
fn settings_load_steps() {
    assert_eq!(config_load_step(ConfigRead::Parsed(5u8)), ConfigLoad::Use(5u8));
    assert_eq!(config_load_step(ConfigRead::<u8>::Invalid), ConfigLoad::WriteDefault);
    assert_eq!(config_load_step(ConfigRead::<u8>::NotFound), ConfigLoad::WriteDefault);
    assert_eq!(config_load_step(ConfigRead::<u8>::Failed), ConfigLoad::Fail);
}

#[test]
fn selene_hurt_stuns_time_briefly() {
    let (stun, effect) = on_selene_hurt();
    assert_eq!(stun, TimeStun::short_instant());
    assert_eq!(effect.lifetime, 300_000_000);
    assert_eq!(effect.life(), 0);
}

fn layer(height: u32, grid_size: u32, data: RawLayerData) -> RawLayerInstance {
    RawLayerInstance { id: "l".to_string(), width: 2, height, grid_size, data }
}

fn entity_at(y: u32) -> RawEntityInstance {
    RawEntityInstance { id: "e".to_string(), iid: 1, px: Point2 { x: 0, y }, field_instances: vec![] }
}

fn grid(cells: usize, tile_y: Option<u32>) -> RawLayerData {
    RawLayerData::IntGrid {
        int_grid_csv: vec![0; cells],
        auto_layer_tiles: tile_y.map(|y| {
            vec![RawTileInstance { alpha_bits: 0, px: Point2 { x: 0, y }, src: Point2 { x: 0, y: 0 }, t: 0 }]
        }),
        tileset: None,
        tileset_image: String::new(),
    }
}

#[test]
fn readable_layers() {
    assert!(check_layer_readable(&layer(2, 16, RawLayerData::Entities(vec![entity_at(32)]))));
    assert!(!check_layer_readable(&layer(2, 16, RawLayerData::Entities(vec![entity_at(33)]))));
    assert!(!check_layer_readable(&layer(0, 16, RawLayerData::Entities(vec![]))));
    assert!(!check_layer_readable(&layer(0x10000, 0x10000, RawLayerData::Entities(vec![]))));
    assert!(check_layer_readable(&layer(2, 16, grid(4, Some(32)))));
    assert!(!check_layer_readable(&layer(2, 16, grid(5, None))));
    assert!(!check_layer_readable(&layer(2, 16, grid(4, Some(33)))));
    let mut zero_wide = layer(2, 16, grid(1, None));
    zero_wide.width = 0;
    assert!(!check_layer_readable(&zero_wide));
}

#[test]
fn a_level_is_readable_when_every_layer_is() {
    let level = |layers: Vec<RawLayerInstance>| RawLevel {
        bg_color: "000".to_string(),
        width_px: 1,
        height_px: 1,
        layer_instances: layers,
        field_instances: vec![],
    };
    assert!(check_level_readable(&level(vec![])));
    assert!(check_level_readable(&level(vec![layer(2, 16, grid(4, None))])));
    assert!(!check_level_readable(&level(vec![layer(2, 16, grid(4, None)), layer(0, 16, grid(0, None))])));
}

#[test]
fn thorns_refuse_launches_through_them() {
    let hits = vec![LaunchHit { entity: Entity(3), data: 0u8 }];
    let mut launch = TryLaunch::new(Entity(1), Entity(9), 0, hits);
    assert_eq!(launch.begin(Entity(1)), LaunchStep::Trigger(Entity(1)));
    assert_eq!(launch.next(), LaunchStep::Trigger(Entity(3)));
    assert_eq!(thorn_on_try_launch(&mut launch, Entity(3)), Some((Entity(1), TryHurt::by_entity(Entity(3), 1))));
    assert_eq!(launch.next(), LaunchStep::Failed(LaunchFailed { stopped_by: Entity(3) }));

    let mut own = TryLaunch::new(Entity(3), Entity(9), 0, Vec::<LaunchHit<u8>>::new());
    assert_eq!(own.begin(Entity(3)), LaunchStep::Trigger(Entity(3)));
    assert_eq!(thorn_on_try_launch(&mut own, Entity(3)), None);
    assert!(matches!(own.next(), LaunchStep::Launched(_)));
}

#[test]
fn thorn_rings_kill_what_touches_them() {
    assert_eq!(
        thorn_ring_on_collision(Entity(5), Some(Entity(6))),
        Some((Entity(6), TryHurt::by_entity(Entity(5), 0x7fff_ffff)))
    );
    assert_eq!(thorn_ring_on_collision(Entity(5), None), None);
}

#[test]
fn attractors_crush_what_touches_them() {
    assert_eq!(
        attractor_on_collision(Entity(5), Some(Entity(6)), true),
        Some((Entity(6), TryHurt::by_entity(Entity(5), 1_000_000)))
    );
    assert_eq!(attractor_on_collision(Entity(5), Some(Entity(6)), false), None);
    assert_eq!(attractor_on_collision(Entity(5), None, true), None);
}

struct Offset(u64, usize);

impl AssetIdMapper for Offset {
    fn map(&mut self, id: u64) -> u64 {
        self.1 += 1;
        id + self.0
    }
}

#[test]
fn asset_ids_take_the_mappers_names() {
    let mut id = AssetId(5);
    let mut mapper = Offset(100, 0);
    id.map_asset_ids(&mut mapper);
    assert_eq!(id, AssetId(105));
    assert_eq!(mapper.1, 1);
}

#[test]
fn locales_parse_case_aside() {
    assert_eq!("EnUS".parse::<Locale>(), Ok(Locale::EnUS));
    assert_eq!("enus".parse::<Locale>(), Ok(Locale::EnUS));
    assert_eq!("en-US".parse::<Locale>(), Err(LocaleParseError));
}

#[test]
fn key_labels_differ() {
    let keys = [KeyCode::PageDown, KeyCode::PageUp, KeyCode::AltLeft, KeyCode::AltRight, KeyCode::KeyA, KeyCode::Digit0, KeyCode::ArrowUp];
    for (i, a) in keys.iter().enumerate() {
        let la = keycode_desc(*a).unwrap();
        assert!(!la.is_empty());
        for b in &keys[i + 1..] {
            assert_ne!(Some(la), keycode_desc(*b));
        }
    }
}

#[test]
fn parsed_text_is_the_input_without_markup() {
    let e = I18nEntry::from_str("Hello [b, s: 12]{name}[]! [[x]] {{y}}").unwrap();
    let text: String = e.format(&vec![]).into_iter().map(|(t, _)| t).collect();
    assert_eq!(text, "Hello ! [x] {y}");
}

#[test]
fn switching_animation_keys() {
    let sheet = SpriteSheetLayout { frames: vec![], durations: vec![1, 2, 3], tags: vec![("walk".to_string(), (1, 2))] };
    let data = AnimationData { time: 9, frame: 0, finished: true };
    let o = AnimateKey::continuous("walk".to_string()).apply("idle".to_string(), Some(&sheet), data);
    assert_eq!(o.key, "walk");
    assert_eq!(o.exit, Some("idle".to_string()));
    assert_eq!(o.enter, Some("walk".to_string()));
    assert_eq!(o.data, AnimationData { time: 9, frame: 1, finished: false });
    let o = AnimateKey::reset("walk".to_string()).apply("idle".to_string(), Some(&sheet), data);
    assert_eq!(o.data, AnimationData { time: 0, frame: 1, finished: false });
    let o = AnimateKey::reset("jump".to_string()).apply("idle".to_string(), Some(&sheet), data);
    assert_eq!(o.key, "jump");
    assert_eq!(o.enter, None);
    assert_eq!(o.data, data);
    let o = AnimateKey::reset("walk".to_string()).apply("idle".to_string(), None, data);
    assert_eq!(o.enter, None);
}
