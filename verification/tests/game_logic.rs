use dcl2d::animation::{update_interact_icon_visibility, AnimationRange, AnimatorState, NamedAnimation};
use dcl2d::collision::{check_player_collision, collision_applies_for_current_parcel, get_box_collisions,
    get_mask_collision, is_in_level_change_trigger, mask_collision_cells, player_is_in_trigger, same_parcels, BoxProbe, CollisionResult,
    TileProbe};
use dcl2d::entity::CollisionType;
use dcl2d::parcel::Parcel;
use dcl2d::player::{change_level, exit_level, level_after_keys, level_for_digit_key, level_switch, player_input_state_update, player_interact, switch,
    InputAction, LevelChange, Player, PlayerInputState};
use dcl2d::scene_loader::{default_scenes_despawner, level_changer, level_index_by_name, scene_manager,
    spawning_queue_cleaner, SpawnedScene};
use dcl2d::sprite_animation::{sprite_animator_from_tags, Direction, FrameTag, TagDirection};

fn player() -> Player<(i32, i32), &'static str> {
    Player {
        level_change_stack: Vec::new(),
        input_state: PlayerInputState::Normal,
        current_level: 0,
        current_parcel: Parcel(0, 0),
    }
}

fn trigger(level: usize) -> LevelChange<&'static str> {
    LevelChange { spawn_point: "door", level, parcels: vec![Parcel(0, 0)] }
}

#[test]
fn number_keys_switch_levels() {
    assert_eq!(level_for_digit_key(1), Some(0));
    assert_eq!(level_for_digit_key(9), Some(8));
    assert_eq!(level_for_digit_key(0), Some(9));
    assert_eq!(level_for_digit_key(10), None);
    let mut p = player();
    switch(3, &mut p);
    assert_eq!(p.current_level, 3);
}

#[test]
fn switching_keeps_the_rest_of_the_player() {
    let mut p = player();
    p.input_state = PlayerInputState::ExitingLevel;
    p.current_parcel = Parcel(4, -2);
    change_level(&mut p, (1, 2), &trigger(2));
    switch(7, &mut p);
    assert_eq!(p.current_level, 7);
    assert!(matches!(p.input_state, PlayerInputState::ExitingLevel));
    assert_eq!(p.current_parcel, Parcel(4, -2));
    assert_eq!(p.level_change_stack.len(), 1);
}

#[test]
fn the_last_number_key_pressed_wins() {
    assert_eq!(level_after_keys(4, &vec![]), 4);
    assert_eq!(level_after_keys(4, &vec![2, 5]), 4);
    assert_eq!(level_after_keys(4, &vec![2, 10, 5, 11]), 4);
    assert_eq!(level_after_keys(4, &vec![0]), 9);
    assert_eq!(level_after_keys(4, &vec![0, 1]), 0);
    assert_eq!(level_after_keys(0, &vec![3, 12, 9]), 8);
    assert_eq!(level_after_keys(6, &vec![20, 30]), 6);
}

#[test]
fn level_switch_applies_the_last_number_key() {
    let mut p = player();
    p.current_parcel = Parcel(1, 1);
    level_switch(&mut p, &vec![3, 7]);
    assert_eq!(p.current_level, 6);
    level_switch(&mut p, &vec![42]);
    assert_eq!(p.current_level, 6);
    level_switch(&mut p, &vec![0]);
    assert_eq!(p.current_level, 9);
    assert_eq!(p.current_parcel, Parcel(1, 1));
    assert!(matches!(p.input_state, PlayerInputState::Normal));
    assert!(p.level_change_stack.is_empty());
}

#[test]
fn leaving_a_level_returns_where_it_was_entered() {
    let mut p = player();
    change_level(&mut p, (10, 20), &trigger(2));
    assert_eq!(p.current_level, 2);
    change_level(&mut p, (30, 40), &trigger(5));
    assert_eq!(p.current_level, 5);
    assert_eq!(exit_level(&mut p), Some((30, 40)));
    assert_eq!(p.current_level, 2);
    assert_eq!(exit_level(&mut p), Some((10, 20)));
    assert_eq!(p.current_level, 0);
    assert_eq!(exit_level(&mut p), None);
    assert_eq!(p.current_level, 0);
}

#[test]
fn entering_the_overworld_forgets_the_levels() {
    let mut p = player();
    change_level(&mut p, (1, 1), &trigger(2));
    change_level(&mut p, (2, 2), &trigger(0));
    assert_eq!(p.current_level, 0);
    assert!(p.level_change_stack.is_empty());
}

#[test]
fn interaction_fades_out_and_the_update_completes_it() {
    let mut p = player();
    assert!(!player_interact(&mut p, true, false, None));
    assert!(player_interact(&mut p, true, false, Some(trigger(4))));
    assert!(matches!(p.input_state, PlayerInputState::LoadingLevel(_)));
    assert!(matches!(player_input_state_update(&mut p, false, (0, 0)), InputAction::Wait));
    match player_input_state_update(&mut p, true, (7, 8)) {
        InputAction::EnterLevel(l) => assert_eq!(l.level, 4),
        _ => panic!("expected to enter the level"),
    }
    assert!(matches!(p.input_state, PlayerInputState::Normal));
    assert_eq!(p.current_level, 4);
    assert!(player_interact(&mut p, true, true, Some(trigger(6))));
    assert!(matches!(p.input_state, PlayerInputState::ExitingLevel));
    match player_input_state_update(&mut p, true, (0, 0)) {
        InputAction::ExitLevel(at) => assert_eq!(at, Some((7, 8))),
        _ => panic!("expected to leave the level"),
    }
    assert_eq!(p.current_level, 0);
}

fn animator(current: &str) -> AnimatorState {
    AnimatorState {
        current_state: current.to_string(),
        state_queue: Vec::new(),
        animations: vec![
            NamedAnimation { name: "hidden".to_string(), range: AnimationRange { first: 0, last: 0 } },
            NamedAnimation { name: "fade_in".to_string(), range: AnimationRange { first: 1, last: 3 } },
            NamedAnimation { name: "idle".to_string(), range: AnimationRange { first: 4, last: 5 } },
            NamedAnimation { name: "fade_out".to_string(), range: AnimationRange { first: 6, last: 8 } },
        ],
    }
}

#[test]
fn animator_runs_its_queue_at_the_end_of_an_animation() {
    let mut a = animator("fade_in");
    a.state_queue.push("idle".to_string());
    assert_eq!(a.get_current_animation(), Some(AnimationRange { first: 1, last: 3 }));
    assert_eq!(a.advance_frame(1), (2, false));
    assert_eq!(a.advance_frame(3), (4, true));
    assert_eq!(a.current_state, "idle");
    assert!(a.state_queue.is_empty());
    assert_eq!(a.advance_frame(5), (4, false));
    assert!(!a.update_state("idle".to_string()));
    assert!(a.update_state("hidden".to_string()));
}

#[test]
fn interact_icon_fades_in_and_out() {
    let mut a = animator("hidden");
    assert!(update_interact_icon_visibility(true, &mut a));
    assert_eq!(a.current_state, "fade_in");
    assert_eq!(a.state_queue, vec!["idle".to_string()]);
    assert!(!update_interact_icon_visibility(true, &mut a));
    let mut a = animator("idle");
    assert!(update_interact_icon_visibility(false, &mut a));
    assert_eq!(a.current_state, "fade_out");
    assert_eq!(a.state_queue, vec!["hidden".to_string()]);
}

#[test]
fn sprite_animator_steps_through_tagged_frames() {
    let tags = vec![
        FrameTag { name: "Idle".to_string(), from: 0, to: 2, direction: TagDirection::Pingpong },
        FrameTag { name: "Run".to_string(), from: 3, to: 5, direction: TagDirection::Reverse },
    ];
    let mut a = sprite_animator_from_tags(&tags);
    assert_eq!(a.current_animation.name, "Idle");
    assert_eq!(a.current_animation.direction, Direction::PingpongForward);
    let mut index = 0usize;
    a.update_animation_frame(&mut index);
    assert_eq!(index, 1);
    a.update_animation_frame(&mut index);
    assert_eq!(index, 2);
    a.update_animation_frame(&mut index);
    assert_eq!(index, 1);
    assert_eq!(a.current_animation.direction, Direction::PingpongReverse);
    let started = a.change_animator_state(&mut index, "Run");
    assert_eq!(started.map(|s| s.name), Some("Run".to_string()));
    assert_eq!(index, 5);
    a.update_animation_frame(&mut index);
    assert_eq!(index, 4);
    assert!(a.change_animator_state(&mut index, "Run").is_none());
    a.queue_animation("Idle");
    assert_eq!(a.animation_queue.len(), 1);
    assert_eq!(a.play_next_animation_in_queue(&mut index), 0);
    assert_eq!(a.current_animation.name, "Idle");
    assert_eq!(index, 0);
}

fn hit(collision_type: CollisionType, level: Option<usize>) -> CollisionResult<usize> {
    CollisionResult { hit: true, collision_type, level_change: level }
}

#[test]
fn solid_colliders_block_unless_already_inside_one() {
    let none: Vec<CollisionResult<usize>> = Vec::new();
    let solid = vec![hit(CollisionType::Solid, None)];
    assert!(check_player_collision(&none, &solid));
    assert!(!check_player_collision(&solid, &solid));
    assert!(!check_player_collision(&none, &vec![hit(CollisionType::Trigger, Some(1))]));
}

#[test]
fn first_level_trigger_wins() {
    let collisions = vec![hit(CollisionType::Trigger, None), hit(CollisionType::Solid, Some(9)),
        hit(CollisionType::Trigger, Some(2)), hit(CollisionType::Trigger, Some(3))];
    assert_eq!(is_in_level_change_trigger(&collisions), Some(&2));
    assert!(player_is_in_trigger(&collisions));
    assert_eq!(is_in_level_change_trigger(&vec![hit(CollisionType::Solid, None)]), None);
}

fn scene(parcels: Vec<Parcel>, is_default: bool, level_id: Option<usize>) -> SpawnedScene {
    SpawnedScene { parcels, is_default, level_id }
}

#[test]
fn colliders_count_in_levels_and_on_their_own_parcels() {
    assert!(same_parcels(&vec![Parcel(1, 1)], &vec![Parcel(1, 1)]));
    assert!(!same_parcels(&vec![Parcel(1, 1)], &vec![Parcel(1, 2)]));
    let scenes = vec![scene(vec![Parcel(0, 0)], false, Some(0))];
    assert!(collision_applies_for_current_parcel(&Parcel(5, 5), 1, &vec![Parcel(0, 0)], &scenes));
    assert!(collision_applies_for_current_parcel(&Parcel(0, 0), 0, &vec![Parcel(0, 0)], &scenes));
}

#[test]
fn spawned_parcels_leave_the_spawning_queue() {
    let scenes = vec![scene(vec![Parcel(0, 0), Parcel(0, 1)], false, None)];
    let mut queue = vec![Parcel(0, 1), Parcel(2, 2), Parcel(0, 0), Parcel(3, 3)];
    spawning_queue_cleaner(&mut queue, &scenes);
    assert_eq!(queue, vec![Parcel(2, 2), Parcel(3, 3)]);
}

#[test]
fn overworld_downloads_the_uncovered_parcels_around() {
    let scenes = vec![scene(vec![Parcel(0, 0)], false, Some(0))];
    let spawning = vec![Parcel(1, 1)];
    let mut downloads: Vec<Parcel> = Vec::new();
    scene_manager(0, &Parcel(0, 0), 2, &scenes, &spawning, &mut downloads);
    assert_eq!(downloads.len(), 7);
    assert!(!downloads.contains(&Parcel(0, 0)));
    assert!(!downloads.contains(&Parcel(1, 1)));
    assert!(downloads.contains(&Parcel(-1, -1)));
    let mut downloads = vec![Parcel(9, 9)];
    scene_manager(3, &Parcel(0, 0), 2, &scenes, &spawning, &mut downloads);
    assert_eq!(downloads, vec![Parcel(9, 9)]);
}

#[test]
fn far_scenes_and_overlapping_default_scenes_are_despawned() {
    let scenes = vec![
        scene(vec![Parcel(0, 0)], false, None),
        scene(vec![Parcel(10, 10)], false, None),
        scene(vec![Parcel(0, 0)], true, None),
    ];
    let despawned = default_scenes_despawner(&Parcel(0, 0), 3, &scenes);
    assert!(despawned.contains(&1));
    assert!(despawned.contains(&2));
    assert!(!despawned.contains(&0));
}

#[test]
fn of_two_overlapping_default_scenes_the_first_met_goes() {
    let scenes = vec![
        scene(vec![Parcel(0, 0)], true, None),
        scene(vec![Parcel(0, 0), Parcel(1, 0)], true, None),
        scene(vec![Parcel(9, 9)], false, None),
    ];
    assert_eq!(default_scenes_despawner(&Parcel(0, 0), 3, &scenes), vec![2, 0]);
    let scenes = vec![
        scene(vec![Parcel(1, 0)], false, None),
        scene(vec![Parcel(1, 0)], true, None),
        scene(vec![Parcel(1, 0)], true, None),
    ];
    assert_eq!(default_scenes_despawner(&Parcel(0, 0), 3, &scenes), vec![1, 2]);
}

#[test]
fn a_scene_on_another_level_is_respawned() {
    let scenes = vec![scene(vec![Parcel(1, 1)], false, Some(0)), scene(vec![Parcel(0, 0)], false, Some(2))];
    assert_eq!(level_changer(1, &Parcel(0, 0), &scenes), Some(1));
    assert_eq!(level_changer(2, &Parcel(0, 0), &scenes), None);
    assert_eq!(level_changer(2, &Parcel(5, 5), &scenes), None);
}

#[test]
fn levels_are_found_by_name() {
    let names = vec!["main".to_string(), "cave".to_string(), "cave".to_string()];
    assert_eq!(level_index_by_name(&names, &"cave".to_string()), 1);
    assert_eq!(level_index_by_name(&names, &"attic".to_string()), 0);
}

#[test]
fn first_counting_tile_inside_the_box_is_hit() {
    let tile = |applies, inside, collision_type, has_entity| TileProbe { applies, inside, collision_type, has_entity };
    let tiles = vec![
        tile(false, true, CollisionType::Solid, false),
        tile(true, false, CollisionType::Solid, false),
        tile(true, true, CollisionType::Trigger, false),
        tile(true, true, CollisionType::Trigger, true),
        tile(true, true, CollisionType::Solid, false),
    ];
    assert_eq!(get_mask_collision(&tiles), Some(3));
    assert_eq!(get_mask_collision(&tiles[..3].to_vec()), None);
}

#[test]
fn box_colliders_hit_in_order() {
    let probe = |applies, overlaps| BoxProbe { applies, overlaps };
    let colliders = vec![probe(true, true), probe(false, true), probe(true, false), probe(true, true)];
    assert_eq!(get_box_collisions(&colliders), vec![0, 3]);
}

#[test]
fn mask_cells_are_the_pixels_with_the_channel_set() {
    // 3 x 2 image; alpha set on pixels 1, 3 and 5.
    let mut data = vec![0u8; 24];
    data[4 * 1 + 3] = 255;
    data[4 * 3 + 3] = 1;
    data[4 * 5 + 3] = 9;
    data[4 * 2] = 7;
    assert_eq!(mask_collision_cells(&data, 3, 3), vec![(1, 0), (0, 1), (2, 1)]);
    assert_eq!(mask_collision_cells(&data, 3, 0), vec![(2, 0)]);
}
