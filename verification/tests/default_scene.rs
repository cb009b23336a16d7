use dcl2d::default_scene::{
    background_from_choices, background_sprites, make_default_background_entities, make_default_random_entities,
    make_default_scene, obstacle_entities_at, obstacle_folder, obstacles_from_placements, random_placement,
    ObstacleKind, RandomObstacle,
};
use dcl2d::entity::{Anchor, CollisionType};
use dcl2d::parcel::Parcel;

fn obstacle(kind: ObstacleKind, name: &str, pngs: &[&str]) -> RandomObstacle {
    RandomObstacle {
        kind,
        folder: obstacle_folder(kind, name),
        png_files: pngs.iter().map(|s| s.to_string()).collect(),
    }
}

#[test]
fn obstacle_folders_sit_under_their_kind() {
    assert_eq!(obstacle_folder(ObstacleKind::NoCollision, "flowers"), "./randomized/no_collision/flowers");
    assert_eq!(obstacle_folder(ObstacleKind::SmallCollision, "rock"), "./randomized/small_collision/rock");
    assert_eq!(obstacle_folder(ObstacleKind::BigCollision, "tree"), "./randomized/big_collision/tree");
}

#[test]
fn background_sprite_paths() {
    let names = vec!["a.png".to_string(), "b.png".to_string()];
    assert_eq!(background_sprites(0, &names), vec!["./background/a.png".to_string(), "./background/b.png".to_string()]);
    assert_eq!(
        background_sprites(2, &names)[0],
        "../../../default_scene/assets./background/a.png"
    );
    assert_eq!(background_sprites(1, &names)[1], "../../default_scene/assets./background/b.png");
}

#[test]
fn obstacle_entities_share_place_and_collider() {
    let tree = obstacle(ObstacleKind::BigCollision, "tree", &["trunk.png", "leaves.png"]);
    let entities = obstacle_entities_at(&tree, -60, 150);
    assert_eq!(entities.len(), 2);
    assert_eq!(entities[0].name, "trunk.png");
    assert_eq!(entities[0].sprite, "./randomized/big_collision/tree/trunk.png");
    assert_eq!(entities[1].sprite, "./randomized/big_collision/tree/leaves.png");
    for e in &entities {
        assert_eq!((e.location_x, e.location_y, e.layer), (-60, 150, 0));
        assert_eq!(e.anchor, Anchor::BottomCenter);
        let c = e.collider.unwrap();
        assert_eq!(c.collision_type, CollisionType::Solid);
        assert_eq!((c.center_x, c.center_y, c.width, c.height), (0, 40, 80, 80));
    }
    let rock = obstacle(ObstacleKind::SmallCollision, "rock", &["rock.png"]);
    let c = obstacle_entities_at(&rock, 0, 0)[0].collider.unwrap();
    assert_eq!((c.center_x, c.center_y, c.width, c.height), (0, 20, 30, 30));
    let flowers = obstacle(ObstacleKind::NoCollision, "flowers", &["f.png"]);
    let f = &obstacle_entities_at(&flowers, 1, 2)[0];
    assert_eq!(f.layer, -1);
    assert!(f.collider.is_none());
}

#[test]
fn only_placed_obstacles_appear_in_order() {
    let obstacles = vec![
        obstacle(ObstacleKind::NoCollision, "a", &["a1.png"]),
        obstacle(ObstacleKind::SmallCollision, "b", &["b1.png", "b2.png"]),
        obstacle(ObstacleKind::BigCollision, "c", &["c1.png"]),
    ];
    let entities = obstacles_from_placements(&obstacles, &vec![Some((1, 2)), None, Some((-100, 70))]);
    let names: Vec<&str> = entities.iter().map(|e| e.name.as_str()).collect();
    assert_eq!(names, vec!["a1.png", "c1.png"]);
    assert_eq!((entities[1].location_x, entities[1].location_y), (-100, 70));
}

#[test]
fn random_placements_stay_in_their_band() {
    for _ in 0..200 {
        let (x, y) = random_placement(ObstacleKind::NoCollision);
        assert!((-200..200).contains(&x) && (-200..200).contains(&y));
        let (x, y) = random_placement(ObstacleKind::SmallCollision);
        assert!((50..200).contains(&x.abs()) && (50..200).contains(&y.abs()));
    }
}

#[test]
fn random_decorations_come_whole_from_their_folders() {
    let obstacles = vec![
        obstacle(ObstacleKind::NoCollision, "a", &["a1.png", "a2.png"]),
        obstacle(ObstacleKind::BigCollision, "c", &["c1.png"]),
    ];
    for _ in 0..50 {
        let entities = make_default_random_entities(&obstacles);
        assert!(entities.len() <= 3);
        for e in &entities {
            assert!(e.sprite.starts_with("./randomized/"));
            assert!(e.sprite.ends_with(&e.name));
        }
    }
}

#[test]
fn background_tiles_follow_the_choices() {
    let sprites = vec!["s0".to_string(), "s1".to_string(), "s2".to_string()];
    let choices: Vec<usize> = (0..49).map(|i| i % 2).collect();
    let tiles = background_from_choices(&sprites, &choices);
    assert_eq!(tiles.len(), 49);
    assert_eq!(tiles[0].sprite, "s0");
    assert_eq!(tiles[1].sprite, "s1");
    assert_eq!((tiles[0].location_x, tiles[0].location_y), (-250, -250));
    assert_eq!((tiles[1].location_x, tiles[1].location_y), (-250, -186));
    assert_eq!((tiles[7].location_x, tiles[7].location_y), (-186, -250));
    assert_eq!((tiles[48].location_x, tiles[48].location_y), (134, 134));
    assert!(tiles.iter().all(|t| t.layer == -5 && t.name == "Background" && t.anchor == Anchor::BottomLeft));
}

#[test]
fn random_background_never_uses_the_last_sprite() {
    let sprites = vec!["s0".to_string(), "s1".to_string(), "s2".to_string()];
    for _ in 0..20 {
        let tiles = make_default_background_entities(&sprites);
        assert_eq!(tiles.len(), 49);
        assert!(tiles.iter().all(|t| t.sprite == "s0" || t.sprite == "s1"));
    }
}

#[test]
fn default_scene_is_decorations_over_background() {
    let sprites = vec!["s0".to_string(), "s1".to_string()];
    let scene = make_default_scene(&Parcel(4, -4), &Vec::new(), &sprites);
    assert_eq!(scene.name, "default_scene");
    assert_eq!(scene.parcels, vec![Parcel(4, -4)]);
    assert_eq!(scene.path, vec!["..".to_string(), "assets".to_string(), "default_scene".to_string()]);
    assert_eq!(scene.entities.len(), 49);
    assert!(scene.entities.iter().all(|t| t.sprite == "s0"));
}
