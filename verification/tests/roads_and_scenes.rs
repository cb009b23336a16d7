use dcl2d::entity::{Anchor, CollisionType};
use dcl2d::parcel::{get_all_parcels_around, Parcel};
use dcl2d::roads::{add_road_at_parcel, is_road, remove_road_at_parcel, roads_data_from_parcels, RoadsData};
use dcl2d::road_maker::{make_background_entity, make_border, make_plain_road_scene};
use dcl2d::scene_maker::{get_corner_type, make_boulevard_entities, make_boulevard_entity, road_scene_can_be_built, make_road_scene, BoulevardType, Border, CornerPosition,
    CornerType, GridSize};
use dcl2d::scenes_io::{get_parcel_file_data, get_scene, register_scene_file, SceneFilesMap, SceneSource};
use dcl2d::spawn::{get_parcels_center_location, level_change, level_spawn_location};

#[test]
fn parcels_around_cover_the_square() {
    assert!(get_all_parcels_around(&Parcel(3, 4), 0).is_empty());
    assert_eq!(get_all_parcels_around(&Parcel(3, 4), 1), vec![Parcel(3, 4)]);
    let around = get_all_parcels_around(&Parcel(3, 4), 2);
    assert_eq!(around.len(), 9);
    for x in 2..5 {
        for y in 3..6 {
            assert!(around.contains(&Parcel(x, y)));
        }
    }
    let around = get_all_parcels_around(&Parcel(0, 0), 3);
    assert_eq!(around.len(), 25);
    for (i, p) in around.iter().enumerate() {
        assert!(!around[i + 1..].contains(p));
        assert!(p.0.abs() <= 2 && p.1.abs() <= 2);
    }
}

#[test]
fn road_map_adds_and_removes_single_parcels() {
    let mut roads = RoadsData::new();
    assert!(!is_road(&Parcel(1, 1), &roads));
    add_road_at_parcel(&Parcel(1, 1), &mut roads);
    add_road_at_parcel(&Parcel(-1, 2), &mut roads);
    assert!(is_road(&Parcel(1, 1), &roads));
    assert!(is_road(&Parcel(-1, 2), &roads));
    assert!(!is_road(&Parcel(1, 2), &roads));
    remove_road_at_parcel(&Parcel(1, 1), &mut roads);
    assert!(!is_road(&Parcel(1, 1), &roads));
    assert!(is_road(&Parcel(-1, 2), &roads));
}

#[test]
fn road_map_from_parcels_lists_them_back() {
    let roads = roads_data_from_parcels(&vec![Parcel(0, 0), Parcel(-32768, 32767), Parcel(0, 0)]);
    let mut listed = roads.road_parcels();
    listed.sort_by_key(|p| (p.0, p.1));
    assert_eq!(listed, vec![Parcel(-32768, 32767), Parcel(0, 0)]);
}

#[test]
fn corners_of_a_lone_road_are_closed() {
    let roads = roads_data_from_parcels(&vec![Parcel(0, 0)]);
    assert_eq!(get_corner_type(&roads, &Parcel(0, 0), CornerPosition::TopLeft), CornerType::Closed);
    let roads = roads_data_from_parcels(&vec![Parcel(0, 0), Parcel(-1, 0), Parcel(0, 1)]);
    assert_eq!(get_corner_type(&roads, &Parcel(0, 0), CornerPosition::TopLeft), CornerType::Open);
    let roads = roads_data_from_parcels(&vec![Parcel(0, 0), Parcel(-1, 0), Parcel(0, 1), Parcel(-1, 1)]);
    assert_eq!(get_corner_type(&roads, &Parcel(0, 0), CornerPosition::TopLeft), CornerType::Empty);
    let roads = roads_data_from_parcels(&vec![Parcel(0, 0), Parcel(-1, 0)]);
    assert_eq!(get_corner_type(&roads, &Parcel(0, 0), CornerPosition::TopLeft), CornerType::Horizontal);
    let roads = roads_data_from_parcels(&vec![Parcel(0, 0), Parcel(0, 1)]);
    assert_eq!(get_corner_type(&roads, &Parcel(0, 0), CornerPosition::TopLeft), CornerType::Vertical);
}

#[test]
fn lone_road_scene_has_background_sidewalks_and_corners() {
    let roads = roads_data_from_parcels(&vec![Parcel(1, 2)]);
    let scene = make_road_scene(&roads, &Parcel(1, 2));
    assert_eq!(scene.name, "Road 1 - 2");
    assert_eq!(scene.level_name, "Road 1 - 2");
    assert_eq!(scene.parcels, vec![Parcel(1, 2)]);
    assert_eq!(scene.path, vec!["..".to_string(), "assets".to_string(), "roads".to_string()]);
    assert_eq!(scene.entities.len(), 9);
    let background = &scene.entities[0];
    assert_eq!(background.name, "Background");
    assert_eq!(background.sprite, "road-background.png");
    assert_eq!((background.location_x, background.location_y, background.layer), (-250, -250, -3));
    let left = &scene.entities[1];
    assert_eq!(left.sprite, "road-left.png");
    assert_eq!((left.location_x, left.location_y, left.layer), (-250, -122, -2));
    assert_eq!(left.anchor, Anchor::BottomLeft);
    assert_eq!(scene.entities[5].sprite, "road-closed-top-left.png");
    assert_eq!(scene.entities[8].sprite, "road-closed-bottom-right.png");
    assert!(scene.entities.iter().all(|e| e.collider.is_none()));
}

#[test]
fn scene_files_read_back_what_was_registered() {
    let mut map = SceneFilesMap::new();
    assert!(get_parcel_file_data(&Parcel(0, 0), &map).is_none());
    register_scene_file(&mut map, "a/scene.2dcl".to_string(), vec![Parcel(0, 0), Parcel(0, 1)]);
    register_scene_file(&mut map, "b/scene.2dcl".to_string(), vec![Parcel(0, 1)]);
    let a = get_parcel_file_data(&Parcel(0, 0), &map).unwrap();
    assert_eq!(a.path, "a/scene.2dcl");
    assert_eq!(a.parcels, vec![Parcel(0, 0), Parcel(0, 1)]);
    let b = get_parcel_file_data(&Parcel(0, 1), &map).unwrap();
    assert_eq!(b.path, "b/scene.2dcl");
    assert!(get_parcel_file_data(&Parcel(1, 0), &map).is_none());
}

#[test]
fn scene_of_a_parcel_comes_from_roads_then_files() {
    let roads = roads_data_from_parcels(&vec![Parcel(5, 5)]);
    let mut map = SceneFilesMap::new();
    register_scene_file(&mut map, "x".to_string(), vec![Parcel(5, 5), Parcel(6, 6)]);
    assert!(matches!(get_scene(&roads, &map, &Parcel(5, 5)), SceneSource::Road(s) if s.name == "Road 5 - 5"));
    assert!(matches!(get_scene(&roads, &map, &Parcel(6, 6)), SceneSource::File(d) if d.path == "x"));
    assert!(matches!(get_scene(&roads, &map, &Parcel(7, 7)), SceneSource::Missing));
}

#[test]
fn center_of_parcels_is_the_middle_of_their_bounds() {
    assert_eq!(get_parcels_center_location(&Vec::new()), (0, 0));
    assert_eq!(get_parcels_center_location(&vec![Parcel(1, 2)]), (500, 1000));
    assert_eq!(get_parcels_center_location(&vec![Parcel(0, 0), Parcel(1, 0), Parcel(0, -3)]), (250, -750));
}

#[test]
fn spawn_location_is_the_level_spawn_point_or_the_center() {
    let parcels = vec![Parcel(2, 0)];
    let points = vec![(10, 20), (-5, 7)];
    assert_eq!(level_spawn_location(&parcels, &points, 1), (995, 7));
    assert_eq!(level_spawn_location(&parcels, &points, 2), (1000, 0));
}

#[test]
fn level_change_respawns_when_another_level_is_shown() {
    assert_eq!(level_change(1, &vec![0]), (true, true));
    assert_eq!(level_change(1, &vec![1]), (false, false));
    assert_eq!(level_change(1, &Vec::new()), (false, true));
    assert_eq!(level_change(1, &vec![0, 1]), (true, false));
    let _ = CollisionType::Solid;
}

#[test]
fn plain_road_scene_has_full_borders() {
    let background = make_background_entity();
    assert_eq!((background.location_x, background.location_y, background.layer), (0, 0, -3));
    assert_eq!(background.anchor, Anchor::Center);
    let top = make_border(&Border::Top);
    assert_eq!(top.len(), 7);
    assert_eq!((top[0].location_x, top[0].location_y), (-250, 250));
    assert_eq!((top[6].location_x, top[6].location_y), (134, 250));
    assert!(top.iter().all(|e| e.name == "Border" && e.sprite == "road-top.png" && e.anchor == Anchor::TopLeft));
    let roads = roads_data_from_parcels(&vec![Parcel(0, 0), Parcel(1, 0)]);
    let scene = make_plain_road_scene(&roads, &Parcel(0, 0));
    assert_eq!(scene.name, "Road 0 - 0");
    assert_eq!(scene.entities.len(), 1 + 3 * 7);
    assert!(scene.entities.iter().all(|e| e.sprite != "road-right.png"));
}

#[test]
fn parcels_around_come_ring_by_ring_in_the_client_order() {
    assert_eq!(
        get_all_parcels_around(&Parcel(0, 0), 2),
        vec![
            Parcel(0, 0),
            Parcel(1, 0),
            Parcel(0, 1),
            Parcel(-1, 0),
            Parcel(0, -1),
            Parcel(-1, 1),
            Parcel(1, -1),
            Parcel(-1, -1),
            Parcel(1, 1),
        ]
    );
    let ring2: Vec<Parcel> = get_all_parcels_around(&Parcel(10, 10), 3)[9..].to_vec();
    assert_eq!(ring2[0], Parcel(12, 10));
    assert_eq!(ring2[4], Parcel(12, 11));
    assert_eq!(ring2[5], Parcel(11, 12));
    assert_eq!(ring2[8], Parcel(12, 9));
    assert_eq!(ring2[15], Parcel(12, 12));
}

#[test]
fn boulevards_of_any_size_have_one_tile_per_cell() {
    let b = make_boulevard_entity(BoulevardType::TopRight, GridSize { x: 4, y: 5 });
    assert_eq!(b.len(), 20);
    assert!(b.iter().all(|e| e.name == "Boulevard" && e.layer == -2 && e.anchor == Anchor::TopRight));
    let last = &b[19];
    assert_eq!(last.sprite, "boulevard-bottom-left.png");
    assert_eq!((last.location_x, last.location_y), (250 - 3 * 128, 250 - 4 * 128));
    assert_eq!(b[0].sprite, "boulevard-background.png");
    assert_eq!((b[0].location_x, b[0].location_y), (250, 250));

    let b = make_boulevard_entity(BoulevardType::TopLeft, GridSize { x: 1, y: 3 });
    assert_eq!(b.len(), 5 + 3);
    assert_eq!(b[0].name, "Bench");
    assert_eq!(b[0].sprite, "Bench_V.png");
    assert_eq!(b[7].sprite, "boulevard-bottom-right.png");
    assert_eq!((b[7].location_x, b[7].location_y), (-250, 250 - 2 * 128));
}

fn summary(entities: &[dcl2d::entity::EntitySpec]) -> Vec<(String, String, i32, i32, i32)> {
    entities.iter().map(|e| (e.name.clone(), e.sprite.clone(), e.layer, e.location_x, e.location_y)).collect()
}

#[test]
fn boulevards_repeat_every_four_parcels() {
    let around = |c: Parcel| {
        let mut v = Vec::new();
        for dx in -2i16..=2 {
            for dy in -2i16..=2 {
                v.push(Parcel(c.0 + dx, c.1 + dy));
            }
        }
        v
    };
    let p = Parcel(1, 0);
    let moved = Parcel(1 + 4, 0 - 8);
    let b = make_boulevard_entities(&roads_data_from_parcels(&around(p)), &p);
    let c = make_boulevard_entities(&roads_data_from_parcels(&around(moved)), &moved);
    assert!(!b.is_empty());
    assert_eq!(summary(&b), summary(&c));
    let other = Parcel(2, 0);
    let d = make_boulevard_entities(&roads_data_from_parcels(&around(other)), &other);
    assert_ne!(summary(&b), summary(&d));
}

#[test]
fn edge_parcels_without_roads_are_handled() {
    let empty = RoadsData::new();
    assert!(make_boulevard_entities(&empty, &Parcel(32766, 0)).is_empty());
    assert_eq!(get_corner_type(&empty, &Parcel(32766, 0), CornerPosition::TopLeft), CornerType::Closed);
    assert_eq!(get_corner_type(&empty, &Parcel(-32767, 0), CornerPosition::TopRight), CornerType::Closed);
    assert!(road_scene_can_be_built(&empty, &Parcel(32766, 0)));
    assert!(!road_scene_can_be_built(&empty, &Parcel(32767, 0)));
    assert!(!road_scene_can_be_built(&empty, &Parcel(0, -32768)));
    let corner = roads_data_from_parcels(&vec![Parcel(32765, 0), Parcel(32765, 1), Parcel(32766, 1)]);
    assert!(road_scene_can_be_built(&corner, &Parcel(32766, 0)));
    let b = make_boulevard_entity(BoulevardType::TopLeft, GridSize { x: 0, y: usize::MAX });
    assert_eq!(b.len(), 5);
}
