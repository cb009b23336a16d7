use dcl2d::avatar::{
    avatar_spritesheet, body_shape_of, glb_loading_count, glb_role_of, glb_role_with, material_color_of, state_updater,
    AvatarCaptureAction, AvatarCaptureState, AvatarColor, BodyShape, GlbRole,
};
use dcl2d::sheet::BlendMode;
use dcl2d::sprite_animation::TagDirection;

#[test]
fn avatar_sheet_lays_frames_one_under_the_other() {
    let sheet = avatar_spritesheet();
    assert_eq!(sheet.frames.len(), 25);
    let f = &sheet.frames[0];
    assert_eq!(f.filename, "avatar_body 0.aseprite");
    assert_eq!((f.frame.x, f.frame.y, f.frame.w, f.frame.h), (0, 0, 640, 300));
    assert_eq!(f.duration, 250);
    let f = &sheet.frames[12];
    assert_eq!(f.filename, "avatar_body 12.aseprite");
    assert_eq!(f.frame.y, 12 * 360);
    assert_eq!(f.duration, 60);
    assert_eq!((f.source_size.w, f.source_size.h), (640, 360));
    assert!(!f.rotated && !f.trimmed);
}

#[test]
fn avatar_sheet_meta_names_the_three_animations() {
    let meta = avatar_spritesheet().meta;
    assert_eq!(meta.app, "https://www.aseprite.org/");
    assert_eq!(meta.version, "1.2.39-x64");
    assert_eq!(meta.format, "RGBA8888");
    assert_eq!((meta.size.w, meta.size.h), (3220, 360));
    assert_eq!(meta.scale, "1");
    assert_eq!(meta.image.as_deref(), Some("avatar_body.png"));
    let tags = meta.frame_tags.unwrap();
    let t: Vec<(String, u32, u32, TagDirection)> =
        tags.iter().map(|t| (t.name.clone(), t.from, t.to, t.direction)).collect();
    assert_eq!(
        t,
        vec![
            ("Idle".to_string(), 0, 4, TagDirection::Pingpong),
            ("RunDown".to_string(), 5, 14, TagDirection::Forward),
            ("RunUp".to_string(), 15, 24, TagDirection::Forward),
        ]
    );
    let layers = meta.layers.unwrap();
    assert_eq!(layers.len(), 1);
    assert_eq!(layers[0].name, "Body");
    assert_eq!(layers[0].opacity, 255);
    assert_eq!(layers[0].blend_mode, BlendMode::Normal);
}

#[test]
fn capture_poses_every_frame_then_captures() {
    let mut state = AvatarCaptureState::WaitingForRender;
    assert_eq!(state_updater(state, false), (AvatarCaptureState::WaitingForRender, AvatarCaptureAction::Nothing));
    state = state_updater(state, true).0;
    assert_eq!(state, AvatarCaptureState::Idle(0));
    let mut actions = Vec::new();
    while state != AvatarCaptureState::Finished {
        let (next, action) = state_updater(state, true);
        actions.push(action);
        state = next;
    }
    assert_eq!(actions.len(), 28);
    assert_eq!(actions[0], AvatarCaptureAction::Pose(1));
    assert_eq!(actions[5], AvatarCaptureAction::StartRunning);
    assert_eq!(actions[15], AvatarCaptureAction::TurnAndRestart);
    assert_eq!(actions[27], AvatarCaptureAction::Capture);
    assert_eq!(state_updater(AvatarCaptureState::Finished, true).1, AvatarCaptureAction::Nothing);
    assert_eq!(state_updater(AvatarCaptureState::LoadingGltf, true).0, AvatarCaptureState::LoadingGltf);
}

#[test]
fn body_shape_follows_the_urn() {
    assert_eq!(body_shape_of("urn:decentraland:off-chain:base-avatars:BaseFemale"), BodyShape::Female);
    assert_eq!(body_shape_of("urn:decentraland:off-chain:base-avatars:BaseMale"), BodyShape::Male);
}

#[test]
fn model_files_are_chosen_for_the_body_shape() {
    assert_eq!(glb_role_with("a/body_shape/x.glb", "a/body_shape/x.glb", BodyShape::Male), GlbRole::Body);
    assert_eq!(glb_role_with("a\\body_shape\\x.glb", "a\\body_shape\\x.glb", BodyShape::Female), GlbRole::Body);
    assert_eq!(glb_role_of("w/F_Hat.glb", BodyShape::Male), GlbRole::Skip);
    assert_eq!(glb_role_of("w/FemaleShirt.glb", BodyShape::Male), GlbRole::Skip);
    assert_eq!(glb_role_of("w/hat.glb", BodyShape::Male), GlbRole::Wearable);
    assert_eq!(glb_role_of("w/M_Hat.glb", BodyShape::Female), GlbRole::Skip);
    assert_eq!(glb_role_of("w/MaleShirt.glb", BodyShape::Female), GlbRole::Skip);
    assert_eq!(glb_role_of("w/FemaleShirt.glb", BodyShape::Female), GlbRole::Wearable);
    assert_eq!(glb_role_of("w/hat.glb", BodyShape::Female), GlbRole::Wearable);
}

#[test]
fn materials_take_skin_or_hair_colour() {
    assert_eq!(material_color_of("AvatarSkin_MAT"), Some(AvatarColor::Skin));
    assert_eq!(material_color_of("AvatarEyebrows"), Some(AvatarColor::Skin));
    assert_eq!(material_color_of("Hair_MAT.001"), Some(AvatarColor::Hair));
    assert_eq!(material_color_of("Cloth"), None);
    assert_eq!(material_color_of("MyAvatarSkin"), None);
}

#[test]
fn the_loading_count_leaves_out_the_other_shape() {
    let paths: Vec<String> = vec![
        "a/body_shape/b.glb".to_string(),
        "x/F_skirt.glb".to_string(),
        "x/m_shirt.glb".to_string(),
        "x/hat.glb".to_string(),
        "x/Male_boots.glb".to_string(),
    ];
    assert_eq!(glb_loading_count(&paths, BodyShape::Male), 4);
    assert_eq!(glb_loading_count(&paths, BodyShape::Female), 3);
    assert_eq!(glb_loading_count(&vec![], BodyShape::Male), 0);
}
