use vstd::prelude::*;
use vstd::string::*;
use crate::sheet::{SheetRect, SheetSize, SheetFrame, SheetLayer, SheetMeta, Spritesheet, BlendMode};
use crate::sprite_animation::{FrameTag, TagDirection};
use crate::text::{int_decimal, usize_to_string, has_infix, has_prefix, contains_text, starts_with_text,
    lowercase, to_lowercase};

verus! {

/// Frames of the idle animation of the avatar sheet.
pub const FRAMES_IDLE: usize = 5;
/// Frames of each running animation of the avatar sheet.
pub const FRAMES_RUNNING: usize = 10;
/// Width of a rendered avatar frame.
pub const AVATAR_RESOLUTION_X: u32 = 640;
/// Height of a rendered avatar frame.
pub const AVATAR_RESOLUTION_Y: u32 = 360;
/// Width of the avatar inside a frame.
pub const AVATAR_FRAME_X: u32 = 640;
/// Height of the avatar inside a frame.
pub const AVATAR_FRAME_Y: u32 = 300;
/// Duration of an idle frame, in milliseconds.
pub const IDLE_FRAME_DURATION: u32 = 250;
/// Duration of a running frame, in milliseconds.
pub const RUNNING_FRAME_DURATION: u32 = 60;

// ------------------------------------------------------------ sheet

/// The number of frames of the avatar sheet.
pub open spec fn avatar_frame_count() -> int {
    FRAMES_IDLE + FRAMES_RUNNING * 2
}

/// Whether `f` is frame `i` of the avatar sheet: the frames lie one
/// under the other, idle frames first.
pub open spec fn is_avatar_frame(f: SheetFrame, i: int) -> bool {
    &&& f.filename@ == "avatar_body "@ + int_decimal(i) + ".aseprite"@
    &&& f.frame == SheetRect { x: 0, y: (i * AVATAR_RESOLUTION_Y) as u32, w: AVATAR_FRAME_X, h: AVATAR_FRAME_Y }
    &&& !f.rotated
    &&& !f.trimmed
    &&& f.sprite_source_size == SheetRect { x: 0, y: 0, w: AVATAR_RESOLUTION_X, h: AVATAR_RESOLUTION_Y }
    &&& f.source_size == SheetSize { w: AVATAR_RESOLUTION_X, h: AVATAR_RESOLUTION_Y }
    &&& f.duration == if i < FRAMES_IDLE { IDLE_FRAME_DURATION } else { RUNNING_FRAME_DURATION }
}

/// Whether `t` is the tag `name` over frames `from` to `to`.
pub open spec fn is_tag(t: FrameTag, name: Seq<char>, from: int, to: int, direction: TagDirection) -> bool {
    t.name@ == name && t.from == from && t.to == to && t.direction == direction
}

/// Whether `meta` describes the avatar sheet: its three animations
/// (idle back and forth, running down, running up), its single layer and
/// its image. The width is the frame width times the idle frames, plus
/// twice the running frames.
pub open spec fn is_avatar_meta(meta: SheetMeta) -> bool {
    &&& meta.app@ == "https://www.aseprite.org/"@
    &&& meta.version@ == "1.2.39-x64"@
    &&& meta.format@ == "RGBA8888"@
    &&& meta.size == SheetSize { w: (AVATAR_RESOLUTION_X * FRAMES_IDLE + FRAMES_RUNNING * 2) as u32, h: AVATAR_RESOLUTION_Y }
    &&& meta.scale@ == "1"@
    &&& meta.frame_tags matches Some(tags) && tags@.len() == 3
        && is_tag(tags@[0], "Idle"@, 0, FRAMES_IDLE - 1, TagDirection::Pingpong)
        && is_tag(tags@[1], "RunDown"@, FRAMES_IDLE as int, FRAMES_IDLE + FRAMES_RUNNING - 1, TagDirection::Forward)
        && is_tag(tags@[2], "RunUp"@, FRAMES_IDLE + FRAMES_RUNNING, FRAMES_IDLE + FRAMES_RUNNING * 2 - 1, TagDirection::Forward)
    &&& meta.layers matches Some(layers) && layers@.len() == 1 && layers@[0].name@ == "Body"@
        && layers@[0].opacity == 255 && layers@[0].blend_mode == BlendMode::Normal
    &&& meta.image matches Some(image) && image@ == "avatar_body.png"@
}

/// The aseprite description of the avatar sprite sheet.
pub fn avatar_spritesheet() -> (sheet: Spritesheet)
    ensures
        sheet.frames@.len() == avatar_frame_count(),
        forall|i: int| 0 <= i < sheet.frames@.len() ==> is_avatar_frame(#[trigger] sheet.frames@[i], i),
        is_avatar_meta(sheet.meta),
{
    let mut frames: Vec<SheetFrame> = Vec::new();
    let mut i: usize = 0;
    while i < FRAMES_IDLE + FRAMES_RUNNING * 2
        invariant
            i <= FRAMES_IDLE + FRAMES_RUNNING * 2,
            frames@.len() == i,
            forall|j: int| 0 <= j < i ==> is_avatar_frame(#[trigger] frames@[j], j),
        decreases FRAMES_IDLE + FRAMES_RUNNING * 2 - i,
    {
        let duration = if i < FRAMES_IDLE { IDLE_FRAME_DURATION } else { RUNNING_FRAME_DURATION };
        let mut filename = String::from_str("avatar_body ");
        let number = usize_to_string(i);
        filename.append(number.as_str());
        filename.append(".aseprite");
        let frame = SheetFrame {
            filename,
            frame: SheetRect { x: 0, y: (i as u32) * AVATAR_RESOLUTION_Y, w: AVATAR_FRAME_X, h: AVATAR_FRAME_Y },
            rotated: false,
            trimmed: false,
            sprite_source_size: SheetRect { x: 0, y: 0, w: AVATAR_RESOLUTION_X, h: AVATAR_RESOLUTION_Y },
            source_size: SheetSize { w: AVATAR_RESOLUTION_X, h: AVATAR_RESOLUTION_Y },
            duration,
        };
        frames.push(frame);
        i = i + 1;
    }
    let layer = SheetLayer { name: String::from_str("Body"), opacity: 255, blend_mode: BlendMode::Normal };
    let idle_tag = FrameTag {
        name: String::from_str("Idle"),
        from: 0,
        to: (FRAMES_IDLE - 1) as u32,
        direction: TagDirection::Pingpong,
    };
    let run_down_tag = FrameTag {
        name: String::from_str("RunDown"),
        from: FRAMES_IDLE as u32,
        to: (FRAMES_IDLE + FRAMES_RUNNING - 1) as u32,
        direction: TagDirection::Forward,
    };
    let run_up_tag = FrameTag {
        name: String::from_str("RunUp"),
        from: (FRAMES_IDLE + FRAMES_RUNNING) as u32,
        to: (FRAMES_IDLE + FRAMES_RUNNING * 2 - 1) as u32,
        direction: TagDirection::Forward,
    };
    let mut tags: Vec<FrameTag> = Vec::new();
    tags.push(idle_tag);
    tags.push(run_down_tag);
    tags.push(run_up_tag);
    let mut layers: Vec<SheetLayer> = Vec::new();
    layers.push(layer);
    let meta = SheetMeta {
        app: String::from_str("https://www.aseprite.org/"),
        version: String::from_str("1.2.39-x64"),
        format: String::from_str("RGBA8888"),
        size: SheetSize {
            w: AVATAR_RESOLUTION_X * (FRAMES_IDLE as u32) + (FRAMES_RUNNING as u32) * 2,
            h: AVATAR_RESOLUTION_Y,
        },
        scale: String::from_str("1"),
        frame_tags: Some(tags),
        layers: Some(layers),
        image: Some(String::from_str("avatar_body.png")),
    };
    Spritesheet { frames, meta }
}

// ------------------------------------------------------------ capture

/// The steps of capturing the avatar's animations: loading its models,
/// waiting for the renderer, then posing each frame of the idle, running
/// down and running up animations, then done.
#[derive(Debug, Clone, Copy, PartialEq, Eq, Structural)]
pub enum AvatarCaptureState {
    LoadingGltf,
    WaitingForRender,
    Idle(usize),
    RunningDown(usize),
    RunningUp(usize),
    Finished,
}

/// What the renderer must do after a step of the capture.
#[derive(Debug, Clone, Copy, PartialEq, Eq, Structural)]
pub enum AvatarCaptureAction {
    /// Nothing.
    Nothing,
    /// Pose the animation playing at this many frames from its start.
    Pose(usize),
    /// Play the running animation, paused at its start.
    StartRunning,
    /// Turn the avatar a quarter to face away, back at the start of the
    /// animation.
    TurnAndRestart,
    /// Capture the frames recorded into the sprite sheet image.
    Capture,
}

/// The frame counter of a posing state.
pub open spec fn capture_counter(state: AvatarCaptureState) -> int {
    match state {
        AvatarCaptureState::Idle(n) => n as int,
        AvatarCaptureState::RunningDown(n) => n as int,
        AvatarCaptureState::RunningUp(n) => n as int,
        _ => 0,
    }
}

/// The next step of the capture, once a frame has been rendered, and
/// what it asks of the renderer.
pub open spec fn capture_step(state: AvatarCaptureState, ready_to_export: bool) -> (AvatarCaptureState, AvatarCaptureAction) {
    match state {
        AvatarCaptureState::Idle(n) => if n + 1 > FRAMES_IDLE {
            (AvatarCaptureState::RunningDown(0), AvatarCaptureAction::StartRunning)
        } else {
            (AvatarCaptureState::Idle((n + 1) as usize), AvatarCaptureAction::Pose((n + 1) as usize))
        },
        AvatarCaptureState::RunningDown(n) => if n + 1 >= FRAMES_RUNNING {
            (AvatarCaptureState::RunningUp(0), AvatarCaptureAction::TurnAndRestart)
        } else {
            (AvatarCaptureState::RunningDown((n + 1) as usize), AvatarCaptureAction::Pose((n + 1) as usize))
        },
        AvatarCaptureState::RunningUp(n) => if n + 1 > FRAMES_RUNNING + 1 {
            (AvatarCaptureState::Finished, AvatarCaptureAction::Capture)
        } else {
            (AvatarCaptureState::RunningUp((n + 1) as usize), AvatarCaptureAction::Pose((n + 1) as usize))
        },
        AvatarCaptureState::WaitingForRender => if ready_to_export {
            (AvatarCaptureState::Idle(0), AvatarCaptureAction::Nothing)
        } else {
            (state, AvatarCaptureAction::Nothing)
        },
        _ => (state, AvatarCaptureAction::Nothing),
    }
}

/// Advances the capture by one rendered frame; `ready_to_export` says
/// whether the recorder holds the frames the sheet needs.
pub fn state_updater(state: AvatarCaptureState, ready_to_export: bool) -> (next: (AvatarCaptureState, AvatarCaptureAction))
    requires
        capture_counter(state) < usize::MAX,
    ensures
        next == capture_step(state, ready_to_export),
{
    match state {
        AvatarCaptureState::Idle(n) => {
            let m = n + 1;
            if m > FRAMES_IDLE {
                (AvatarCaptureState::RunningDown(0), AvatarCaptureAction::StartRunning)
            } else {
                (AvatarCaptureState::Idle(m), AvatarCaptureAction::Pose(m))
            }
        },
        AvatarCaptureState::RunningDown(n) => {
            let m = n + 1;
            if m >= FRAMES_RUNNING {
                (AvatarCaptureState::RunningUp(0), AvatarCaptureAction::TurnAndRestart)
            } else {
                (AvatarCaptureState::RunningDown(m), AvatarCaptureAction::Pose(m))
            }
        },
        AvatarCaptureState::RunningUp(n) => {
            let m = n + 1;
            if m > FRAMES_RUNNING + 1 {
                (AvatarCaptureState::Finished, AvatarCaptureAction::Capture)
            } else {
                (AvatarCaptureState::RunningUp(m), AvatarCaptureAction::Pose(m))
            }
        },
        AvatarCaptureState::WaitingForRender => {
            if ready_to_export {
                (AvatarCaptureState::Idle(0), AvatarCaptureAction::Nothing)
            } else {
                (state, AvatarCaptureAction::Nothing)
            }
        },
        _ => (state, AvatarCaptureAction::Nothing),
    }
}

/// Steps left before the capture ends, from a posing state whose
/// counter is within its animation.
pub open spec fn steps_to_capture(state: AvatarCaptureState) -> int {
    match state {
        AvatarCaptureState::Idle(n) => (FRAMES_IDLE + 1 - n) + FRAMES_RUNNING + (FRAMES_RUNNING + 2),
        AvatarCaptureState::RunningDown(n) => (FRAMES_RUNNING - n) + (FRAMES_RUNNING + 2),
        AvatarCaptureState::RunningUp(n) => FRAMES_RUNNING + 2 - n,
        _ => 0,
    }
}

/// Whether the frame counter of a posing state is within its animation.
pub open spec fn posing_in_range(state: AvatarCaptureState) -> bool {
    match state {
        AvatarCaptureState::Idle(n) => n <= FRAMES_IDLE,
        AvatarCaptureState::RunningDown(n) => n < FRAMES_RUNNING,
        AvatarCaptureState::RunningUp(n) => n <= FRAMES_RUNNING + 1,
        _ => false,
    }
}

/// Once the avatar is posing, every step keeps it posing within its
/// animations, or ends the capture with the capture of the sheet, and
/// one step fewer is left: the capture always ends, after
/// `steps_to_capture` steps.
pub proof fn lemma_capture_progresses(state: AvatarCaptureState, ready_to_export: bool)
    requires
        posing_in_range(state),
    ensures
        ({
            let (next, action) = capture_step(state, ready_to_export);
            &&& steps_to_capture(next) == steps_to_capture(state) - 1
            &&& (next == AvatarCaptureState::Finished) == (action == AvatarCaptureAction::Capture)
            &&& next != AvatarCaptureState::Finished ==> posing_in_range(next)
        }),
{
}

/// From the first idle pose, the capture takes exactly this many steps:
/// six idle steps, ten running down and twelve running up.
pub proof fn lemma_capture_length()
    ensures
        steps_to_capture(AvatarCaptureState::Idle(0)) == 28,
        posing_in_range(AvatarCaptureState::Idle(0)),
{
}

// ------------------------------------------------------------ models

/// The body shape of an avatar.
#[derive(Debug, Clone, Copy, PartialEq, Eq, Structural)]
pub enum BodyShape {
    Male,
    Female,
}

/// The body shape named by a body shape URN: female when it says
/// `Female`.
pub fn body_shape_of(urn: &str) -> (shape: BodyShape)
    ensures
        shape == (if has_infix(urn@, "Female"@) { BodyShape::Female } else { BodyShape::Male }),
{
    if contains_text(urn, "Female") {
        BodyShape::Female
    } else {
        BodyShape::Male
    }
}

/// How a model file of the avatar is used.
#[derive(Debug, Clone, Copy, PartialEq, Eq, Structural)]
pub enum GlbRole {
    /// The body, loaded scaled.
    Body,
    /// A wearable, loaded as it is.
    Wearable,
    /// A wearable made for the other body shape, left out.
    Skip,
}

/// The role of a model file, from its path and the path in lower case:
/// files under a `body_shape` folder are the body; a male avatar leaves
/// out wearables marked female (`female`, `f_`), a female avatar those
/// marked male but not female (`male`, `m_`).
pub open spec fn glb_role(path: Seq<char>, lower: Seq<char>, shape: BodyShape) -> GlbRole {
    if has_infix(path, "/body_shape/"@) || has_infix(path, "\\body_shape\\"@) {
        GlbRole::Body
    } else {
        match shape {
            BodyShape::Male => if !has_infix(lower, "female"@) && !has_infix(lower, "/f_"@) && !has_infix(lower, "\\f_"@) {
                GlbRole::Wearable
            } else {
                GlbRole::Skip
            },
            BodyShape::Female => if !(has_infix(lower, "male"@) || has_infix(lower, "/m_"@) || has_infix(lower, "\\m_"@))
                || has_infix(lower, "female"@) {
                GlbRole::Wearable
            } else {
                GlbRole::Skip
            },
        }
    }
}

/// The role of a model file, given its path in lower case.
pub fn glb_role_with(path: &str, lower: &str, shape: BodyShape) -> (role: GlbRole)
    ensures
        role == glb_role(path@, lower@, shape),
{
    if contains_text(path, "/body_shape/") || contains_text(path, "\\body_shape\\") {
        return GlbRole::Body;
    }
    match shape {
        BodyShape::Male => {
            if !contains_text(lower, "female") && !contains_text(lower, "/f_") && !contains_text(lower, "\\f_") {
                GlbRole::Wearable
            } else {
                GlbRole::Skip
            }
        },
        BodyShape::Female => {
            if !(contains_text(lower, "male") || contains_text(lower, "/m_") || contains_text(lower, "\\m_"))
                || contains_text(lower, "female") {
                GlbRole::Wearable
            } else {
                GlbRole::Skip
            }
        },
    }
}

/// The role of a model file of the avatar.
pub fn glb_role_of(path: &str, shape: BodyShape) -> (role: GlbRole)
    ensures
        role == glb_role(path@, lowercase(path@), shape),
{
    let lower = to_lowercase(path);
    glb_role_with(path, lower.as_str(), shape)
}

/// How many of the model files are loaded (every one but those left out)
/// for an avatar of the given shape.
pub open spec fn loaded_glb_count(paths: Seq<String>, shape: BodyShape) -> nat
    decreases paths.len(),
{
    if paths.len() == 0 {
        0
    } else {
        let path = paths.last()@;
        loaded_glb_count(paths.drop_last(), shape)
            + if glb_role(path, lowercase(path), shape) != GlbRole::Skip { 1nat } else { 0nat }
    }
}

/// The number of model files of the avatar that are loaded, which the
/// capture waits for.
pub fn glb_loading_count(paths: &Vec<String>, shape: BodyShape) -> (count: usize)
    ensures
        count == loaded_glb_count(paths@, shape),
{
    let mut count: usize = 0;
    let mut i: usize = 0;
    while i < paths.len()
        invariant
            i <= paths.len(),
            count <= i,
            count == loaded_glb_count(paths@.take(i as int), shape),
        decreases paths.len() - i,
    {
        assert(paths@.take(i as int + 1).drop_last() =~= paths@.take(i as int));
        let role = glb_role_of(paths[i].as_str(), shape);
        if role != GlbRole::Skip {
            count = count + 1;
        }
        i = i + 1;
    }
    assert(paths@.take(paths.len() as int) =~= paths@);
    count
}

/// Which of the avatar's colours a material of its models takes.
#[derive(Debug, Clone, Copy, PartialEq, Eq, Structural)]
pub enum AvatarColor {
    Skin,
    Hair,
}

/// The colour of a material, by its name: skin for the skin, mouth,
/// eyebrows and eyes materials, hair for the hair material.
pub open spec fn material_color(name: Seq<char>) -> Option<AvatarColor> {
    if has_prefix(name, "AvatarSkin"@) || has_prefix(name, "AvatarMouth"@) || has_prefix(name, "AvatarEyebrows"@)
        || has_prefix(name, "AvatarEyes"@) {
        Some(AvatarColor::Skin)
    } else if has_prefix(name, "Hair_MAT"@) {
        Some(AvatarColor::Hair)
    } else {
        None
    }
}

/// The colour a material of the avatar takes, if any.
pub fn material_color_of(name: &str) -> (color: Option<AvatarColor>)
    ensures
        color == material_color(name@),
{
    if starts_with_text(name, "AvatarSkin") || starts_with_text(name, "AvatarMouth")
        || starts_with_text(name, "AvatarEyebrows") || starts_with_text(name, "AvatarEyes") {
        Some(AvatarColor::Skin)
    } else if starts_with_text(name, "Hair_MAT") {
        Some(AvatarColor::Hair)
    } else {
        None
    }
}

} // verus!
