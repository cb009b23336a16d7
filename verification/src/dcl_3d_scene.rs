use vstd::prelude::*;
use crate::parcel::Parcel;

verus! {

/// The `scene.json` of a 3D Decentraland scene, as far as the 2D client
/// reads it.
#[derive(Debug)]
pub struct DCL3dScene {
    pub display: Display,
    pub contact: Option<Contact>,
    pub owner: String,
    pub scene: Scene,
    pub communications: Option<Communications>,
    pub policy: Option<Policy>,
    pub required_permissions: Option<Vec<String>>,
    pub main: String,
    pub tags: Option<Vec<String>>,
}

/// How the scene presents itself.
#[derive(Debug)]
pub struct Display {
    pub title: String,
    pub description: Option<String>,
    pub navmap_thumbnail: Option<String>,
    pub favicon: Option<String>,
}

/// Who to contact about the scene.
#[derive(Debug)]
pub struct Contact {
    pub name: Option<String>,
    pub email: Option<String>,
}

/// The parcels of the scene and its base parcel.
#[derive(Debug)]
pub struct Scene {
    pub parcels: Vec<Parcel>,
    pub base: Parcel,
}

/// The signalling server of the scene.
#[derive(Debug)]
pub struct Communications {
    pub signalling: String,
}

/// What the scene allows.
#[derive(Debug)]
pub struct Policy {
    pub content_rating: String,
    pub fly: bool,
    pub voice_enabled: bool,
    pub blacklist: Vec<String>,
}

/// Where the camera looks from a spawn point.
#[derive(Debug, Clone, Copy, PartialEq, Eq, Structural)]
pub struct CameraTarget {
    pub x: i16,
    pub y: i16,
    pub z: i16,
}

impl Default for Display {
    fn default() -> (d: Self)
        ensures
            d.title@ == Seq::<char>::empty(),
            d.description is None,
            d.navmap_thumbnail is None,
            d.favicon is None,
    {
        Display { title: String::new(), description: None, navmap_thumbnail: None, favicon: None }
    }
}

impl Default for Contact {
    fn default() -> (c: Self)
        ensures
            c.name is None,
            c.email is None,
    {
        Contact { name: None, email: None }
    }
}

impl Default for Communications {
    fn default() -> (c: Self)
        ensures
            c.signalling@ == Seq::<char>::empty(),
    {
        Communications { signalling: String::new() }
    }
}

impl Default for Policy {
    fn default() -> (p: Self)
        ensures
            p.content_rating@ == Seq::<char>::empty(),
            !p.fly,
            !p.voice_enabled,
            p.blacklist@.len() == 0,
    {
        Policy { content_rating: String::new(), fly: false, voice_enabled: false, blacklist: Vec::new() }
    }
}

} // verus!
