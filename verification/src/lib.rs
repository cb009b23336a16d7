//! Verified core of the 2dcl client for 2D Decentraland scenes: parcel
//! geometry, road and default scene composition, the scene file index
//! and streaming decisions, player level changes and collisions, sprite
//! animation, the login and avatar capture steps, sprite sheet and
//! wearable composition, and the small text formats the client reads
//! and prints.

pub mod parcel;
pub mod text;
pub mod entity;
pub mod roads;
pub mod scene_maker;
pub mod road_maker;
pub mod default_scene;
pub mod scenes_io;
pub mod scene_loader;
pub mod scene_downloads;
pub mod spawn;
pub mod collision;
pub mod animation;
pub mod sprite_animation;
pub mod player;
pub mod content_discovery;
pub mod where_command;
pub mod deploy;
pub mod dcl_3d_scene;
pub mod errors;
pub mod states;
pub mod login;
pub mod sheet;
pub mod avatar;
pub mod capture;
pub mod wearables;
pub mod sprite_maker;
pub mod psd_reader;
