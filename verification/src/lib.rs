//! The logic of a scene wallpaper: reading scene documents, resolving their
//! user properties, planning how every layer is drawn, and keeping the state
//! that scripts and animations change while the scene runs.
//!
//! Everything here works on plain values. Numbers that only ever reach the
//! graphics card are carried as they were written (see [`value::Scalar`]) and
//! are evaluated by the program around this library.
#![allow(unused_imports)]

pub mod strings;
pub mod json;
pub mod copy;
pub mod value;
pub mod table;
pub mod user;
pub mod material;
pub mod particle;
pub mod object;
pub mod plan;
pub mod error;
pub mod scene;
pub mod property;
pub mod order;
pub mod script;
pub mod scripting;
pub mod script_setup;
pub mod slots;
pub mod wiring;

pub mod params;
pub mod resolve;
pub mod rereading;
pub mod assets;
pub mod visibility;
pub mod items;
pub mod frame;
pub mod runtime;
pub mod transforms;
pub mod setup;
pub mod orders;
pub mod stage;
pub mod templates;
pub mod draw;
pub mod singles;
pub mod animation;
pub mod animator;
pub mod tracks;
pub mod uniforms;
pub mod packing;
pub mod glsl;
pub mod modules;
pub mod passes;
pub mod translation;
pub mod blend;
pub mod images;
pub mod keys;
pub mod markup;
pub mod encoder;
pub mod raster;
pub mod loading;
pub mod media;
pub mod sharing;
pub mod fonts;
pub mod textures;
pub mod models;
pub mod laws;
