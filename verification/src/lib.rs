//! Core of an image viewer: key bindings, settings, the decoded-image cache,
//! folder navigation, version checks and the pixel transforms.
pub mod about;
pub mod actions;
pub mod associations;
pub mod cache;
pub mod config;
pub mod decode;
pub mod dialog;
pub mod directory;
pub mod drop;
pub mod fonts;
pub mod formats;
pub mod icons;
pub mod input;
pub mod interaction;
pub mod labels;
pub mod loader;
pub mod manager;
pub mod naming;
pub mod numeric;
pub mod order;
pub mod panels;
pub mod panic_report;
pub mod paths;
pub mod pixels;
pub mod playback;
pub mod raster;
pub mod render;
pub mod scan;
pub mod session;
pub mod settings;
pub mod sorting;
pub mod text;
pub mod ui;
pub mod update;
pub mod viewer;
