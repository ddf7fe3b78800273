//! Verified core logic of a web UI toolkit: dialog buttons, badge options,
//! icon naming, avatar values, mnemonic phrases, stage navigation and more.

pub mod strings;
pub mod attributes;
pub mod dialog;
pub mod badge;
pub mod icon;
pub mod error;
pub mod data_field;
pub mod form;
pub mod digest;
pub mod avatar;
pub mod modules;
pub mod mnemonic;
pub mod markdown;
pub mod layout;
pub mod stages;
pub mod menu;
pub mod d3_menu;
pub mod builder;
pub mod controls;
pub mod app_layout;
pub mod link;
pub mod events;
pub mod declare;
pub mod item;
pub mod icons;
