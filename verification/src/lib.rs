//! The logic behind the folder-sync window: what its sentences say, which rows
//! are selected, how its lists are ordered and folded, and what each gesture
//! decides. Painting, files and processes belong to the program around it.

pub mod a11y;
pub mod balance;
pub mod bar;
pub mod ceremony;
pub mod chrome;
pub mod colophon;
pub mod components;
pub mod constellation;
pub mod controls;
pub mod copy;
pub mod dropzone;
pub mod fields;
pub mod figures;
pub mod focusnav;
pub mod folderpick;
pub mod geometry;
pub mod grouping;
pub mod headband;
pub mod health;
pub mod marginalia;
pub mod menubar;
pub mod model;
pub mod onboarding;
pub mod order;
pub mod prefs;
pub mod register;
pub mod rhythm;
pub mod selection;
pub mod shortcuts;
pub mod statusbar;
pub mod sysopen;
pub mod tenths;
pub mod text;
pub mod theme;
