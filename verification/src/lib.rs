//! The verified core of the fire image viewer: the rules behind folder navigation, key
//! bindings, configuration, flipbook playback, mip chains and the window shell, each stated as
//! a contract and proved.
pub mod chip;
pub mod chord;
pub mod chrome;
pub mod commands;
pub mod config;
pub mod detect;
pub mod dispatch;
pub mod flipbook;
pub mod folder;
pub mod half;
pub mod icons;
pub mod identifiers;
pub mod image;
pub mod instance;
pub mod key_names;
pub mod keybinds;
pub mod keys;
pub mod menubar;
pub mod mips;
pub mod natural;
pub mod octagon;
pub mod openfiles;
pub mod paths;
pub mod platform;
pub mod playback;
pub mod pool;
pub mod ratio;
pub mod routing;
pub mod scene;
pub mod settings;
pub mod shade;
pub mod shell;
pub mod single;
pub mod status;
pub mod text;
pub mod timers;
pub mod upload;
pub mod utf16;
pub mod view;
pub mod viewer;
pub mod wrap;
