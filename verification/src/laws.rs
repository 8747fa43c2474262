//! What the parts of the library come to, stated apart from them.
pub mod calls;
pub mod device;
pub mod dialogs;
pub mod formats;
pub mod frames;
pub mod logs;
pub mod menus;
pub mod numbers;
pub mod pages;
pub mod panels;
pub mod polling;
pub mod screen;
pub mod settings;
pub mod simulation;
pub mod tables;
pub mod texts;
pub mod times;
pub mod traffic;
pub mod values;
