//! The spectrum workbench's interface logic, as a verified library.

use vstd::prelude::*;

pub mod app;
pub mod dialogs;
pub mod keys;
pub mod sample;
pub mod text;
pub mod theme;
pub mod view;
pub mod workspace;
pub mod viewmodel;
pub mod windows;
