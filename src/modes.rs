//! The screens the program can show.

use vstd::prelude::*;

verus! {

#[derive(Debug, Clone, Copy, PartialEq, Eq, Structural)]
pub enum GameMode {
    Startup,
    Editing,
    Playing,
}

#[derive(Debug, Clone, Copy, PartialEq, Eq, Structural)]
pub enum AppMode {
    Startup,
    Editing,
    Playing,
}

} // verus!
