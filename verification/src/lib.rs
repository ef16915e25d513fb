//! Read-only storage inventory: where the space on a volume went, how the
//! walk accounts for it, and the small text and layout rules of its reports.
use vstd::prelude::*;

pub mod text;
pub mod path;
pub mod sort;
pub mod storage;
pub mod scanner;
pub mod layout;
pub mod display;
pub mod assistant;
pub mod session;
pub mod guidance;
pub mod sources;
pub mod menu;
pub mod shell;
pub mod explorer;
pub mod screens;
pub mod measure;
pub mod care_keys;
pub mod care_workspace;

verus! {
} // verus!
