//! The `.capy/` project package: its data model and the rules that act on it.

pub mod hash;
pub mod model;
pub mod design;
pub mod patch;
pub mod review;
pub mod ids;
pub mod clips;
pub mod order;
pub mod dlref;
pub mod runs;
pub mod proposal;
pub mod queue;
pub mod stable;
pub mod selection;
pub mod ai;
pub mod json;
pub mod workbench;
pub mod generate;
pub mod campaign;
pub mod surface;
pub mod video_import;
pub mod context;
pub mod video_context;
pub mod paths;
pub mod layout;
pub mod basis;
