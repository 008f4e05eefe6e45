//! Decision logic of a desktop kernel manager: parsing of system and
//! configuration text, scheduler detection, kernel database handling,
//! search filtering and banner state.

pub mod text;
pub mod json;
pub mod scheduler;
pub mod kernel;
pub mod sched_ext;
pub mod search;
pub mod banner;
pub mod i18n;
pub mod actions;
