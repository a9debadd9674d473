//! Rendering of structured log records: positional-argument message
//! templates, width-bounded abbreviation of dotted logger names, and the
//! ordered severity levels that consumers filter on.

use vstd::prelude::*;

pub mod text;
pub mod template;
pub mod source;
pub mod level;
pub mod event;
