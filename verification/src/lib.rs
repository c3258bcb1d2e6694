use vstd::prelude::*;

pub mod checkpoint;
pub mod fetch;
pub mod filename;
pub mod org_roam;
pub mod planner;
pub mod readwise_api;
pub mod record;
pub mod render;
pub mod settings;
pub mod store;
pub mod text;
pub mod text_map;
pub mod time;
pub mod util;
pub mod writer;
