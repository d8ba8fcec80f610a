//! What the library keeps as a whole, stated of what goes in and what comes out.

use vstd::prelude::*;

pub mod arr_notifier;
pub mod backend;
pub mod config;
pub mod emby_notifier;
pub mod filesystem;
pub mod filtering;
pub mod inotify_watcher;
pub mod lru_map;
pub mod media_notifier_common;
pub mod metrics;
pub mod monitoring;
pub mod path;
pub mod plex_notifier;
pub mod sfv;
pub mod startup;
pub mod text;
pub mod utils;

verus! {

/// The text ends in another one.
pub open spec fn ends_in(t: Seq<char>, tail: Seq<char>) -> bool {
    t.len() >= tail.len() && t.skip(t.len() - tail.len()) == tail
}

} // verus!
