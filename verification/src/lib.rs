//! A verified library for grabbing posts from e621/e926: the tag-file and
//! blacklist parsers, the blacklist filter, and the post-grabbing decisions.

pub mod text;
pub mod parser;
pub mod blacklist;
pub mod tag;
pub mod entries;
pub mod io;
pub mod sender;
pub mod grabber;
pub mod data_sets;
pub mod web;
pub mod program;
pub mod connector;
pub mod menu;
