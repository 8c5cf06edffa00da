pub mod text;
pub mod hexfmt;
pub mod types;
pub mod assoc;
pub mod pathutil;
pub mod tree_model;
pub mod tree;
pub mod tree_laws;
pub mod numtext;
pub mod fixed;
pub mod vorbis;
pub mod format;
pub mod flac;
pub mod id3;
pub mod id3v2;
pub mod router;
pub mod config;
pub mod events;
pub mod webhook;
pub mod cas;
pub mod prefetch;
pub mod watcher;
pub mod nfs;
pub mod parser;
pub mod supervisor;
pub mod service;
pub mod scanner;
pub mod cli;
pub mod db;
pub mod overlay;
pub mod plugins;
pub mod search;
pub mod registry;
pub mod handlers;
pub mod id3_laws;
pub mod cas_store;
pub mod faulty_cas;
pub mod query;
