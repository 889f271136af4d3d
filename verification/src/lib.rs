//! `ufpm` — an unofficial package manager for `FoundryVTT`.
//!
//! `ufpm` manages modules and systems inside a local `FoundryVTT` user-data
//! directory. This crate is its verified core: it decides what is read from
//! the disk and the network, what is written, and what the user is told. What
//! was read comes in as plain values, and what is to be done comes out as
//! plain values; the program around it carries them.
//!
//! | Module | Subject |
//! |---|---|
//! | [`cli`], [`commands`] | the command line and what each command says and does |
//! | [`ui`] | verbosity, confirmations, tables, ages |
//! | [`foundry`] | the local installation: its root, its packages, its worlds |
//! | [`api`], [`index`] | the package API and the cached package index |
//! | [`resolve`] | dependency resolution: from requested names to a plan |
//! | [`install`] | downloading, extracting and swapping in packages |
//! | [`manifest`] | the export manifest |
//! | [`text`], [`order`], [`paths`], [`json`] | strings, sorting, paths and JSON |

pub mod api;
pub mod cli;
pub mod commands;
pub mod constants;
pub mod foundry;
pub mod index;
pub mod install;
pub mod json;
pub mod manifest;
pub mod order;
pub mod paths;
pub mod resolve;
pub mod text;
pub mod ui;
