//! A personal developer-tool package manager: a declarative catalog of tools,
//! a version model, release/asset selection, a multi-strategy installer with
//! fallback, and a persisted manifest that keeps re-runs idempotent.
//!
//! This crate holds the engine: the decisions, the data model and the plans.
//! Network, process and file effects are performed by the surrounding binary,
//! which feeds their outcomes back into the engine's step functions.

pub mod actions;
pub mod error;
pub mod handler;
pub mod cli;
pub mod config;
pub mod pkgs;
pub mod platform;
pub mod provider;
pub mod registry;
pub mod installers;
pub mod manifest;
pub mod pkg;
pub mod release;
pub mod tag;
pub mod text;
pub mod version;
