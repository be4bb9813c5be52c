//! Verified core of a terminal front end that runs one shell command across
//! many local git repositories.

pub mod action;
pub mod app;
pub mod config;
pub mod events;
pub mod input;
pub mod keys;
pub mod laws;
pub mod output;
pub mod patterns;
pub mod pieces;
pub mod repo;
pub mod runner;
pub mod text;
pub mod theme;
pub mod tree;
pub mod view;
