//! Chess education engine: rules facade, exercises, objectives, search and sessions.
pub mod board;
pub mod shak;
pub mod text;
pub mod rules;
pub mod exercise;
pub mod objective;
pub mod generator;
pub mod engine;
pub mod session;
pub mod repository;
pub mod service;
pub mod api;
