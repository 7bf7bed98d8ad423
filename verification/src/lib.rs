//! NodeBook: the verified core of a personal knowledge and media assistant.

pub mod text;
pub mod auth;
pub mod media;
pub mod library;
pub mod fetch;
pub mod web;
pub mod vault;
pub mod bot;
pub mod plan;
pub mod common;
pub mod config;
pub mod analytics;
pub mod classifier;
pub mod ai;
pub mod tutor;
pub mod diary;
pub mod charts;
pub mod life;
