//! Core logic of a Twitch music-request bot: request admission, chat command
//! parsing, queue and vote-skip decisions, link parsing, token encryption and
//! the small text utilities they rest on.

pub mod model;
pub mod text;
pub mod cors;
pub mod chat;
pub mod config;
pub mod queue;
pub mod crypto;
pub mod ratelimit;
pub mod duration;
pub mod links;
pub mod similarity;
pub mod api;
pub mod auth;
pub mod music;
pub mod telemetry;
pub mod overlay;
pub mod sources;
pub mod requests;
