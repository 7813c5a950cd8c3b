use vstd::prelude::*;

pub mod text;
pub mod settings;
pub mod session;
pub mod accounts;
pub mod scheduler;
pub mod rate_limit;
pub mod steamgifts;
pub mod html;
pub mod bot;
pub mod bot_run;
pub mod wins;
pub mod curl;
pub mod steam;
pub mod cards;
pub mod idling;
pub mod ops;
pub mod credentials;
pub mod inventory;
pub mod library;
pub mod achievements;
pub mod native_libs;
pub mod saveslot;
pub mod profile;
pub mod commands;
