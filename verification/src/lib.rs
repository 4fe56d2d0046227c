//! Rules of a nation-roleplay Discord bot: automod word lists, message
//! deletion tracking, the ignore list, the economy commands, the daily
//! schedule and the command router, each stated and proved over plain
//! values. The bot itself (Discord, the database, files) lives in `app/`.

pub mod automod;
pub mod commands;
pub mod dispatch;
pub mod economy;
pub mod ignore;
pub mod keyed;
pub mod members;
pub mod numbers;
pub mod perms;
pub mod reactions;
pub mod schedule;
pub mod target;
pub mod text;
pub mod tracker;
pub mod words;
