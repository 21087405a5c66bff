//! A headless Minecraft player that answers tool calls.
pub mod bot;
pub mod calls;
pub mod commands;
pub mod config;
pub mod dialog;
pub mod editors;
pub mod feeds;
pub mod game;
pub mod health;
pub mod hud;
pub mod json;
pub mod link;
pub mod menus;
pub mod order;
pub mod pattern;
pub mod place;
pub mod style;
pub mod table;
pub mod tag;
pub mod text;
pub mod tools;
pub mod words;
pub mod worldedit;
