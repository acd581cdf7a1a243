pub mod action;
pub mod screens;
pub mod settings;
pub mod config;
pub mod strings;
pub mod words;
pub mod text_source;
pub mod text_generator;
pub mod text;
pub mod clock;
pub mod list;
pub mod menus;
pub mod games;
pub mod text_settings;
pub mod win_data;
pub mod deferred;
pub mod app_store;
