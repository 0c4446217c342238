pub mod codec;
pub mod config;
pub mod consumer;
pub mod flow;
pub mod i18n;
pub mod listener;
pub mod rapids;
pub mod seeds;
pub mod store;
pub mod text;
pub mod web;
