//! Catalog browsing, search, stream resolution and playback control for IPTV
//! channel data, with the logic proved by Verus.

pub mod domain;
pub mod text;
pub mod ports;
pub mod repository;
pub mod catalog_service;
pub mod stream_resolver;
pub mod dto;
pub mod mapper;
pub mod playback;
pub mod pipeline;
pub mod cache_entry;
pub mod http;
pub mod facade;
