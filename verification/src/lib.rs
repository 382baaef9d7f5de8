use vstd::prelude::*;

pub mod handshake;
pub mod text;
pub mod ids;
pub mod method;
pub mod error;
pub mod backend;
pub mod dto;
pub mod clock;
pub mod freshness;
pub mod effective;
pub mod message;
pub mod events;
pub mod remote;
pub mod operation;
pub mod mock;
pub mod security;
pub mod name;
pub mod service;
pub mod frame;
pub mod client;
pub mod bridge;
pub mod session;
pub mod contracts;
pub mod lock;
