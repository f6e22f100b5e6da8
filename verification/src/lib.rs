pub mod text;
pub mod hasher;
pub mod checksum;
pub mod verify;
pub mod multi;
pub mod session;
pub mod integration;
pub mod language;
pub mod cli;
pub mod ipc;
