pub mod contract;
pub mod integrated_server;
pub mod engine;
pub mod dev;
pub mod commands;
pub mod web;
pub mod avalanche;
pub mod sharding;
pub mod storage;
