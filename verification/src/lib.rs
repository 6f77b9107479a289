//! Verified core of the Age of Empires IV leaderboard service: the request
//! model, the stored rows, the crawler's decisions, and the rules of the REST
//! and gRPC front ends.

pub mod text;
pub mod request;
pub mod calendar;
pub mod identifier;
pub mod stored;
pub mod leaderboard;
pub mod save;
pub mod crawl;
pub mod crawler_request;
pub mod actors;
pub mod rest;
pub mod grpc;
pub mod save_model;
