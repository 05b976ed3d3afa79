//! Core logic of the NFT board service: the block layout of the board,
//! the error model of the HTTP API, sign-in decisions and the token claims.

pub mod blocks;
pub mod decimal;
pub mod errors;
pub mod security;
pub mod sign_in;
pub mod opensea;
pub mod block_image;
pub mod watcher;
pub mod users;
