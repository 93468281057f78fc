//! Runtime modules of a small blockchain: a kitties registry kept in per-owner
//! linked lists, a proof-of-existence registry and an ERC-20 style token.
pub mod storage;
pub mod origin;
pub mod hashing;
pub mod kitties;
pub mod owned_list;
pub mod poe;
pub mod erc20;
pub mod node;
