//! Verified core of a Solana fuzzing framework: address bookkeeping, the
//! accounts a fuzz test creates (plain, token, token-2022, stake and vote
//! accounts), fuzzing statistics, fuzzer configuration, and a light
//! in-process runtime that hands accounts to on-chain programs and serves
//! their calls of the system program.
pub mod pubkey;
pub mod derivation;
pub mod random;
pub mod address_storage;
pub mod accounts_storage;
pub mod keyed_map;
pub mod fuzz_stats;
pub mod fuzz_data;
pub mod execution;
pub mod error;
pub mod config;
pub mod light;
pub mod snapshot;
pub mod token;
pub mod stake;
pub mod token_2022;
