//! In-memory mirror of Uniswap-V4-style concentrated-liquidity pools: the pool
//! data model, its update pipeline and a deterministic swap simulator.

pub mod abi;
pub mod address_book;
pub mod errors;
pub mod fee_config;
pub mod id_map;
pub mod liquidity_base;
pub mod logs;
pub mod math;
pub mod network;
pub mod pool_key;
pub mod pool_manager_service;
pub mod pool_registry;
pub mod pool_state;
pub mod pool_swap;
pub mod pool_update_queue;
pub mod pool_updates;
pub mod pools;
pub mod primitives;
pub mod provider_l1;
pub mod provider_l2;
pub mod sorting;
pub mod tick_info;
pub mod traits;
pub mod u256;
pub mod update_provider;
