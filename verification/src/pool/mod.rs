//! Pools of ids, buffers and sessions.

pub mod id_allocator;
pub mod buffer_pool;
pub mod slot_pool;
pub mod table;
pub mod session_manager;
pub mod fast_session;
pub mod optimized_session;
pub mod connection_pool;
