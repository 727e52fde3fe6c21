//! An in-process actor-style message router for a multi-agent system.
//!
//! Independent agents communicate exclusively through addressed (`send`) or
//! topic-broadcast (`publish`) messages, never through shared memory.  The
//! heart of the crate is the agent runtime: the envelope model, the
//! subscription/topic resolution engine with its lazily built cache, the
//! per-agent mailbox dispatch machinery, and the outstanding-work counter
//! that lets a supervisor observe when a round of interaction has settled.
//!
//! Every data structure carries a mathematical view, every public operation a
//! contract, and the key routing laws (idempotent resolution, cache
//! invalidation, exactly-one response correlation, fan-out isolation and idle
//! detection) are stated and proved alongside the code.

pub mod agent;
pub mod agent_runtime;
pub mod chat_msg_types;
pub mod envelope;
pub mod group_chat;
pub mod ids;
pub mod mailbox;
pub mod llm_backend;
pub mod llm_msg_types;
pub mod msg_types;
pub mod subscription;
pub mod text;
pub mod tool;
