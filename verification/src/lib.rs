//! Durable multi-party chat conversations: a conversation store with a
//! reversible compression codec for message bodies, a resolver that decides
//! which conversations apply to a participant, and the small data types the
//! surrounding application exchanges with it.

pub mod app_state;
pub mod by_address;
pub mod chat_codec;
pub mod chat_model;
pub mod chat_resolve;
pub mod chat_store;
pub mod core_args;
pub mod dtk_error;
pub mod dtk_github;
pub mod pocket_model;
pub mod pocket_utils;
pub mod request_model;
pub mod str_order;
pub mod tasks;
pub mod utils;
