pub mod delivery;
pub mod execution;
pub mod gpt_client;
pub mod heartbeat;
pub mod matcher;
pub mod message_processor;
pub mod text;
pub mod tg_client;
