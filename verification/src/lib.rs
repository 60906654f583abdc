//! Verified core of a job-application builder: input parsing, offer intake,
//! text normalisation, document sanitising and chat-history bookkeeping.

pub mod basic_intake;
pub mod chat;
pub mod chat_history;
pub mod chat_turn;
pub mod anthropic;
pub mod clock;
pub mod conversation;
pub mod errors;
pub mod events;
pub mod generate;
pub mod generation_flow;
pub mod indexing;
pub mod ingest;
pub mod ingest_flow;
pub mod intake;
pub mod intake_flow;
pub mod json;
pub mod llm;
pub mod location;
pub mod offers;
pub mod ollama;
pub mod openai;
pub mod profile;
pub mod profile_mapping;
pub mod prompt_context;
pub mod records;
pub mod scrape;
pub mod snapshots;
pub mod streaming;
pub mod text;
