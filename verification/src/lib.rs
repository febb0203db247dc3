//! Protocol conversion between the OpenAI Chat Completions, OpenAI Responses
//! and Anthropic Messages APIs through one intermediate representation, with
//! the routing, authentication and configuration rules of the gateway.

pub mod seqs;
pub mod json;
pub mod text;
pub mod types;
pub mod ir;
pub mod wildcard;
pub mod codec;
pub mod chat;
pub mod messages;
pub mod responses;
pub mod config;
pub mod sse;
pub mod gateway;
