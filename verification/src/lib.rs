//! A streaming data bridge: it moves records between files, Kafka topics,
//! Postgres tables and the standard streams, and reshapes them on the way.
//!
//! This crate holds the rules of the bridge, each with a contract that Verus
//! proves: the message envelope ([`message`]) and the documents it carries
//! ([`json`], [`wire`]); the middleware chain of a bridge ([`middleware`])
//! and the decisions of its orchestrator ([`engine`]); the actions of a pipe
//! ([`pipe_actions`]) and the decisions of its orchestrator
//! ([`pipe_engine`]); the endpoints and the command line ([`endpoints`],
//! [`cli`]); what the sources and sinks make of what they read and write
//! ([`connectors`], [`sinks`], [`codecs`]); the conversion of documents
//! between file formats ([`conversions`]); and the windows of the topic
//! inspector ([`inspector`]).
//!
//! Nothing here reads a file, opens a connection or waits: the orchestrators
//! say what is to be done next, and their caller does it and reports back.
//! Clocks are read in one place ([`clock`]) and handed on as plain numbers,
//! and the arithmetic on numbers is left to an implementation of
//! [`pipe_actions::Arithmetic`].

pub mod assoc;
pub mod cli;
pub mod clock;
pub mod codecs;
pub mod connectors;
pub mod conversions;
pub mod endpoints;
pub mod engine;
pub mod inspector;
pub mod json;
pub mod message;
pub mod middleware;
pub mod pipe_actions;
pub mod pipe_engine;
pub mod schema;
pub mod sinks;
pub mod text;
pub mod wire;
