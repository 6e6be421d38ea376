//! Verified core of a local chat front end for an Ollama server and of its
//! Windows installer: title and role cleaning, settings storage, base URL
//! checks, the decoding of the streamed chat reply, and the text the
//! installer hands to PowerShell and the registry.

pub mod text;
pub mod conversation;
pub mod stream;
pub mod chat;
pub mod decimal;
pub mod settings;
pub mod base_url;
pub mod installer;
pub mod clock;
pub mod schema;
