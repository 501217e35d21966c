//! Uriel files Discord messages into a notes vault. This library holds its
//! logic, verified with Verus: which messages are taken in, what is asked of
//! Gemini and what is made of its replies, where attachments and log entries
//! go, the weekly digest, the entity index and the retrieval reports.

pub mod text;
pub mod json;
pub mod gemini_api;

pub mod annotator;
pub mod digest;
pub mod gemini;
pub mod gemini_client;
pub mod gemini_file_api;
pub mod handler;
pub mod indexer;
pub mod media_handler;
pub mod orichalcum_integration;
pub mod rag;
pub mod vault_io;
