//! Verified core of a Bilibili audio downloader: identifiers, request
//! addresses, file names, decimal text, and the decisions taken while
//! logging in and uploading.

pub mod text;
pub mod decimal;
pub mod json;
pub mod bv;
pub mod cli;
pub mod config;
pub mod ffmpeg;
pub mod upload;
