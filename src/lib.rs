//! A local secret vault: small sensitive strings sealed at rest with a key
//! derived per secret name and per record, under AES-256-GCM.
use vstd::prelude::*;

pub mod error;
pub mod entropy;
pub mod kdf;
pub mod codec;
pub mod salt;
pub mod text;
pub mod storage;
pub mod laws;
pub mod settings;
pub mod models;
pub mod steam;
