//! Decision core of the OpenBao certificate client.
//!
//! The client enrols roots, signs in through OpenBao's OIDC flow and has
//! certificates signed whose keys Windows or a YubiKey keeps. This library
//! holds what it decides: which deployments, replies and certificates it
//! accepts, what it asks for, and what it does next. Sending, running and
//! storing are left to the caller.

#![allow(unused_imports)]

pub mod address;
pub mod api;
pub mod certificates;
pub mod chain;
pub mod config;
pub mod encoding;
pub mod enrollment;
pub mod error;
pub mod issuance;
pub mod login;
pub mod oidc;
pub mod process;
pub mod redaction;
pub mod roots;
pub mod secret;
pub mod state;
pub mod store;
pub mod text;
pub mod version;
pub mod windows;
pub mod x509;
pub mod yubikey;
