//! A confidential-computing worker's trusted-operation pipeline: getter
//! dispatch, request and response envelopes, the direct and indirect delivery
//! protocols, and the sealed key and counter state kept inside the enclave.

pub mod channel;
pub mod commands;
pub mod counter;
pub mod getter;
pub mod keys;
pub mod operation;
pub mod person;
pub mod rpc;
pub mod scale;
pub mod secrets;
