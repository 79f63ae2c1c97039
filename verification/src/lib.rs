//! Profiles, controller mappings and their validation rules for a DualSense
//! desktop mapper, together with the input-normalisation and trigger logic
//! that turns controller events into scheduled actions.
pub mod text;
pub mod error;
pub mod domain;
pub mod web;
pub mod validation;
pub mod storage;
pub mod controller;
pub mod discovery;
pub mod dispatch;
pub mod actions;
pub mod platform;
pub mod shell;
