//! Verified decision logic for the Sherpa-ONNX speech engine integration:
//! which models to load, how the engine commands proceed and what they
//! answer, and which runtime libraries are staged for a Windows bundle.

pub mod commands;
pub mod dll;
pub mod models;
pub mod paths;
pub mod provider;
pub mod text;
