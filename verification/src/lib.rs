//! Verified core of the podcast ad-trimming service: error mapping, feed and
//! episode models, transcript chunking, segment scoring, keep-block planning
//! for the audio editor, and the decisions of the processing pipeline.

pub mod error;
pub mod text;
pub mod ids;
pub mod models;
pub mod feed;
pub mod types;
pub mod editor;
pub mod scoring;
pub mod segmenter;
pub mod chunking;
pub mod pipeline;
pub mod services;
pub mod api;
pub mod detection;
pub mod transcribe;
pub mod config;
pub mod extractors;
