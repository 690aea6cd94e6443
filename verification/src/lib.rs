//! Channel gate encoder.
//!
//! Two proximity sensors watch a toothed target that a channel gate drives,
//! mounted a quarter pitch apart. The rising edges of both are decoded to two
//! counts per tooth cycle; a position homed against a limit switch is kept; and
//! position and direction are published on a timer that is decoupled from the
//! edge rate.
//!
//! Everything about the decode is a consequence of having no level and no
//! falling edges: see [`quadrature`] for the direction test, the ambiguity band
//! and the cost of a reversal.
//!
//! What holds over whole runs is stated and proved in [`decoder_laws`],
//! [`event_laws`] and [`encoder_laws`]. What single operations do, in terms of
//! what goes in and what comes out, is stated in [`step_laws`], [`poll_laws`],
//! [`ingest_laws`], [`publish_laws`], [`member_laws`], [`endpoint_laws`],
//! [`startup_laws`], [`ratio_laws`] and [`text_laws`].

pub mod config;
pub mod debug_server;
pub mod decoder_laws;
pub mod encoder;
pub mod encoder_laws;
pub mod endpoint_laws;
pub mod event_laws;
pub mod events;
pub mod health;
pub mod ingest_laws;
pub mod json;
pub mod listener;
pub mod member_laws;
pub mod poll_laws;
pub mod publish_laws;
pub mod quadrature;
pub mod rate;
pub mod ratio;
pub mod ratio_laws;
pub mod startup;
pub mod startup_laws;
pub mod state;
pub mod step_laws;
pub mod tags;
pub mod text;
pub mod text_laws;

pub use config::ChannelGateEncoderConfig;
pub use encoder::{EncoderCore, Params};
pub use quadrature::{Channel, RisingEdgeDecoder};
pub use tags::ChannelGateEncoderTags;
