//! Core of a peer-to-peer screen-sharing room: media framing, session control,
//! signalling and policy, all stated and proved over plain values.

pub mod access_unit;
pub mod annexb;
pub mod benchmark;
pub mod bytes;
pub mod capabilities;
pub mod cleanup;
pub mod codecs;
pub mod commands;
pub mod control_plane;
pub mod engine;
pub mod engine_error;
pub mod fanout;
pub mod firewall;
pub mod in_place;
pub mod inbox;
pub mod json;
pub mod logger;
pub mod mf_encoder;
pub mod mint;
pub mod nv12;
pub mod peer_signal;
pub mod peer_transport;
pub mod pipeline;
pub mod process_tap;
pub mod queue;
pub mod registry;
pub mod rendezvous;
pub mod room;
pub mod room_mode;
pub mod rtp;
pub mod sample_pump;
pub mod sdp;
pub mod session;
pub mod share_work;
pub mod snapshot;
pub mod start;
pub mod text;
pub mod transactions;
pub mod types;
pub mod viewers;
