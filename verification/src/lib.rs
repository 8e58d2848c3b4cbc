//! A passive network flow probe library: packet decoding, IPv4 fragment
//! reassembly, flow-key classification, per-connection quality metrics,
//! application-protocol decoders, and a bounded-export flow table.

pub mod config;
pub mod custom;
pub mod flow;
pub mod kprobe;
pub mod packet;
pub mod protocol;
pub mod queue;
pub mod reasm;
pub mod sample;
pub mod table;
pub mod time;
pub mod timer;
pub mod track;
pub mod translate;
pub mod wire;
