//! Philips Hue over the bridge's CLIP v2 API: what the driver decides, and proofs of it.
//!
//! The host performs every request and renders every screen. The driver is handed a device and
//! what has happened, and answers with what the device then remembers and what the host is to do.
//!
//! - [`json`], [`text`], [`order`], [`binary`], [`decimal`] and [`views`] hold what the rest is
//!   written in: documents, strings, sorted sets of strings, binary64 numbers by their bits and in
//!   decimal, and lists as contracts speak of them. [`codec`] reads and writes JSON text.
//! - [`host`] is what passes between the driver and its host, and [`role`] tells what a device is.
//! - [`light`] commands one light; [`event`] and [`bind`] hear the bridge and bring devices up.
//! - [`zone`] and [`pending`] keep the bridge's zones and the writes to them that are not
//!   confirmed yet; [`group`], [`group_command`] and [`group_request`] command groups of lights
//!   through those zones.
//! - [`capability`], [`setup`], [`catalog`], [`adopt`] and [`flow`] find a bridge and what is behind it.
//! - The laws state what holds of the driver as a whole, over all inputs: [`light_laws`],
//!   [`command_laws`] and [`group_command_laws`] of commands; [`event_laws`], [`report_laws`] and
//!   [`answer_laws`] of what the bridge says; [`group_laws`], [`zone_laws`] and [`link_laws`] of
//!   groups and zones; [`flow_laws`], [`step_laws`] and [`offer_laws`] of setup; [`device_laws`],
//!   [`number_laws`] and [`text_laws`] of the rest. [`law_terms`] holds the words they are put in.
use vstd::prelude::*;

pub mod adopt;
pub mod answer_laws;
pub mod binary;
pub mod bind;
pub mod capability;
pub mod catalog;
pub mod codec;
pub mod command_laws;
pub mod decimal;
pub mod device_laws;
pub mod event;
pub mod event_laws;
pub mod flow;
pub mod flow_laws;
pub mod group;
pub mod group_command;
pub mod group_command_laws;
pub mod group_laws;
pub mod group_request;
pub mod host;
pub mod json;
pub mod law_terms;
pub mod light;
pub mod light_laws;
pub mod link_laws;
pub mod number_laws;
pub mod offer_laws;
pub mod order;
pub mod pending;
pub mod report_laws;
pub mod role;
pub mod setup;
pub mod step_laws;
pub mod text;
pub mod text_laws;
pub mod views;
pub mod zone;
pub mod zone_laws;

verus! {

/// The driver. One loaded module answers for every device behind a bridge, and for the bridge.
#[derive(Clone, Copy, Debug, Default)]
pub struct HueBulb;

} // verus!
