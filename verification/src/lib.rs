//! The routing core of a model router, verified.
//!
//! A router is built over a configuration ([`router`]), has its models
//! installed ([`install`]), and takes over what a replaced router learned and
//! counted ([`reload`]). On the way to an upstream a request gets the layered
//! headers and payload of its target ([`overlays`]), is compared with the
//! turns before it ([`prefix_rewrite`]), and can be told beforehand which lane
//! it opens with ([`opening_lookup`]). Probes that cost money are authorized
//! against a ledger and sent once ([`paid_probe_authorize`],
//! [`paid_probe_dial`]).
//!
//! The laws that span several functions are the public proof functions of the
//! modules whose names end in `_laws`.

pub mod collisions;
pub mod config;
pub mod dispatch;
pub mod install;
pub mod install_laws;
pub mod json;
pub mod lookup_laws;
pub mod metrics;
pub mod names;
pub mod opening_lookup;
pub mod overlay_laws;
pub mod overlays;
pub mod paid_probe_authorize;
pub mod paid_probe_dial;
pub mod paid_probe_laws;
pub mod paid_probe_ledger;
pub mod paid_probe_profile;
pub mod prefix_laws;
pub mod prefix_rewrite;
pub mod probe;
pub mod probe_failure_class;
pub mod probe_laws;
pub mod probe_seat;
pub mod record_laws;
pub mod reload;
pub mod reload_laws;
pub mod request;
pub mod resolved;
pub mod router;
pub mod samples;
pub mod session_cache;
pub mod text;
pub mod text_laws;
