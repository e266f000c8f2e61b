//! Observability of a server-side rendering server: request duration
//! histograms, the metrics page, heap profiles on demand and the two agents
//! that hand heap profiles to a collector.

pub mod agent_laws;
pub mod allocator;
mod ask;
pub mod base64_text;
pub mod gateway;
pub mod gateway_agent;
pub mod gateway_laws;
pub mod heap_dump;
pub mod histogram_laws;
pub mod http;
pub mod json;
pub mod labels;
pub mod listing;
pub mod metrics_http;
pub mod metrics_page;
pub mod page_laws;
pub mod page_reading;
pub mod profiler;
pub mod pusher_laws;
pub mod pyroscope;
pub mod readers;
pub mod seconds;
pub mod text;
pub mod types;
