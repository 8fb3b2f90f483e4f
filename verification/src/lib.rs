//! Agent runtime core.
pub mod a2ui;
pub mod acp_http;
pub mod acp_protocol;
pub mod acp_reading;
pub mod acp_state;
pub mod acp_stream;
pub mod agent_loop;
pub mod agui_events;
pub mod approval;
pub mod assoc;
pub mod bus;
pub mod context;
pub mod cut;
pub mod file_artifact;
pub mod format;
pub mod framing;
pub mod gateway;
pub mod harness;
pub mod harness_state;
pub mod http;
pub mod inbound;
pub mod intake;
pub mod json;
pub mod loop_events;
pub mod mermaid;
pub mod metadata;
pub mod number;
pub mod observations;
pub mod paths;
pub mod plan;
pub mod providers;
pub mod replies;
pub mod session;
pub mod split;
pub mod stream_guard;
pub mod synthesis;
pub mod telemetry_events;
pub mod text;
pub mod textmap;
pub mod threadmap;
pub mod tool_calls;
pub mod tool_feedback;
pub mod tool_helpers;
pub mod turn;
