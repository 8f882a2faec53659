//! Verified core of the LanJing rule runtime: capability policy, URL templating, SSRF
//! target classification, effect witnesses, durable captures and replay checks, plan
//! validation, execution paths and their steps, subgraph selection, the session event
//! stream, mapper field fallbacks and the plan cache.

pub mod capture;
pub mod credentials;
pub mod delivery;
pub mod effect;
pub mod graph_exec;
pub mod graph_reach;
pub mod graph_select;
pub mod http_effect;
pub mod http_util;
pub mod ip_text;
pub mod json;
pub mod mapper;
pub mod mapper_fields;
pub mod model;
pub mod plan_cache;
pub mod plan_path;
pub mod path_run;
pub mod plan_runtime;
pub mod policy;
pub mod quickjs;
pub mod rule_system;
pub mod scheduling;
pub mod ssrf;
pub mod text;
pub mod witness;
pub mod witness_export;
