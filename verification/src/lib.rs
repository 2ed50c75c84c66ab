//! Decisions, validations and protocol rules of an agent hub and of its
//! command-line client, with machine-checked contracts.

#![allow(unused_imports)]

pub mod access;
pub mod account;
pub mod agent;
pub mod agent_config;
pub mod agent_flow;
pub mod agent_setup;
pub mod api_key;
pub mod automation;
pub mod client;
pub mod clock;
pub mod digest;
pub mod erasure;
pub mod error;
pub mod forwarded;
pub mod identity;
pub mod ids;
pub mod integration;
pub mod integration_app;
pub mod json;
pub mod jwt;
pub mod ldap;
pub mod login;
pub mod mcp;
pub mod model_check;
pub mod model_options;
pub mod model_settings;
pub mod numeral;
pub mod oauth;
pub mod order;
pub mod pagination;
pub mod retirement;
pub mod schedule;
pub mod text;
pub mod throttle;
pub mod tool_batch;
pub mod tool_calls;
pub mod tools;
pub mod web;
pub mod widget;
pub mod widget_profile;
pub mod widget_run;
