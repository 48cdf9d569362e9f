//! The decision core of a fleet-management server: sign-in, access control,
//! rate limiting, operation routing, notification texts and the rules around
//! them, stated over plain values and proved.

pub mod text;
pub mod strmap;
pub mod message;
pub mod operation_routing;
pub mod record;
pub mod addr;
pub mod random;
pub mod secret;
pub mod throttle;
pub mod tls;
pub mod anon_limiter;
pub mod ip_allowlist;
pub mod csrf;
pub mod rbac;
pub mod security_headers;
pub mod jwt;
pub mod auth;
pub mod db;
pub mod signin;
pub mod primitives;
pub mod json;
pub mod json_object;
pub mod clock;
pub mod crypto;
pub mod mfa;
pub mod users;
pub mod tokens;
pub mod labels;
pub mod invites;
pub mod weburl;
pub mod device_auth;
pub mod cli_auth;
pub mod passkey_mfa;
pub mod telemetry;
pub mod webhook;
pub mod api_auth;
pub mod access;
pub mod agent_dispatch;
pub mod api_v1;
pub mod text_order;
pub mod schedule;
pub mod health;
pub mod fan_out;
pub mod update_windows;
pub mod backups;
pub mod ee;
pub mod ee_recording;
pub mod internal_auth;
pub mod metrics;
pub mod notifications;
pub mod probe_library;
pub mod agent_reports;
pub mod hub;
pub mod ui_gate;
pub mod entrance;
pub mod agent_session;
pub mod ui_session;
