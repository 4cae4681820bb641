//! Decisions of a local task board service: what a request asks for, which statements
//! it runs against the store, and what it is answered.
pub mod accepting;
pub mod active_runs;
pub mod ai_models;
pub mod ai_runs;
pub mod ai_threads;
pub mod ai_turns;
pub mod answering;
pub mod archiving;
pub mod asking;
pub mod attaching;
pub mod board;
pub mod codex;
pub mod comments;
pub mod contents;
pub mod conversing;
pub mod editing;
pub mod encoding;
pub mod ending;
pub mod entries;
pub mod exchange;
pub mod fields;
pub mod health;
pub mod history;
pub mod ids;
pub mod json;
pub mod launching;
pub mod lineage;
pub mod listing;
pub mod missing;
pub mod moving;
pub mod naming;
pub mod noting;
pub mod numbering;
pub mod pages;
pub mod parents;
pub mod placing;
pub mod progress;
pub mod projects;
pub mod receiving;
pub mod recording;
pub mod refusing;
pub mod relations;
pub mod relatives;
pub mod reports;
pub mod request;
pub mod responses;
pub mod routes;
pub mod routing;
pub mod rows;
pub mod runtime;
pub mod schema;
pub mod sending;
pub mod service;
pub mod serving;
pub mod showing;
pub mod starting;
pub mod stepping;
pub mod store;
pub mod succeeding;
pub mod talks;
pub mod task_edits;
pub mod tasks;
pub mod text;
pub mod wording;
