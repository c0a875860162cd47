//! Static analysis of a TypeScript/Angular monorepo: import resolution,
//! re-export chasing, a file-level dependency graph with cycle detection,
//! and an order-independent result-merging pipeline.
//!
//! File-system state, clock readings and parsed module syntax are passed in
//! as plain values, so every decision the analyzer makes is a pure, verified
//! function of its inputs.

pub mod cache;
pub mod chase;
pub mod content_cache;
pub mod fsmodel;
pub mod graph;
pub mod import_resolver;
pub mod imports;
pub mod ng_analyzers;
pub mod ng_dependency;
pub mod ng_maps;
pub mod ng_models;
pub mod ng_processor;
pub mod ng_results;
pub mod ng_template;
pub mod ng_reporter;
pub mod nx_config;
pub mod nx_project;
pub mod nx_workspace;
pub mod paths;
pub mod pipeline;
pub mod resolver;
pub mod strmap;
pub mod timing;
pub mod strutil;
pub mod ts_config;
