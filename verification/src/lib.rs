//! Verified core of the Spis catalog crawler and example-image collector.
pub mod text;
pub mod case;
pub mod json;
pub mod image;
pub mod url;
pub mod catalog;
pub mod host;
pub mod runstate;
pub mod html;
pub mod crawl;
pub mod digest;
pub mod corpus;
pub mod history;
pub mod refresh;
pub mod submission;
pub mod bindings;
pub mod manifest;
pub mod collect;
pub mod report;
pub mod clock;
pub mod cancel;
pub mod import;
pub mod resume;
pub mod typed;
pub mod record_binding;
pub mod submit;
pub mod registry;
pub mod preflight;
pub mod plan;
pub mod device;
pub mod retained;
pub mod prepared;
pub mod readiness;
pub mod start;
pub mod generate;
pub mod disk;
pub mod product;
