//! Quota, usage and spending logic of a terminal monitor for coding-assistant
//! subscriptions.

pub mod arithmetic;
pub mod collectors;
pub mod columns;
pub mod counts;
pub mod credentials;
pub mod detail;
pub mod detail_page;
pub mod figures;
pub mod fixtures;
pub mod formula;
pub mod frame;
pub mod json;
pub mod labels;
pub mod ledger;
pub mod ledger_page;
pub mod legacy;
pub mod limits;
pub mod limits_page;
pub mod local;
pub mod matrix;
pub mod moment;
pub mod monitor;
pub mod numerals;
pub mod pricing;
pub mod proto;
pub mod quantity;
pub mod registry;
pub mod report;
pub mod run;
pub mod screen;
pub mod secrets;
pub mod sessions;
pub mod setup;
pub mod sort;
pub mod startup;
pub mod storage;
pub mod summary;
pub mod text;
pub mod usage;
