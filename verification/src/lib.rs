//! Statistics of the columns of tables.
//!
//! A scan is observed: how many rows it saw, and of each column how many nulls and how many distinct
//! values (`plan`, `array`, `batch`, `scan`, `collect`). Observations are handed over when the
//! execution ends (`sink`) and merged into the profile of a workspace, which is kept from one
//! execution to the next (`contracts`, `merge`, `store`). What holds of all this, whatever is scanned
//! and merged, stands in the modules of laws: `view_laws`, `array_laws`, `report_laws` and `scan_laws`
//! of scans, `merge_laws` and `profile_laws` of profiles.

pub mod array;
pub mod array_laws;
pub mod batch;
pub mod collect;
pub mod contracts;
pub mod merge;
pub mod merge_laws;
pub mod name_map;
pub mod plan;
pub mod profile_laws;
pub mod report_laws;
pub mod scan;
pub mod scan_laws;
pub mod sink;
pub mod store;
pub mod text;
pub mod view_laws;
