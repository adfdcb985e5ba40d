use vstd::prelude::*;

pub mod text;
pub mod probes;
pub mod paths;
pub mod discover;
pub mod campaign;
pub mod discover_setup;
pub mod clock;
pub mod archive_paths;
pub mod databank;
pub mod data_lab;
pub mod battery;
pub mod assets;
pub mod evidence;
pub mod deploy;
pub mod parity_lab;
pub mod multi_symbol;
pub mod portfolio;
pub mod production_lane;
pub mod challenge;
pub mod robustness;
pub mod fidelity;
pub mod telemetry;
pub mod discover_run;
pub mod partitions;
pub mod workspace;
pub mod exports;
pub mod optimizer;
pub mod import_rows;
pub mod market_csv;
pub mod binding;
pub mod ordering;
pub mod fx_pack;
pub mod equity;
pub mod bakeoff;

verus! {
}
