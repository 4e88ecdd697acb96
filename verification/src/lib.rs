//! Reconciliation engine and workflow rules for a laboratory test-request
//! system.
//!
//! The library keeps a relational store and a spreadsheet mirror consistent:
//! entity codecs translate between typed records and rows of cells, a fixed
//! state machine gates every change to a test record's lifecycle state, and
//! two sync services move data between the stores while tracking provenance
//! (`sync_source`) and reporting partial failure through aggregated results.

pub mod codec;
pub mod config;
pub mod dtos;
pub mod errors;
pub mod id;
pub mod sql;
pub mod status;
pub mod cliente;
pub mod comprobacion;
pub mod db_to_sheets;
pub mod ensayo;
pub mod ensayo_store;
pub mod personal_interno;
pub mod proyecto;
pub mod proyecto_store;
pub mod rows;
pub mod sheets_to_db;
pub mod store;
pub mod sync;
pub mod text;
pub mod workflow;
