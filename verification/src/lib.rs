//! Core logic of the onboarding-tour pipeline: git-history heuristics, candidate
//! filtering and merging, significance ranking post-processing, prompt
//! construction for the model stages, and tour-stop assembly.
//!
//! Everything here is verified with Verus. Network, disk, git object access,
//! model calls and JSON (de)serialisation live in the companion `app/` crate,
//! which hands plain values to these functions.
pub mod text;
pub mod mining_types;
pub mod worker;
pub mod sorting;
pub mod extraction;
pub mod patterns;
pub mod heuristics;
pub mod ranking_types;
pub mod ranking;
pub mod discovery;
pub mod doc_fetch;
pub mod digest;
pub mod tour;
pub mod tour_laws;
pub mod render;
pub mod stages;
pub mod ranking_prompt;
pub mod ranking_laws;
pub mod mining_laws;
pub mod ranking_run;
pub mod providers;
pub mod testing_api;
pub mod prompt_laws;
pub mod floor_laws;
pub mod discovery_laws;
pub mod worker_laws;
