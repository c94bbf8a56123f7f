//! Recruiting backend library: the data model of talents, jobs and
//! applications, and the derivation of pairwise preference judgments from a
//! recruiter's reordering of a ranked candidate list.
pub mod models;
pub mod reorder_spec;
pub mod reorder;
pub mod outside;
pub mod boundary;
