//! Route planning over a street-level panorama graph, with every decision
//! rule stated as a contract and proved.
//!
//! All quantities are fixed-point integers: angles are 32-bit fractions of a
//! half turn, headings are microdegrees, distances are millimetres and costs
//! are milliseconds. Trigonometry and I/O live with the caller, which hands
//! their results in as plain values.

pub mod astar;
pub mod cache;
pub mod db;
pub mod math;
pub mod model;
pub mod roadtrip;
pub mod streetview;
pub mod web;

use vstd::prelude::*;
use crate::astar::Cost;
use crate::model::Location;

verus! {

/// The share that stands for all of the way, in millionths.
pub const ALL_DONE: i32 = 1_000_000;

/// How far one search has come.
#[derive(Clone, Debug)]
pub struct ProgressUpdate {
    /// In millionths, between 0 and `ALL_DONE`.
    pub percent_done: i32,
    /// -1 where it is not known.
    pub estimated_seconds_remaining: i64,
    pub best_path_cost: Cost,
    pub nodes_considered: usize,
    /// The path to the node nearest to the goal so far.
    pub best_path: Vec<Location>,
    /// The path to the node that is being expanded.
    pub current_path: Vec<Location>,
}

/// How far a whole request has come, as a change against the update before.
#[derive(Clone, Debug)]
pub struct FullProgressUpdate {
    pub id: u32,
    /// In millionths, between 0 and `ALL_DONE`; `-ALL_DONE` once the request
    /// was cleared.
    pub percent_done: i32,
    pub estimated_seconds_remaining: i64,
    pub best_path_cost: Cost,
    pub nodes_considered: usize,
    pub elapsed_seconds: u64,
    /// How many points of the best path sent before still stand.
    pub best_path_keep_prefix_length: usize,
    /// The points that follow them.
    pub best_path_append: Vec<Location>,
    pub current_path_keep_prefix_length: usize,
    pub current_path_append: Vec<Location>,
}

impl Default for ProgressUpdate {
    fn default() -> (p: ProgressUpdate)
        ensures
            p.percent_done == 0,
            p.estimated_seconds_remaining == -1,
            p.best_path_cost == 0,
            p.nodes_considered == 0,
            p.best_path@ == Seq::<Location>::empty(),
            p.current_path@ == Seq::<Location>::empty(),
    {
        ProgressUpdate {
            percent_done: 0,
            estimated_seconds_remaining: -1,
            best_path_cost: 0,
            nodes_considered: 0,
            best_path: Vec::new(),
            current_path: Vec::new(),
        }
    }
}

impl FullProgressUpdate {
    /// The update that tells the client to drop what it was sent for
    /// request `id`.
    pub fn clear(id: u32) -> (p: FullProgressUpdate)
        ensures
            p.id == id,
            p.percent_done == -ALL_DONE,
            p.estimated_seconds_remaining == -1,
            p.best_path_cost == 0,
            p.nodes_considered == 0,
            p.elapsed_seconds == 0,
            p.best_path_keep_prefix_length == 0,
            p.best_path_append@ == Seq::<Location>::empty(),
            p.current_path_keep_prefix_length == 0,
            p.current_path_append@ == Seq::<Location>::empty(),
    {
        FullProgressUpdate {
            id,
            percent_done: -ALL_DONE,
            estimated_seconds_remaining: -1,
            best_path_cost: 0,
            nodes_considered: 0,
            elapsed_seconds: 0,
            best_path_keep_prefix_length: 0,
            best_path_append: Vec::new(),
            current_path_keep_prefix_length: 0,
            current_path_append: Vec::new(),
        }
    }
}

} // verus!
