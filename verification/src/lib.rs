//! Distributed real, complex and mixed Fourier plans: layouts, storage and execution order.

pub mod accepted;
pub mod alike;
pub mod allowed;
pub mod along;
pub mod array;
pub mod arrivals;
pub mod as_plain;
pub mod asked;
pub mod bins;
pub mod boundary;
pub mod built;
pub mod callback;
pub mod capacity;
pub mod carrier;
pub mod chain;
pub mod choice;
pub mod clock;
pub mod collections;
pub mod convert;
pub mod course;
pub mod crew;
pub mod crew_mixed_c2c;
pub mod crew_mixed_r2c;
pub mod crew_mixed_r2c_ip;
pub mod crew_r2c;
pub mod crew_r2c_ip;
pub mod crew_r2r;
pub mod dht_plan;
pub mod doing;
pub mod edges;
pub mod endpoints;
pub mod error;
pub mod every;
pub mod execute_mixed_c2c;
pub mod execute_mixed_r2c;
pub mod execute_r2c;
pub mod execute_r2r;
pub mod factors;
pub mod failing;
pub mod fits;
pub mod graph;
pub mod half_carrier;
pub mod handoff;
pub mod holds;
pub mod holds_half;
pub mod inspect;
pub mod journey;
pub mod kernels;
pub mod laws;
pub mod layout;
pub mod lines;
pub mod local;
pub mod made;
pub mod many;
pub mod measures;
pub mod mixed_build;
pub mod mixed_c2c;
pub mod mixed_c2c_build;
pub mod mixed_c2c_plan;
pub mod mixed_convert;
pub mod mixed_prepare;
pub mod mixed_r2c;
pub mod mixed_r2c_alloc;
pub mod mixed_r2c_build;
pub mod mixed_r2c_plan;
pub mod mixed_stages;
pub mod moves;
pub mod owed;
pub mod perform;
pub mod planes;
pub mod prepare;
pub mod questions;
pub mod r2c;
pub mod r2c_alloc;
pub mod r2c_build;
pub mod r2c_plan;
pub mod r2r;
pub mod r2r_build;
pub mod r2r_plan;
pub mod rebuilt;
pub mod recast;
pub mod refusal;
pub mod refusals;
pub mod registry;
pub mod reports;
pub mod request;
pub mod rooms;
pub mod round_half;
pub mod round_mixed_c2c;
pub mod round_mixed_r2c;
pub mod round_mixed_r2c_ip;
pub mod round_r2c;
pub mod round_r2c_ip;
pub mod round_r2r;
pub mod round_shared;
pub mod round_trip;
pub mod run;
pub mod same_home_mixed_c2c;
pub mod same_home_mixed_r2c;
pub mod same_home_r2c;
pub mod same_mixed_c2c;
pub mod same_mixed_r2c;
pub mod same_r2c;
pub mod scalar;
pub mod scaled;
pub mod scaled_mixed_c2c;
pub mod scaled_mixed_r2c;
pub mod scaled_mixed_r2c_ip;
pub mod scaled_r2c;
pub mod scaled_r2c_ip;
pub mod scaled_r2r;
pub mod schedule;
pub mod setbacks;
pub mod shared;
pub mod spectrum;
pub mod splits;
pub mod stage_work;
pub mod stages;
pub mod station;
pub mod storage;
pub mod succeed_mixed_c2c;
pub mod succeed_mixed_r2c;
pub mod succeed_r2c;
pub mod succeed_r2r;
pub mod success;
pub mod sweep;
pub mod tally;
pub mod there_and_back;
pub mod timing;
pub mod transaction;
pub mod transition;
pub mod verdicts;
pub mod view;
pub mod visits;
pub mod walk;
pub mod words;
pub mod workspace;
pub mod world;
