//! Case files, mesh topology and reports of the Ferrum finite-volume tools.

pub mod arguments;
pub mod backends;
pub mod benchmark_args;
pub mod benchmark_report;
pub mod case_readback;
pub mod case_summary;
pub mod checks;
pub mod commands;
pub mod components;
pub mod control;
pub mod dictionary;
pub mod dictionary_readback;
pub mod diffusion;
pub mod error;
pub mod face_keys;
pub mod field_readback;
pub mod fields;
pub mod flow;
pub mod flow_checks;
pub mod flow_fields;
pub mod foam_case;
pub mod foam_field;
pub mod foam_text;
pub mod gmsh;
pub mod gmsh_readback;
pub mod init;
pub mod interfaces;
pub mod json;
pub mod json_grammar;
pub mod layout;
pub mod linear;
pub mod lookup;
pub mod mesh;
pub mod mesh_text;
pub mod momentum;
pub mod numerics;
pub mod option_readback;
pub mod ordering;
pub mod patches;
pub mod plan;
pub mod plan_grammar;
pub mod plan_json;
pub mod plan_text;
pub mod plot;
pub mod plot_readback;
pub mod poiseuille;
pub mod poly_mesh;
pub mod properties;
pub mod readback;
pub mod reals;
pub mod regions;
pub mod report_grammar;
pub mod resolve;
pub mod rounding;
pub mod runner;
pub mod runtime;
pub mod schemes;
pub mod sections;
pub mod selection;
pub mod simple;
pub mod simple_json;
pub mod simple_loop;
pub mod simple_text;
pub mod solver_args;
pub mod sorting;
pub mod sources;
pub mod stencil;
pub mod summary_readback;
pub mod text;
pub mod token_readback;
pub mod topology;
pub mod zones;
