//! The Aeonmi language toolkit, verified: the lexer and its tokens, the syntax
//! tree, diagnostics and compiler errors, semantic analysis with scopes, the QUBE
//! circuit parser, modules and their compilation order, circuit diagrams, the
//! matching decoder of the surface code and the classical side of Shor's
//! factoring, the creator interface's concepts and moods, the sealed store of
//! provider API keys, and a hash-linked block chain.

pub mod text;
pub mod unicode;
pub mod token;
pub mod ast;
pub mod lexer_spec;
pub mod lexer;
pub mod enhanced_error;
pub mod diagnostics;
pub mod semantic_model;
pub mod enhanced_semantic;
pub mod quantum_bridge;
pub mod circuit_builder;
pub mod circuit_visualization;
pub mod circuit_compiler;
pub mod hardware_integration;
pub mod bytecode;
pub mod module_system;
pub mod mother_core;
pub mod quantum_algorithms;
pub mod quantum_neural_network;
pub mod quantum_simulator;
pub mod quantum_operations;
pub mod quantum_circuits;
pub mod code_generator;
pub mod js_text;
pub mod ir;
pub mod lowering;
pub mod operator_laws;
pub mod qube_ast;
pub mod qube_parser;
pub mod parser;
pub mod crypto;
pub mod blockchain;
pub mod api_keys;
