pub mod cli;
pub mod evaluation;
pub mod kernel;
pub mod laws;
pub mod lsp_bridge;
pub mod order;
pub mod repo_graph;
pub mod source_context;
pub mod source_evidence;
pub mod symbol_graph;
pub mod text;
pub mod textset;
