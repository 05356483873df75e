pub mod builder;
pub mod config;
pub mod detect_generic;
pub mod detect_go;
pub mod detect_node;
pub mod detect_python;
pub mod detect_rust;
pub mod impact;
pub mod impact_deps;
pub mod impact_map;
pub mod impact_notes;
pub mod impact_roots;
pub mod inspect;
pub mod manifest_config;
pub mod manifest_parse;
pub mod manifest_text;
pub mod paths;
pub mod recommend;
pub mod snapshot;
pub mod types;
