//! Verified core of a set of Farm build-tool plugins: console-call removal,
//! HTML resource injection, build progress bookkeeping and tsconfig `paths`
//! resolution.
pub mod text;
pub mod js_ast;
pub mod remove_console;
pub mod html_ast;
pub mod resources_injector;
pub mod progress;
pub mod glob_pattern;
pub mod path_text;
pub mod json;
pub mod tsconfig_loader;
pub mod path_matcher;
pub mod tsconfig_paths;
