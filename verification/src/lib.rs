//! Engine-independent core of a visual novel: the scenario text format and
//! its parser, the cursor that walks a parsed scenario, the relationship and
//! battle rules, and the decisions behind the menu, the log and the screen.

pub mod assets;
pub mod battle;
pub mod character;
pub mod command_plan;
pub mod dialogue_log;
pub mod menu;
pub mod relationship;
pub mod scenario;
pub mod scenario_loader;
pub mod scenario_state;
pub mod services;
pub mod text;
