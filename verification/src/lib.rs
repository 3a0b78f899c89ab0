//! Static validation of declarative game scripts: scope inference over script
//! blocks, memoized validation of reusable script fragments, schema checks on
//! blocks, overload resolution for datatype functions, and bounded expansion
//! of localization macros.

pub mod text;
pub mod token;
pub mod block;
pub mod report;
pub mod scopes;
pub mod context;
pub mod tooltipped;
pub mod index;
pub mod macrocache;
pub mod tables;
pub mod helpers;
pub mod session;
pub mod scripted_triggers;
pub mod trigger;
pub mod everything;
pub mod datafunctions;
pub mod datatype;
pub mod fileset;
pub mod validator;
pub mod item;
pub mod db;
pub mod localization;
pub mod provinces;
pub mod titles;
pub mod events;
pub mod validate;
pub mod order;
pub mod filter;
pub mod config_load;
pub mod character_interactions;
