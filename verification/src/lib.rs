//! Verified core of slide-builder: paths, prompts, design packages, render cache keys.
pub mod cli;
pub mod contact_sheet;
pub mod deck_session;
pub mod credentials;
pub mod design;
pub mod design_import;
pub mod design_import_workflow;
pub mod design_selection;
pub mod digest;
pub mod export;
pub mod herdr_status;
pub mod integrations;
pub mod models;
pub mod onboarding;
pub mod path;
pub mod paths;
pub mod preview;
pub mod prompt;
pub mod render;
pub mod sessions;
pub mod skills;
pub mod text;
