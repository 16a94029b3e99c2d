//! Verified core of a command-line tool that runs and watches coding agents.

pub mod output_filter;
pub mod text;
pub mod style;
pub mod screen;
pub mod screen_laws;
pub mod virtual_terminal;
pub mod gitdiff;
pub mod protocol;
pub mod connection;
pub mod editing;
pub mod keys;
pub mod ranking;
pub mod lists;
pub mod branch_picker;
pub mod sorting;
pub mod view;
pub mod term_complete;
pub mod overview;
pub mod layout;
pub mod overview_view;
pub mod wrapping;
pub mod diff_pane;
pub mod focus;
pub mod focus_view;
pub mod formatting;
pub mod notes;
pub mod commands;
pub mod selectors;
pub mod default_agent;
pub mod hub;
pub mod worktrees;
pub mod stopping;
pub mod removal;
pub mod cli;
pub mod dispatch;
pub mod editor;
pub mod modal;
pub mod modal_view;
pub mod edit_prompt_modal;
pub mod detached_agent_modal;
pub mod repo_modal;
pub mod create_agent_modal;
pub mod orchestrator_modal;
pub mod create_batch_modal;
pub mod import_batch_modal;
pub mod add_task_modal;
pub mod context_menu;
pub mod batch_deps_modal;
