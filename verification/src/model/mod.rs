//! The model layer: pure state and rules, no I/O.

pub mod agent_roster;
pub mod agent_town;
pub mod approval;
pub mod block;
pub mod block_laws;
pub mod catalog;
pub mod draft;
pub mod draft_store;
pub mod export;
pub mod external_edit;
pub mod goal;
pub mod image;
pub mod image_attachment;
pub mod jobs;
pub mod kb_stats;
pub mod mention;
pub mod message_action;
pub mod plan;
pub mod projections;
pub mod search;
pub mod select;
pub mod session;
pub mod session_laws;
pub mod settings;
pub mod skills;
pub mod subagent;
pub mod theme;
pub mod timeline;
pub mod town_buildings;
pub mod town_draw;
pub mod town_grid;
pub mod town_life;
pub mod town_looks;
pub mod town_map;
pub mod town_paint;
pub mod town_path;
pub mod town_rng;
pub mod town_scene;
pub mod trajectory;
pub mod trajectory_laws;
pub mod workspace;
pub mod yank;
