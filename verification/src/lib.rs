//! A terminal task tracker's core: a task store with status/priority/text
//! filtering and a cursor that navigates the visible tasks either as a flat
//! list or as a kanban board of status columns ordered by priority.

pub mod filter;
pub mod models;
pub mod nav;
pub mod state;
pub mod text;
