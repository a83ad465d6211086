//! Storage and dispatch core of an entity-component-system runtime.
//!
//! A [`storage::ComponentStorage`] owns every component instance, grouped into
//! per-type collections keyed by a stable type-identity token, together with a
//! registry that maps entity handles to the slot their component of each type
//! occupies. Each stored instance carries an explicit single-writer /
//! multi-reader borrow state, so a component's `update` may read siblings
//! through the shared world while the dispatch loop holds the instance it is
//! updating.

pub mod component;
pub mod demo;
pub mod dispatch;
pub mod entity;
pub mod laws;
pub mod storage;
pub mod world;
