//! A columnar entity-component store: typed columns of rows, entities that
//! record where their components live, and cached multi-column queries.

pub mod ids;
pub mod refs;
pub mod column;
pub mod entity;
pub mod world;
pub mod laws;
