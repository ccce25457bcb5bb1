//! Entity components and the decisions of the systems that run over them.
pub mod component;
pub mod system;
pub mod entity;
