//! What the lowering knows about the items of a program.

pub mod function;
pub mod item;
pub mod layout;
pub mod pool;
pub mod template;
pub mod ty;

