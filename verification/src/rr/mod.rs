pub mod erased;
pub mod meta;
pub mod provided;
pub mod typeset;

pub use typeset::TypeSet;
