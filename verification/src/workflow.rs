pub mod identity;
pub mod panes;
