pub mod codex_quota;
pub mod identity;
pub mod spawn;
