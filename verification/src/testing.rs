//! Machinery for playing whole games automatically and checking every move they make.
pub mod checker;
pub mod oracle;
pub mod strategy;
pub mod soundness;
