pub mod helpers;
pub mod sequences;
pub mod text;
