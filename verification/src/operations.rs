pub mod keyframes;
pub mod cut;
pub mod concat;
pub mod split;
