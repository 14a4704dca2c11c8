//! Classification of segmented tokens into words, stop words and separators.
pub mod classifier;
pub mod separator;
pub mod token;
