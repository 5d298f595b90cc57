//! A toy character-level language-model toolkit: the tokenizer, the windowed
//! training dataset, and the integer planning around training and sampling.
pub mod corpus;
pub mod dataset;
pub mod infer;
pub mod model;
pub mod tokenizer;
pub mod train;

pub use dataset::{FlatBatch, TokenBatcher, TokenWindowDataset};
pub use tokenizer::{CharTokenizer, Tokenizer};
pub use train::{training_plan, TrainingPlan};
