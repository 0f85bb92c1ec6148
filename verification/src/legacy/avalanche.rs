pub use crate::node::avalanche::{Confidence, Vote, VoteTally};
