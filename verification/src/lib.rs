//! The verified core of Flappy Rust: the rules of a run, the layout and
//! encoding of its sounds, and the format of the saved best score.

pub mod audio;
pub mod high_score;
pub mod rules;
pub mod wav;
