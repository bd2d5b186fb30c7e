pub mod tree;
pub mod estimate;
pub mod plan;
pub mod gpt_disk;
