pub mod buffer;
pub mod cut;
pub mod cutter;
pub mod cutting_strategy;
pub mod sample_reader;
pub mod time;
pub mod time_order;

pub use buffer::Buffer;
pub use cut::{get_cut_command, CutInfo};
pub use cutter::Cutter;
pub use cutting_strategy::{CuttingStrategy, DbusLengthsStrategy, DbusStrategy, SilenceOptimizer};
pub use sample_reader::{get_volume_at, OutOfBoundsError, SampleReader};
pub use time::{interpolate, interpolation_factor, AudioTime, StreamSpec};
