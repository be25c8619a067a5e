pub mod counter;
pub mod keyedslice;
pub mod strings;

pub use counter::Counter;
pub use keyedslice::KeyedSlice;
pub use keyedslice::KeyedSliceBuilder;
