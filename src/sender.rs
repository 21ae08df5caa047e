pub mod bind;
pub mod eager;
pub mod map;
pub mod sched;
pub mod sched_on;
pub mod transfer;
pub mod value;
