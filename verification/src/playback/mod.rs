pub mod controller;
pub mod queue;

pub use controller::PlayerCore;
pub use controller::QueueSnapshot;
pub use queue::Queue;
pub mod deletion;

pub use deletion::DeletionResult;
