pub mod library;

pub use library::Library;
pub use library::LibraryStatus;
pub mod scanner;
pub mod tags;
