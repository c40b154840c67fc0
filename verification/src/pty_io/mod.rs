pub mod io;

pub use io::AsyncIOHandler;
