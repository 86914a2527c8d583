pub mod codec;
pub mod entry;
pub mod meta;
pub mod review;
pub mod session;
pub mod store;

pub use entry::{Entry, StoreError};
pub use meta::Meta;
pub use review::{Mode, Reply, Turn};
pub use session::Session;
