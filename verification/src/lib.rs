pub mod block;
pub mod bytes;
pub mod errors;
pub mod ext_defs;
pub mod ext_fs;
pub mod ext_handle;
pub mod ext_ops;
pub mod fat_defs;
pub mod fat_fs;
pub mod fat_handle;
pub mod fat_ops;
pub mod fat_server;
pub mod handles;
pub mod initrd;
pub mod initrd_server;
pub mod pathname;
pub mod proto;

pub use errors::FsError;
