pub mod builder;
pub mod facts;
pub mod fault;
pub mod ioctl;
pub mod laws;
pub mod mmap;
pub mod pagemap;
pub mod path;
pub mod protocol;
pub mod service;
pub mod sys;
pub mod text;
pub mod uffd;
pub mod workload;
