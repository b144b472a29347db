pub mod adapters;
pub mod api_publisher;
pub mod batch;
pub mod cache;
pub mod conf;
pub mod debounce;
pub mod countdown_latch;
pub mod events;
pub mod fanout;
pub mod converter;
pub mod error;
pub mod filter;
pub mod interpolate;
pub mod key_lock;
pub mod metric;
pub mod model;
pub mod scheduler;
pub mod text;

