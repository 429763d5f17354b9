//! Result-set table engine for bibliographic search results: record
//! rendering, per-column and global pattern filtering, stable descending
//! sort, windowed pagination, selection, CSV export and the request
//! lifecycle that decides what the table shows.

pub mod text;
pub mod article;
pub mod filter;
pub mod sort;
pub mod pagination;
pub mod selection;
pub mod export;
pub mod table;
pub mod status;
pub mod request;
