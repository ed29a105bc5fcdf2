//! A desktop information panel's library: the feed ingestion pipeline that
//! lists a news feed and enriches its entries with thumbnails, the to-do list,
//! and the page model of the panel.

pub mod feed;
pub mod news;
pub mod pages;
pub mod todo;
