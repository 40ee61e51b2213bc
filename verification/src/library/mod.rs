//! The library of songs, and how it is browsed.
pub mod album_content_view;
pub mod artist_content_view;
pub mod browse;
pub mod controller;
pub mod genre_content_view;
pub mod history;
pub mod selection;
