pub mod graphql;
pub mod server;
pub mod thumbnails;
