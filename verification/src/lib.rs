pub mod admin;
pub mod album;
pub mod albums;
pub mod auth;
pub mod codec;
pub mod decimal;
pub mod email;
pub mod errors;
pub mod hsts;
pub mod https;
pub mod pagination;
pub mod photo;
pub mod photos;
pub mod publishing;
pub mod s3;
pub mod store;
pub mod user;
pub mod util;
