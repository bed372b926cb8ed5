//! Verified core of IronNest: the decisions that the home-automation web app and
//! its command-line uploader make, separated from rendering and I/O.
pub mod text;
pub mod meals;
pub mod hexcodec;
pub mod dashboard;
pub mod devices;
pub mod mish;
pub mod slider;
pub mod roku;
pub mod cli;
pub mod json;
pub mod routes;
pub mod notices;
pub mod timeline;
pub mod blobs;
