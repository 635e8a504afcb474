//! Source transforms run by Node.js or web workers: PostCSS and webpack loaders.
pub mod config;
pub mod postcss_worker;
pub mod webpack_worker;
