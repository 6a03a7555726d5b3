pub mod image_config;
pub mod logo_config;
