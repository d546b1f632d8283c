//! Cache-busting for static web assets, with the page data and request
//! helpers of the site that serves them.

pub mod analytics;
pub mod asset_table;
pub mod cache_buster;
pub mod cache_control;
pub mod clock;
pub mod fingerprint;
pub mod ip;
pub mod number;
pub mod path;
pub mod settings;
pub mod snapshot;
pub mod source_map;
pub mod template_data;
pub mod templates;
pub mod text;
pub mod walker;

pub use analytics::RequestPayload;
pub use cache_buster::CacheBuster;
pub use ip::resolve_true_client_ip_address;
pub use settings::base_settings::BaseSettings;
pub use settings::environment::Environment;
pub use template_data::TemplateData;
pub use templates::schema::copyright::Copyright;
pub use templates::schema::footer::Footer;
pub use templates::schema::header::Header;
pub use templates::schema::image::Image;
pub use templates::schema::metadata::Metadata;
pub use templates::schema::nav_link::NavLink;
pub use templates::schema::page::Page;
pub use templates::schema::social_media::SocialMedia;
pub use templates::schema::twitter::Twitter;
