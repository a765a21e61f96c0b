pub mod logging;
pub mod parsed_url;
pub mod text;
pub mod uri;
