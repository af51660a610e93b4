pub mod federation;
pub mod model;
pub mod location;
pub mod namespace;
pub mod resolver;
pub mod service;
pub mod text;
