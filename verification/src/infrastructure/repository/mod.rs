pub mod external_services;
pub mod index_map;
pub mod sources;
pub mod tag_types;
pub mod tags;
