pub mod datetime;
pub mod external_services;
pub mod media;
pub mod replicas;
pub mod sources;
pub mod tag_types;
pub mod tags;
