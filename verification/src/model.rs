pub mod provider;
pub mod record;
pub mod registry;
