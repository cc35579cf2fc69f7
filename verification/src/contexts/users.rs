pub mod domain;
pub mod domain_to_router;
pub mod irepository;
pub mod router;
