pub mod domain;
pub mod domain_to_router;
pub mod router;
pub mod router_to_domain;
