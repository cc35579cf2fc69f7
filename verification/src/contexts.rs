pub mod places;
pub mod routes;
pub mod users;
