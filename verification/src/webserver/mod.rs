pub mod routes;
pub mod server;
