pub mod advances;
pub mod trade_routes;
