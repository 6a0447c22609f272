//! Runner for named, hierarchically grouped test scenarios.

pub mod cli;
pub mod scenario;
pub mod test_context;
