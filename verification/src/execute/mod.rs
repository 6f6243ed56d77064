pub mod operation;
pub mod process_response;
pub mod query_plan;
pub mod remote_joins;
