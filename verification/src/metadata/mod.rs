pub mod resolved;
