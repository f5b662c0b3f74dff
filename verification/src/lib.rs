pub mod dispatch;
pub mod emit;
pub mod envelope;
pub mod outcome;
pub mod rewrite;
pub mod text;

pub use outcome::ExecutionResult;
pub use outcome::failure_result;
