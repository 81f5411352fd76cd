pub mod json;
pub mod laws;
pub mod model;
pub mod schema;

pub use model::FunctionDefinition;
pub use model::FunctionParameter;
pub use model::SerializationError;
pub use model::ToolConfig;
pub use schema::generate_gemini_tools_config;
pub use schema::generate_openai_tools_config;
