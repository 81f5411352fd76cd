//! The vendor-neutral data model: a tool configuration is an ordered
//! list of function definitions, each with an ordered list of named,
//! typed parameters.

use vstd::prelude::*;

verus! {

/// One named argument of a callable function: its name, free-text
/// description, JSON Schema type string (passed through unvalidated),
/// optional ordered list of allowed string values, and whether the
/// argument is mandatory.
pub struct FunctionParameter {
    pub name: String,
    pub description: String,
    pub param_type: String,
    pub enum_values: Option<Vec<String>>,
    pub required: bool,
}

/// Mathematical image of a `FunctionParameter`.
pub ghost struct ParamView {
    pub name: Seq<char>,
    pub description: Seq<char>,
    pub param_type: Seq<char>,
    pub enum_values: Option<Seq<Seq<char>>>,
    pub required: bool,
}

impl View for FunctionParameter {
    type V = ParamView;

    open spec fn view(&self) -> ParamView {
        ParamView {
            name: self.name@,
            description: self.description@,
            param_type: self.param_type@,
            enum_values: self.enum_values.deep_view(),
            required: self.required,
        }
    }
}

impl DeepView for FunctionParameter {
    type V = ParamView;

    open spec fn deep_view(&self) -> ParamView {
        self.view()
    }
}

/// One callable tool: a name (used verbatim as the schema key), a
/// description, and an ordered list of parameters.
pub struct FunctionDefinition {
    pub name: String,
    pub description: String,
    pub parameters: Vec<FunctionParameter>,
}

/// Mathematical image of a `FunctionDefinition`.
pub ghost struct FunctionView {
    pub name: Seq<char>,
    pub description: Seq<char>,
    pub parameters: Seq<ParamView>,
}

impl View for FunctionDefinition {
    type V = FunctionView;

    open spec fn view(&self) -> FunctionView {
        FunctionView {
            name: self.name@,
            description: self.description@,
            parameters: self.parameters.deep_view(),
        }
    }
}

impl DeepView for FunctionDefinition {
    type V = FunctionView;

    open spec fn deep_view(&self) -> FunctionView {
        self.view()
    }
}

/// The top-level input: an ordered list of function definitions, whose
/// order both builders preserve.
pub struct ToolConfig {
    pub functions: Vec<FunctionDefinition>,
}

/// Mathematical image of a `ToolConfig`.
pub ghost struct ConfigView {
    pub functions: Seq<FunctionView>,
}

impl View for ToolConfig {
    type V = ConfigView;

    open spec fn view(&self) -> ConfigView {
        ConfigView { functions: self.functions.deep_view() }
    }
}

/// The single error kind of the library, returned when the JSON
/// encoder cannot represent a built document. With this data model
/// (strings, booleans and lists thereof) encoding never fails, so the
/// variant is reserved for robustness.
#[derive(Clone, Copy, Debug, PartialEq, Eq, Structural)]
pub struct SerializationError;

} // verus!
