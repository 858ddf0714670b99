//! Query results and the analyses built on them.
pub mod results;
pub mod info;
pub mod attributes;
pub mod arguments;
pub mod processor;
pub mod evaluator;
pub mod vars;
pub mod conditional;
pub mod functions;
pub mod comments;
pub mod nested;
pub mod deps;
pub mod expressions;
pub mod calls;
pub mod patterns;
pub mod executor;

pub use results::{QueryResult, QueryResultType, QueryCapture, QueryCompilationError};
pub use info::{
    RecipeInfo, ParameterInfo, ParameterType, DependencyInfo, DependencyType, CommentInfo, InterpolationInfo,
    InterpolationType, InterpolationContext, StringInfo, StringType, ExpressionInfo, ExpressionType,
    ExpressionContext,
};
pub use attributes::{AttributeInfo, AttributeType};
pub use arguments::{parse_attribute_arguments, parse_function_arguments};
pub use processor::QueryResultProcessor;
pub use evaluator::ExpressionEvaluator;
pub use conditional::{ConditionalExpressionInfo, ConditionalType};
pub use functions::{FunctionCallInfo, FunctionArgument, ArgumentType, FunctionReturnType, FunctionType};
pub use comments::CommentAssociator;
pub use nested::NestedInterpolationProcessor;
pub use deps::{DependencyValidator, DependencyValidationResult, DependencyValidationError, DependencyErrorType};
pub use patterns::{QueryPatterns, QueryConfig};
