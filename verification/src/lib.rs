//! A compile-time template compiler for an embedded angle-bracket markup
//! language, together with the runtime view-node types the compiled code
//! builds and a minimal component abstraction.
//!
//! The core is a one-token-lookahead recursive-descent parser that turns a
//! linear token stream such as `<span>Test</span>` into a tree of nodes,
//! resolves every tag into a fragment, a host tag name or a user component,
//! matches opening against closing tags, and emits equivalent
//! tree-construction code.

pub mod ast;
pub mod component;
pub mod emit;
pub mod error;
pub mod node;
pub mod parse;
pub mod sample;
pub mod token;

pub use ast::ElementNode;
pub use ast::ElementType;
pub use ast::Node;
pub use ast::Prop;
pub use component::Component;
pub use component::ComponentType;
pub use component::ErasedProps;
pub use emit::template;
pub use error::TemplateError;
pub use node::ReactElement;
pub use node::ReactElementType;
pub use node::ReactNode;
pub use sample::Main;
pub use sample::MainProps;
pub use token::Token;
