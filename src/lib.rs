//! Compiles URI templates into expression trees and matches URLs against them.
pub mod canon;
pub mod entries;
pub mod error;
pub mod expression;
pub mod http;
pub mod params;
pub mod scanner;
pub mod template;
pub mod token;
pub mod url;

pub use error::{Error, ErrorKind};
pub use expression::Expression;
pub use params::{Params, Query};
pub use scanner::Scanner;
pub use template::Template;
pub use url::{Protocol, Url};
