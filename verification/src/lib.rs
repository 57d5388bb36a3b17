//! A lazy object proxy: a stand-in for an expensive-to-construct value that
//! defers construction to the first genuine use, memoizes the constructed
//! target, and transparently forwards every supported operation to it.

pub mod error;
pub mod text;
pub mod value;
pub mod arith;
pub mod items;
pub mod proxy;
pub mod factories;
pub mod laws;

pub use error::Error;
pub use value::{Scalar, Value, CmpOp};
pub use proxy::{Factory, Proxy, ProxyState, extract, is_resolved, resolve};
pub use factories::{ConstFactory, FlakyFactory, NeverCallable};
