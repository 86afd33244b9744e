//! An interpreter for the merchants' trade language: alien symbols bound to
//! Roman letters, product prices stated in those symbols, and queries that
//! ask for decimal values and credit prices.
use vstd::prelude::*;

pub mod error;
pub mod roman;
pub mod numeral;
pub mod text;
pub mod amount;
pub mod statement;
pub mod table;
pub mod interpreter;
pub mod session;

pub use error::GuideError;
pub use interpreter::{Interpreter, UnitPrice};
pub use roman::Roman;
pub use session::{Transcript, interpret};
