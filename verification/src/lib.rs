//! A syntax-aware test-case reducer for Lua programs.
//!
//! Given a Lua source and an external interestingness predicate (a script that
//! exits non-zero when the input is "interesting", i.e. still failing), the
//! reducer applies minimizing delta debugging over classes of concrete-syntax
//! nodes and returns a smaller source that the predicate still classifies as
//! failing.
//!
//! Running the predicate is the environment's job: the reducer is a state
//! machine.  [`driver::run_app`] builds a [`driver::Reducer`]; the caller asks
//! it for the next [`driver::Action`], performs the request (write the
//! candidate to the given path, run the predicate on it), and feeds the
//! resulting [`passes::TestOutcome`] back through [`driver::Reducer::step`].

pub mod app;
pub mod delta;
pub mod driver;
pub mod error;
pub mod laws;
pub mod passes;
pub mod rewrite;
pub mod treesitter;
