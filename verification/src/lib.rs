//! Path-fragment resolution and compiler-invocation building for a
//! compiler-test harness.
//!
//! The crate models a tiny declarative language of path fragments: literal
//! text, references to named environment variables, and shell-command
//! substitutions.  A `RmakeSupportContext` resolves fragment sequences to
//! plain strings, and a `RustcBuilder` assembles a compiler invocation from
//! resolved fragments.  External commands run outside this crate: the
//! resolver consumes their recorded outcomes from a `ShellTape`, so that
//! everything from the recorded outcome onward is verified.

pub mod assoc;
pub mod environment;
pub mod fragment;
pub mod resolve;
pub mod rustc;
pub mod shell;

pub use environment::{Environment, EnvironmentVariable};
pub use fragment::PathFragment;
pub use resolve::RmakeSupportContext;
pub use rustc::{CompileError, CrateType, EmitKind, RustcBuilder, RustcInvocation};
pub use shell::{Resolution, ResolveError, ShellOutput, ShellTape};
