//! Detects conversions of a native (OS or C) string into a UTF-8 string that a
//! call site did not need: the converted value is handed to a generic parameter
//! that the native value would have filled just as well.

pub mod analyzer;
pub mod classify;
pub mod cow_needs_impl;
pub mod provenance;
pub mod signature;

pub use analyzer::{Finding, UnitEvent, analyze_unit};
pub use classify::{Classification, ParamShape, Verdict, classify_arguments, count_uses};
pub use cow_needs_impl::{CowNeedsImpl, ItemCheck, ItemKind};
pub use provenance::{
    BindingSite, CandidateBinding, ConversionMethod, EnvAccessor, Expr, Initializer, OsCStrConv, StrKind,
    is_narrowing_init,
};
pub use signature::{CallSite, Callee, Def, FnSignature, ResolutionMismatch, SignatureTable};
