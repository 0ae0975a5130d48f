use vstd::prelude::*;
use crate::classify::ParamShape;
use crate::provenance::Expr;

verus! {

/// What the host's name resolution made of a callee.
#[derive(Clone, Copy, Debug, PartialEq, Eq, Structural)]
pub enum Def {
    Fn(u64),
    Method(u64),
    Other,
}

/// The callee expression of a direct call.
#[derive(Clone, Copy, Debug, PartialEq, Eq, Structural)]
pub enum Callee {
    /// A path, with what it resolved to.
    Path(Def),
    /// Anything else (a closure, a call result); such a callee is never generic.
    NotPath,
}

/// A call expression with its arguments; a method call lists its receiver first.
#[derive(Clone, Debug)]
pub enum CallSite {
    Call { callee: Callee, args: Vec<Expr> },
    MethodCall { method: Option<Def>, args: Vec<Expr> },
}

/// A call whose callee did not resolve to an analyzable function or method.
#[derive(Clone, Copy, Debug, PartialEq, Eq, Structural)]
pub enum ResolutionMismatch {
    /// A direct call of a path that is neither a function nor a method.
    CallNotFnOrMethod,
    /// A method call that did not resolve to a method.
    MethodCallNotMethod,
    /// A resolved definition with no function signature.
    NotFunctionType,
}

/// The declared, unsubstituted input parameters of one function or method.
#[derive(Clone, Debug)]
pub struct FnSignature {
    pub def: u64,
    pub inputs: Vec<ParamShape>,
}

/// The signatures that the host resolved, looked up by definition; the first
/// entry for a definition is the one that counts.
#[derive(Clone, Debug)]
pub struct SignatureTable {
    pub entries: Vec<FnSignature>,
}

/// The definition a call resolves to: `Ok(None)` where the callee is no path.
pub open spec fn resolved_callee(call: CallSite) -> Result<Option<u64>, ResolutionMismatch> {
    match call {
        CallSite::Call { callee, .. } => match callee {
            Callee::Path(Def::Fn(d)) => Ok(Some(d)),
            Callee::Path(Def::Method(d)) => Ok(Some(d)),
            Callee::Path(Def::Other) => Err(ResolutionMismatch::CallNotFnOrMethod),
            Callee::NotPath => Ok(None),
        },
        CallSite::MethodCall { method, .. } => match method {
            Some(Def::Method(d)) => Ok(Some(d)),
            _ => Err(ResolutionMismatch::MethodCallNotMethod),
        },
    }
}

pub open spec fn call_args(call: CallSite) -> Seq<Expr> {
    match call {
        CallSite::Call { args, .. } => args@,
        CallSite::MethodCall { args, .. } => args@,
    }
}

/// The input parameters of the first entry for `def`.
pub open spec fn signature_of(entries: Seq<FnSignature>, def: u64) -> Option<Seq<ParamShape>>
    decreases entries.len(),
{
    if entries.len() == 0 {
        None
    } else if entries[0].def == def {
        Some(entries[0].inputs@)
    } else {
        signature_of(entries.drop_first(), def)
    }
}

impl CallSite {
    /// The definition this call resolves to; `None` where the callee is no path.
    pub fn callee_def(&self) -> (r: Result<Option<u64>, ResolutionMismatch>)
        ensures
            r == resolved_callee(*self),
    {
        match self {
            CallSite::Call { callee, .. } => match *callee {
                Callee::Path(Def::Fn(d)) => Ok(Some(d)),
                Callee::Path(Def::Method(d)) => Ok(Some(d)),
                Callee::Path(Def::Other) => Err(ResolutionMismatch::CallNotFnOrMethod),
                Callee::NotPath => Ok(None),
            },
            CallSite::MethodCall { method, .. } => match *method {
                Some(Def::Method(d)) => Ok(Some(d)),
                _ => Err(ResolutionMismatch::MethodCallNotMethod),
            },
        }
    }

    pub fn args(&self) -> (r: &Vec<Expr>)
        ensures
            r@ == call_args(*self),
    {
        match self {
            CallSite::Call { args, .. } => args,
            CallSite::MethodCall { args, .. } => args,
        }
    }
}

impl SignatureTable {
    /// The index of the first entry for `def`.
    pub fn find(&self, def: u64) -> (r: Option<usize>)
        ensures
            match r {
                Some(i) => i < self.entries@.len() && signature_of(self.entries@, def) == Some(
                    self.entries@[i as int].inputs@,
                ),
                None => signature_of(self.entries@, def) is None,
            },
    {
        let mut i: usize = 0;
        assert(self.entries@.skip(0) =~= self.entries@);
        while i < self.entries.len()
            invariant
                i <= self.entries@.len(),
                signature_of(self.entries@, def) == signature_of(self.entries@.skip(i as int), def),
            decreases self.entries@.len() - i,
        {
            assert(self.entries@.skip(i as int).drop_first() =~= self.entries@.skip(i + 1));
            if self.entries[i].def == def {
                return Some(i);
            }
            i = i + 1;
        }
        None
    }
}

} // verus!
