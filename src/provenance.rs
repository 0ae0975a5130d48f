use vstd::prelude::*;

verus! {

/// The string type of a value, as far as this analysis tells them apart.
#[derive(Clone, Copy, Debug, PartialEq, Eq, Structural)]
pub enum StrKind {
    OsStr,
    OsString,
    CStr,
    CString,
    Utf8Str,
    Utf8String,
    Other,
}

/// The methods that turn a native string into a UTF-8 one.
#[derive(Clone, Copy, Debug, PartialEq, Eq, Structural)]
pub enum ConversionMethod {
    ToStr,
    ToStringLossy,
    IntoString,
    Other,
}

/// The environment accessors that hand out native strings already narrowed to UTF-8.
#[derive(Clone, Copy, Debug, PartialEq, Eq, Structural)]
pub enum EnvAccessor {
    Args,
    Vars,
    Var,
    Other,
}

/// The initializer of a binding, as resolved by the host.
#[derive(Clone, Copy, Debug, PartialEq, Eq, Structural)]
pub enum Initializer {
    /// A method call on a receiver of the given string type.
    MethodCall { receiver: StrKind, method: ConversionMethod },
    /// A call of an environment accessor.
    EnvCall(EnvAccessor),
    /// Anything else.
    Other,
}

/// A local binding with its initializer.
#[derive(Clone, Copy, Debug, PartialEq, Eq, Structural)]
pub struct BindingSite {
    pub binding: u64,
    pub bound_type: StrKind,
    pub init: Initializer,
}

/// A binding whose value came from a narrowing conversion.
#[derive(Clone, Copy, Debug, PartialEq, Eq, Structural)]
pub struct CandidateBinding {
    pub binding: u64,
    pub bound_type: StrKind,
}

/// An argument expression, as far as provenance tracking looks into it.
#[derive(Clone, Copy, Debug, PartialEq, Eq, Structural)]
pub enum Expr {
    /// A direct path reference to the local binding with this identity.
    Local(u64),
    /// Any other expression: projections, wrapped values, call results.
    Other,
}

pub open spec fn is_native(k: StrKind) -> bool {
    k is OsStr || k is OsString || k is CStr || k is CString
}

/// Whether an initializer is one of the recognized narrowing conversions.
pub open spec fn is_narrowing(init: Initializer) -> bool {
    match init {
        Initializer::MethodCall { receiver, method } => is_native(receiver) && !(method is Other),
        Initializer::EnvCall(accessor) => !(accessor is Other),
        Initializer::Other => false,
    }
}

/// The binding table after observing `site`.
pub open spec fn observed(table: Seq<CandidateBinding>, site: BindingSite) -> Seq<CandidateBinding> {
    if is_narrowing(site.init) {
        table.push(CandidateBinding { binding: site.binding, bound_type: site.bound_type })
    } else {
        table
    }
}

/// Whether `e` refers directly to a binding of the table.
pub open spec fn refers_to_candidate(table: Seq<CandidateBinding>, e: Expr) -> bool {
    match e {
        Expr::Local(id) => exists|i: int| 0 <= i < table.len() && (#[trigger] table[i]).binding == id,
        Expr::Other => false,
    }
}

/// Whether an initializer narrows a native string.
pub fn is_narrowing_init(init: Initializer) -> (r: bool)
    ensures
        r == is_narrowing(init),
{
    match init {
        Initializer::MethodCall { receiver, method } => {
            let native = match receiver {
                StrKind::OsStr | StrKind::OsString | StrKind::CStr | StrKind::CString => true,
                _ => false,
            };
            native && !matches!(method, ConversionMethod::Other)
        },
        Initializer::EnvCall(accessor) => !matches!(accessor, EnvAccessor::Other),
        Initializer::Other => false,
    }
}

/// The binding table of one compilation unit: the bindings that hold the
/// result of a narrowing conversion, in the order they were observed.
pub struct OsCStrConv {
    cbs_locals: Vec<CandidateBinding>,
}

impl View for OsCStrConv {
    type V = Seq<CandidateBinding>;

    closed spec fn view(&self) -> Seq<CandidateBinding> {
        self.cbs_locals@
    }
}

impl OsCStrConv {
    /// An empty table.
    pub fn new() -> (r: Self)
        ensures
            r@ == Seq::<CandidateBinding>::empty(),
    {
        OsCStrConv { cbs_locals: Vec::new() }
    }

    /// Records `site` when its initializer is a narrowing conversion; entries
    /// are only ever added.
    pub fn observe_binding(&mut self, site: &BindingSite)
        ensures
            final(self)@ == observed(old(self)@, *site),
    {
        if is_narrowing_init(site.init) {
            self.cbs_locals.push(CandidateBinding { binding: site.binding, bound_type: site.bound_type });
        }
    }

    /// Whether `e` is a direct reference to a recorded binding.
    pub fn is_candidate(&self, e: &Expr) -> (r: bool)
        ensures
            r == refers_to_candidate(self@, *e),
    {
        match *e {
            Expr::Local(id) => {
                let mut i: usize = 0;
                while i < self.cbs_locals.len()
                    invariant
                        i <= self.cbs_locals@.len(),
                        *e == Expr::Local(id),
                        forall|j: int| 0 <= j < i ==> self.cbs_locals@[j].binding != id,
                    decreases self.cbs_locals@.len() - i,
                {
                    if self.cbs_locals[i].binding == id {
                        assert(self@[i as int].binding == id);
                        return true;
                    }
                    i = i + 1;
                }
                false
            },
            Expr::Other => false,
        }
    }

    /// For each argument, whether it refers to a recorded binding.
    pub fn candidate_flags(&self, args: &Vec<Expr>) -> (r: Vec<bool>)
        ensures
            r@ == candidate_flags_of(self@, args@),
    {
        let mut out: Vec<bool> = Vec::new();
        let mut i: usize = 0;
        while i < args.len()
            invariant
                i <= args@.len(),
                out@ =~= candidate_flags_of(self@, args@.take(i as int)),
            decreases args@.len() - i,
        {
            let flag = self.is_candidate(&args[i]);
            out.push(flag);
            i = i + 1;
            assert(out@ =~= candidate_flags_of(self@, args@.take(i as int)));
        }
        assert(args@.take(args@.len() as int) =~= args@);
        out
    }
}

/// For each argument, whether it refers to a binding of the table.
pub open spec fn candidate_flags_of(table: Seq<CandidateBinding>, args: Seq<Expr>) -> Seq<bool> {
    Seq::new(args.len(), |i: int| refers_to_candidate(table, args[i]))
}

} // verus!
