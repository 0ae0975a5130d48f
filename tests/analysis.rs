use os_c_str_conv::{
    analyze_unit, classify_arguments, count_uses, is_narrowing_init, BindingSite, CallSite, Callee,
    Classification, ConversionMethod, CowNeedsImpl, Def, EnvAccessor, Expr, Finding, FnSignature,
    Initializer, ItemCheck, ItemKind, OsCStrConv, ParamShape, ResolutionMismatch, SignatureTable,
    StrKind, UnitEvent, Verdict,
};

const OPEN: u64 = 1;
const FOO_ONE: u64 = 2;
const FOO_SHARED: u64 = 3;
const FOO_TWO_PARAMS: u64 = 4;
const PATH_TYPE: u64 = 100;

fn signatures() -> SignatureTable {
    SignatureTable {
        entries: vec![
            FnSignature { def: OPEN, inputs: vec![ParamShape::Concrete(PATH_TYPE)] },
            FnSignature { def: FOO_ONE, inputs: vec![ParamShape::Generic(0)] },
            FnSignature {
                def: FOO_SHARED,
                inputs: vec![ParamShape::Generic(0), ParamShape::Generic(0)],
            },
            FnSignature {
                def: FOO_TWO_PARAMS,
                inputs: vec![ParamShape::Generic(0), ParamShape::Generic(0), ParamShape::Generic(1)],
            },
        ],
    }
}

fn converted(binding: u64) -> UnitEvent {
    UnitEvent::Binding(BindingSite {
        binding,
        bound_type: StrKind::Utf8String,
        init: Initializer::MethodCall { receiver: StrKind::OsString, method: ConversionMethod::IntoString },
    })
}

fn plain(binding: u64) -> UnitEvent {
    UnitEvent::Binding(BindingSite { binding, bound_type: StrKind::Utf8Str, init: Initializer::Other })
}

fn call(def: u64, args: Vec<Expr>) -> UnitEvent {
    UnitEvent::Call(CallSite::Call { callee: Callee::Path(Def::Fn(def)), args })
}

fn verdict(event: usize, position: usize, class: Classification) -> Finding {
    Finding::Argument { event, verdict: Verdict { position, class } }
}

#[test]
fn native_args_passed_to_concrete_parameter_is_necessary() {
    let events = vec![
        UnitEvent::Binding(BindingSite {
            binding: 7,
            bound_type: StrKind::Utf8String,
            init: Initializer::EnvCall(EnvAccessor::Args),
        }),
        call(OPEN, vec![Expr::Local(7)]),
    ];
    let r = analyze_unit(&events, &signatures());
    assert_eq!(r, vec![verdict(1, 0, Classification::Necessary)]);
}

#[test]
fn single_generic_use_is_removable() {
    let events = vec![converted(1), call(FOO_ONE, vec![Expr::Local(1)])];
    let r = analyze_unit(&events, &signatures());
    assert_eq!(r, vec![verdict(1, 0, Classification::Removable)]);
}

#[test]
fn shared_generic_parameter_is_necessary() {
    let events = vec![converted(1), plain(2), call(FOO_SHARED, vec![Expr::Local(1), Expr::Local(2)])];
    let r = analyze_unit(&events, &signatures());
    assert_eq!(r, vec![verdict(2, 0, Classification::Necessary)]);
}

#[test]
fn conversion_in_single_use_slot_is_removable() {
    // fn foo<A, B>(a: A, b: A, c: B), with the converted value in the `B` slot.
    let events = vec![
        plain(1),
        plain(2),
        converted(3),
        call(FOO_TWO_PARAMS, vec![Expr::Local(1), Expr::Local(2), Expr::Local(3)]),
    ];
    let r = analyze_unit(&events, &signatures());
    assert_eq!(r, vec![verdict(3, 2, Classification::Removable)]);
}

#[test]
fn conversion_in_shared_slot_is_necessary() {
    let events = vec![
        plain(1),
        converted(2),
        plain(3),
        call(FOO_TWO_PARAMS, vec![Expr::Local(1), Expr::Local(2), Expr::Local(3)]),
    ];
    let r = analyze_unit(&events, &signatures());
    assert_eq!(r, vec![verdict(3, 1, Classification::Necessary)]);
}

#[test]
fn candidate_in_both_slots_of_two_parameter_callee() {
    let events = vec![
        converted(5),
        call(FOO_TWO_PARAMS, vec![Expr::Other, Expr::Local(5), Expr::Local(5)]),
    ];
    let r = analyze_unit(&events, &signatures());
    assert_eq!(
        r,
        vec![verdict(1, 1, Classification::Necessary), verdict(1, 2, Classification::Removable)]
    );
}

#[test]
fn unresolved_callee_faults_without_stopping_the_unit() {
    let events = vec![
        converted(1),
        UnitEvent::Call(CallSite::Call { callee: Callee::Path(Def::Other), args: vec![Expr::Local(1)] }),
        call(FOO_ONE, vec![Expr::Local(1)]),
    ];
    let r = analyze_unit(&events, &signatures());
    assert_eq!(
        r,
        vec![
            Finding::Internal { event: 1, mismatch: ResolutionMismatch::CallNotFnOrMethod },
            verdict(2, 0, Classification::Removable),
        ]
    );
}

#[test]
fn method_call_that_is_no_method_faults() {
    let events = vec![
        converted(1),
        UnitEvent::Call(CallSite::MethodCall { method: Some(Def::Fn(FOO_ONE)), args: vec![Expr::Local(1)] }),
        UnitEvent::Call(CallSite::MethodCall { method: None, args: vec![Expr::Local(1)] }),
        UnitEvent::Call(CallSite::MethodCall { method: Some(Def::Method(FOO_ONE)), args: vec![Expr::Local(1)] }),
    ];
    let r = analyze_unit(&events, &signatures());
    assert_eq!(
        r,
        vec![
            Finding::Internal { event: 1, mismatch: ResolutionMismatch::MethodCallNotMethod },
            Finding::Internal { event: 2, mismatch: ResolutionMismatch::MethodCallNotMethod },
            verdict(3, 0, Classification::Removable),
        ]
    );
}

#[test]
fn definition_without_signature_faults() {
    let events = vec![converted(1), call(99, vec![Expr::Local(1)])];
    let r = analyze_unit(&events, &signatures());
    assert_eq!(r, vec![Finding::Internal { event: 1, mismatch: ResolutionMismatch::NotFunctionType }]);
}

#[test]
fn callee_that_is_no_path_is_skipped() {
    let events = vec![
        converted(1),
        UnitEvent::Call(CallSite::Call { callee: Callee::NotPath, args: vec![Expr::Local(1)] }),
    ];
    let r = analyze_unit(&events, &signatures());
    assert_eq!(r, vec![]);
}

#[test]
fn call_without_candidates_yields_nothing() {
    let events = vec![plain(1), call(FOO_ONE, vec![Expr::Local(1)]), call(OPEN, vec![Expr::Other])];
    let r = analyze_unit(&events, &signatures());
    assert_eq!(r, vec![]);
}

#[test]
fn reference_before_binding_is_no_candidate() {
    let events = vec![call(FOO_ONE, vec![Expr::Local(1)]), converted(1), call(FOO_ONE, vec![Expr::Local(1)])];
    let r = analyze_unit(&events, &signatures());
    assert_eq!(r, vec![verdict(2, 0, Classification::Removable)]);
}

#[test]
fn candidacy_holds_for_every_later_reference() {
    let events = vec![
        converted(4),
        call(FOO_ONE, vec![Expr::Local(4)]),
        plain(5),
        call(OPEN, vec![Expr::Local(4)]),
        converted(6),
        call(FOO_ONE, vec![Expr::Local(4)]),
    ];
    let r = analyze_unit(&events, &signatures());
    assert_eq!(
        r,
        vec![
            verdict(1, 0, Classification::Removable),
            verdict(3, 0, Classification::Necessary),
            verdict(5, 0, Classification::Removable),
        ]
    );
}

#[test]
fn analyzing_twice_gives_the_same_findings() {
    let events = vec![
        converted(1),
        call(FOO_TWO_PARAMS, vec![Expr::Local(1), Expr::Other, Expr::Local(1)]),
        call(77, vec![Expr::Local(1)]),
        call(OPEN, vec![Expr::Local(1)]),
    ];
    let first = analyze_unit(&events, &signatures());
    let second = analyze_unit(&events, &signatures());
    assert_eq!(first, second);
    let mut reordered = signatures();
    reordered.entries.reverse();
    assert_eq!(analyze_unit(&events, &reordered), first);
    assert_eq!(
        first,
        vec![
            verdict(1, 0, Classification::Necessary),
            verdict(1, 2, Classification::Removable),
            Finding::Internal { event: 2, mismatch: ResolutionMismatch::NotFunctionType },
            verdict(3, 0, Classification::Necessary),
        ]
    );
}

#[test]
fn first_signature_entry_counts() {
    let sigs = SignatureTable {
        entries: vec![
            FnSignature { def: 8, inputs: vec![ParamShape::Generic(0)] },
            FnSignature { def: 8, inputs: vec![ParamShape::Concrete(1)] },
        ],
    };
    assert_eq!(sigs.find(8), Some(0));
    assert_eq!(sigs.find(9), None);
    let events = vec![converted(1), call(8, vec![Expr::Local(1)])];
    assert_eq!(analyze_unit(&events, &sigs), vec![verdict(1, 0, Classification::Removable)]);
}

#[test]
fn tracker_records_only_narrowing_bindings() {
    let mut t = OsCStrConv::new();
    assert!(!t.is_candidate(&Expr::Local(1)));
    t.observe_binding(&BindingSite {
        binding: 1,
        bound_type: StrKind::Utf8Str,
        init: Initializer::MethodCall { receiver: StrKind::CStr, method: ConversionMethod::ToStr },
    });
    t.observe_binding(&BindingSite {
        binding: 2,
        bound_type: StrKind::Utf8Str,
        init: Initializer::MethodCall { receiver: StrKind::Utf8String, method: ConversionMethod::ToStr },
    });
    t.observe_binding(&BindingSite { binding: 3, bound_type: StrKind::Other, init: Initializer::Other });
    assert!(t.is_candidate(&Expr::Local(1)));
    assert!(!t.is_candidate(&Expr::Local(2)));
    assert!(!t.is_candidate(&Expr::Local(3)));
    assert!(!t.is_candidate(&Expr::Other));
    assert_eq!(
        t.candidate_flags(&vec![Expr::Local(3), Expr::Local(1), Expr::Other]),
        vec![false, true, false]
    );
}

#[test]
fn analyze_call_reports_verdicts_and_faults() {
    let mut t = OsCStrConv::new();
    t.observe_binding(&BindingSite {
        binding: 1,
        bound_type: StrKind::Utf8String,
        init: Initializer::EnvCall(EnvAccessor::Var),
    });
    let sigs = signatures();
    let ok = CallSite::Call { callee: Callee::Path(Def::Method(FOO_ONE)), args: vec![Expr::Local(1)] };
    assert_eq!(
        t.analyze_call(&ok, &sigs),
        Ok(vec![Verdict { position: 0, class: Classification::Removable }])
    );
    let bad = CallSite::Call { callee: Callee::Path(Def::Other), args: vec![Expr::Local(1)] };
    assert_eq!(t.analyze_call(&bad, &sigs), Err(ResolutionMismatch::CallNotFnOrMethod));
}

#[test]
fn narrowing_initializers() {
    for receiver in [StrKind::OsStr, StrKind::OsString, StrKind::CStr, StrKind::CString] {
        for method in [ConversionMethod::ToStr, ConversionMethod::ToStringLossy, ConversionMethod::IntoString] {
            assert!(is_narrowing_init(Initializer::MethodCall { receiver, method }));
        }
        assert!(!is_narrowing_init(Initializer::MethodCall { receiver, method: ConversionMethod::Other }));
    }
    for receiver in [StrKind::Utf8Str, StrKind::Utf8String, StrKind::Other] {
        assert!(!is_narrowing_init(Initializer::MethodCall { receiver, method: ConversionMethod::ToStr }));
    }
    assert!(is_narrowing_init(Initializer::EnvCall(EnvAccessor::Args)));
    assert!(is_narrowing_init(Initializer::EnvCall(EnvAccessor::Vars)));
    assert!(is_narrowing_init(Initializer::EnvCall(EnvAccessor::Var)));
    assert!(!is_narrowing_init(Initializer::EnvCall(EnvAccessor::Other)));
    assert!(!is_narrowing_init(Initializer::Other));
}

#[test]
fn usage_counts() {
    let inputs = vec![
        ParamShape::Generic(0),
        ParamShape::Concrete(0),
        ParamShape::Generic(1),
        ParamShape::Generic(0),
        ParamShape::Generic(0),
    ];
    assert_eq!(count_uses(&inputs, 0), 3);
    assert_eq!(count_uses(&inputs, 1), 1);
    assert_eq!(count_uses(&inputs, 2), 0);
    assert_eq!(count_uses(&vec![], 0), 0);
}

#[test]
fn classification_pairs_positions_up_to_the_shorter_side() {
    let inputs = vec![ParamShape::Generic(0), ParamShape::Concrete(3), ParamShape::Generic(1)];
    assert_eq!(
        classify_arguments(&inputs, &vec![true, true, true, true]),
        vec![
            Verdict { position: 0, class: Classification::Removable },
            Verdict { position: 1, class: Classification::Necessary },
            Verdict { position: 2, class: Classification::Removable },
        ]
    );
    assert_eq!(
        classify_arguments(&inputs, &vec![false, true]),
        vec![Verdict { position: 1, class: Classification::Necessary }]
    );
    assert_eq!(classify_arguments(&inputs, &vec![false, false, false]), vec![]);
    assert_eq!(classify_arguments(&vec![], &vec![true]), vec![]);
}

#[test]
fn non_generic_callee_is_always_necessary() {
    let inputs = vec![ParamShape::Concrete(1), ParamShape::Concrete(1)];
    assert_eq!(
        classify_arguments(&inputs, &vec![true, true]),
        vec![
            Verdict { position: 0, class: Classification::Necessary },
            Verdict { position: 1, class: Classification::Necessary },
        ]
    );
}

#[test]
fn copy_on_write_pass_dispatch() {
    let pass = CowNeedsImpl;
    assert_eq!(pass.check_item(ItemKind::Trait), ItemCheck::NewTrait);
    assert_eq!(pass.check_item(ItemKind::Enum), ItemCheck::NewType);
    assert_eq!(pass.check_item(ItemKind::Struct), ItemCheck::NewType);
    assert_eq!(pass.check_item(ItemKind::Union), ItemCheck::NewType);
    assert_eq!(pass.check_item(ItemKind::Other), ItemCheck::Nothing);
}
