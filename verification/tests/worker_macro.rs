use hornetmq::kernel::backoff::BackoffStrategy;
use hornetmq::scripts::move_to_active::Limiter;
use hornetmq::worker_macro::{
    extract_job_data_type, extract_return_type, generate_worker, parse_backoff, parse_limiter,
    to_pascal_case, ArgShape, ErrorSite, GenericShape, OptToken, SegmentShape, SignaturePart, SignatureShape,
    TypeShape, WorkerOpts,
};

fn ident(s: &str) -> OptToken {
    OptToken::Ident(s.to_string())
}

fn string(s: &str) -> OptToken {
    OptToken::Str(s.to_string())
}

fn number(s: &str) -> OptToken {
    OptToken::Int(s.to_string())
}

/// `name = value, name = value`
fn list(pairs: Vec<(&str, OptToken)>) -> Vec<OptToken> {
    let mut tokens = Vec::new();
    for (name, value) in pairs {
        if !tokens.is_empty() {
            tokens.push(OptToken::Comma);
        }
        tokens.push(ident(name));
        tokens.push(OptToken::Eq);
        tokens.push(value);
    }
    tokens
}

fn error(tokens: Vec<OptToken>) -> (usize, String) {
    let e = WorkerOpts::parse(&tokens).unwrap_err();
    (e.at, e.message)
}

fn at(index: usize, message: &str) -> (usize, String) {
    (index, message.to_string())
}

/// A path of plain segments that ends in `name<..>` with the given argument.
fn generic(arg: &str) -> TypeShape {
    TypeShape::Path(vec![
        SegmentShape::Plain,
        SegmentShape::Generic(vec![GenericShape::Type(arg.to_string())]),
    ])
}

fn signature(name: &str) -> SignatureShape {
    SignatureShape {
        name: name.to_string(),
        inputs: vec![ArgShape::Typed(TypeShape::Reference(Box::new(generic("EmailData"))))],
        output: Some(generic("String")),
    }
}

#[test]
fn limiter_texts() {
    assert_eq!(parse_limiter("10, 1000"), Ok(Limiter { max: 10, duration: 1000 }));
    assert_eq!(parse_limiter(" 1 ,\t2 "), Ok(Limiter { max: 1, duration: 2 }));
    assert_eq!(
        parse_limiter("4294967295,18446744073709551615"),
        Ok(Limiter { max: u32::MAX, duration: u64::MAX })
    );
    let two = "limiter requires two arguments: max, duration (e.g. \"10, 1000\")";
    for s in ["", "10", "1,2,3", "1,2,"] {
        assert_eq!(parse_limiter(s), Err(two.to_string()));
    }
    assert_eq!(parse_limiter(" x ,1"), Err("invalid limiter max: x".to_string()));
    assert_eq!(parse_limiter("4294967296,1"), Err("invalid limiter max: 4294967296".to_string()));
    assert_eq!(parse_limiter("1, -2"), Err("invalid limiter duration: -2".to_string()));
    assert_eq!(parse_limiter("a,b"), Err("invalid limiter max: a".to_string()));
}

#[test]
fn backoff_texts() {
    assert_eq!(parse_backoff("fixed(1000)"), Ok(BackoffStrategy::Fixed(1000)));
    assert_eq!(parse_backoff("  fixed( 5 ) "), Ok(BackoffStrategy::Fixed(5)));
    assert_eq!(
        parse_backoff("exponential(1000, 30000)"),
        Ok(BackoffStrategy::Exponential { base: 1000, max: 30000 })
    );
    let form = "backoff must be \"fixed(<ms>)\" or \"exponential(<base>, <max>)\"";
    for s in ["", "fixed", "fixed(1", "linear(1)", "Fixed(1)", "fixed (1)", "exponential[1,2]"] {
        assert_eq!(parse_backoff(s), Err(form.to_string()));
    }
    assert_eq!(parse_backoff("fixed( x )"), Err("invalid fixed backoff value:  x ".to_string()));
    assert_eq!(parse_backoff("fixed()"), Err("invalid fixed backoff value: ".to_string()));
    let two = "exponential backoff requires two arguments: base, max";
    assert_eq!(parse_backoff("exponential(1)"), Err(two.to_string()));
    assert_eq!(parse_backoff("exponential(1,2,3)"), Err(two.to_string()));
    assert_eq!(parse_backoff("exponential( a ,b)"), Err("invalid exponential base: a".to_string()));
    assert_eq!(parse_backoff("exponential(1, b )"), Err("invalid exponential max: b".to_string()));
}

#[test]
fn documented_texts_read_back() {
    for n in [0u64, 1, 999, u64::MAX] {
        assert_eq!(parse_backoff(&format!("fixed({n})")), Ok(BackoffStrategy::Fixed(n)));
        assert_eq!(
            parse_backoff(&format!("exponential({n}, {n})")),
            Ok(BackoffStrategy::Exponential { base: n, max: n })
        );
        assert_eq!(parse_limiter(&format!("7, {n}")), Ok(Limiter { max: 7, duration: n }));
    }
}

#[test]
fn options_default() {
    let opts = WorkerOpts::parse(&list(vec![("queue", string("simple"))])).unwrap();
    assert_eq!(opts.queue, "simple");
    assert_eq!(opts.concurrency, 1);
    assert_eq!(opts.retry, 0);
    assert_eq!(opts.backoff, None);
    assert_eq!(opts.lock_duration, 30_000);
    assert_eq!(opts.limiter, None);
}

#[test]
fn options_all_set() {
    let tokens = list(vec![
        ("queue", string("tasks")),
        ("concurrency", number("10")),
        ("retry", number("5")),
        ("backoff", string("exponential(1000, 30000)")),
        ("lock_duration", number("60000")),
        ("limiter", string("100, 5000")),
    ]);
    let opts = WorkerOpts::parse(&tokens).unwrap();
    assert_eq!(opts.queue, "tasks");
    assert_eq!(opts.concurrency, 10);
    assert_eq!(opts.retry, 5);
    assert_eq!(opts.backoff, Some(BackoffStrategy::Exponential { base: 1000, max: 30000 }));
    assert_eq!(opts.lock_duration, 60000);
    assert_eq!(opts.limiter, Some(Limiter { max: 100, duration: 5000 }));
}

#[test]
fn options_may_end_in_a_comma_and_repeat() {
    let mut tokens = list(vec![("queue", string("a")), ("queue", string("b"))]);
    tokens.push(OptToken::Comma);
    assert_eq!(WorkerOpts::parse(&tokens).unwrap().queue, "b");
}

#[test]
fn order_of_options_does_not_matter() {
    let option = |i: usize| match i {
        0 => ("queue", string("q")),
        1 => ("concurrency", number("10")),
        2 => ("retry", number("5")),
        3 => ("backoff", string("fixed(7)")),
        4 => ("lock_duration", number("60000")),
        _ => ("limiter", string("100, 5000")),
    };
    for shift in 0..6 {
        for trailing in [false, true] {
            let mut tokens = list((0..6).map(|i| option((i * 5 + shift) % 6)).collect());
            if trailing {
                tokens.push(OptToken::Comma);
            }
            let opts = WorkerOpts::parse(&tokens).unwrap();
            assert_eq!(opts.queue, "q");
            assert_eq!((opts.concurrency, opts.retry, opts.lock_duration), (10, 5, 60000));
            assert_eq!(opts.backoff, Some(BackoffStrategy::Fixed(7)));
            assert_eq!(opts.limiter, Some(Limiter { max: 100, duration: 5000 }));
        }
    }
    let refused = |a, b| WorkerOpts::parse(&list(vec![a, b])).is_err();
    assert!(refused(("queue", string("q")), ("color", number("1"))));
    assert!(refused(("color", number("1")), ("queue", string("q"))));
}

#[test]
fn pascal_case_of_joined_names() {
    for (a, b) in [("send", "email"), ("", "x"), ("x", ""), ("a_b", "_c"), ("É", "ß")] {
        let joined = to_pascal_case(&format!("{a}_{b}"));
        assert_eq!(joined, to_pascal_case(a) + &to_pascal_case(b));
        assert!(!joined.contains('_'));
    }
}

#[test]
fn extra_underscores_vanish() {
    for name in ["send_email", "x", "", "é_ß"] {
        assert_eq!(to_pascal_case(&format!("_{name}")), to_pascal_case(name));
        assert_eq!(to_pascal_case(&format!("{name}_")), to_pascal_case(name));
    }
    assert_eq!(to_pascal_case("a__b"), to_pascal_case("a_b"));
}

#[test]
fn no_character_becomes_an_underscore() {
    for c in ('\0'..=char::MAX).filter(|c| *c != '_') {
        assert!(!to_pascal_case(&format!("{c}{c}")).contains('_'));
    }
}

#[test]
fn queue_is_required() {
    assert_eq!(error(vec![]), at(0, "missing required option: queue"));
    let tokens = list(vec![("concurrency", number("5"))]);
    assert_eq!(error(tokens), at(0, "missing required option: queue"));
}

#[test]
fn option_errors_are_positioned() {
    assert_eq!(error(list(vec![("color", number("1"))])), at(0, "unexpected option: color"));
    let second = list(vec![("queue", string("q")), ("color", number("1"))]);
    assert_eq!(error(second), at(4, "unexpected option: color"));
    assert_eq!(error(vec![OptToken::Comma]), at(0, "expected identifier"));
    assert_eq!(
        error(vec![OptToken::Keyword("type".to_string())]),
        at(0, "expected identifier, found keyword `type`")
    );
    assert_eq!(error(vec![ident("color")]), at(1, "expected `=`"));
    assert_eq!(error(vec![ident("queue"), OptToken::Comma]), at(1, "expected `=`"));
    assert_eq!(
        error(vec![ident("queue"), OptToken::Eq]),
        at(2, "unexpected end of input, expected string literal")
    );
    assert_eq!(error(list(vec![("queue", number("1"))])), at(2, "expected string literal"));
    assert_eq!(
        error(vec![ident("concurrency"), OptToken::Eq]),
        at(2, "unexpected end of input, expected integer literal")
    );
    assert_eq!(error(list(vec![("concurrency", OptToken::Other)])), at(2, "expected integer literal"));
    assert_eq!(
        error(vec![ident("queue"), OptToken::Eq, string("q"), ident("x")]),
        at(3, "expected `,`")
    );
    assert_eq!(
        error(list(vec![("concurrency", number("4294967296"))])),
        at(2, "number too large to fit in target type")
    );
    assert_eq!(
        error(list(vec![("lock_duration", number("-1"))])),
        at(2, "invalid digit found in string")
    );
    assert_eq!(
        error(list(vec![("backoff", string("never"))])),
        at(2, "backoff must be \"fixed(<ms>)\" or \"exponential(<base>, <max>)\"")
    );
    assert_eq!(
        error(list(vec![("limiter", string("1"))])),
        at(2, "limiter requires two arguments: max, duration (e.g. \"10, 1000\")")
    );
}

#[test]
fn pascal_case() {
    assert_eq!(to_pascal_case("process_email"), "ProcessEmail");
    assert_eq!(to_pascal_case("handle"), "Handle");
    assert_eq!(to_pascal_case("__a__bC_"), "ABc");
    assert_eq!(to_pascal_case(""), "");
    assert_eq!(to_pascal_case("x2_y9"), "X2Y9");
    assert_eq!(to_pascal_case("ßtraße_ÉCOLE"), "SStraßeÉcole");
}

#[test]
fn plan_for_a_worker() {
    let opts = WorkerOpts::parse(&list(vec![
        ("queue", string("emails")),
        ("concurrency", number("5")),
        ("backoff", string("fixed(1000)")),
        ("retry", number("5")),
    ]))
    .unwrap();
    let plan = generate_worker(&opts, &signature("process_email")).unwrap();
    assert_eq!(plan.struct_name, "ProcessEmailWorker");
    assert_eq!(plan.fn_name, "process_email");
    assert_eq!(plan.data_type, "EmailData");
    assert_eq!(plan.return_type, "String");
    assert_eq!(plan.queue, "emails");
    assert_eq!(plan.concurrency, 5);
    assert_eq!(plan.retry, 5);
    assert_eq!(plan.lock_duration, 30_000);
    assert_eq!(plan.backoff, Some(BackoffStrategy::Fixed(1000)));
    assert_eq!(plan.limiter, None);
}

#[test]
fn data_type_errors() {
    let of = |inputs: Vec<ArgShape>| {
        let func = SignatureShape { inputs, ..signature("f") };
        let e = extract_job_data_type(&func).unwrap_err();
        assert_eq!(e.part, SignaturePart::Argument);
        (e.site, e.message)
    };
    let reference = |ty| vec![ArgShape::Typed(TypeShape::Reference(Box::new(ty)))];
    assert_eq!(
        of(vec![]),
        (ErrorSite::Signature, "worker function must take &Job<Data> as first argument")
    );
    assert_eq!(
        of(vec![ArgShape::Receiver]),
        (ErrorSite::Part, "expected typed argument, not self")
    );
    assert_eq!(
        of(vec![ArgShape::Typed(generic("T"))]),
        (ErrorSite::Type, "expected &Job<Data>")
    );
    assert_eq!(of(reference(TypeShape::Other)), (ErrorSite::ReferencedType, "expected Job<Data>"));
    assert_eq!(of(reference(TypeShape::Path(vec![]))), (ErrorSite::Path, "expected Job<Data>"));
    assert_eq!(
        of(reference(TypeShape::Path(vec![SegmentShape::Plain]))),
        (ErrorSite::LastSegment, "expected Job<Data> with type parameter")
    );
    assert_eq!(
        of(reference(TypeShape::Path(vec![SegmentShape::Generic(vec![])]))),
        (ErrorSite::GenericArguments, "Job requires a type parameter")
    );
    assert_eq!(
        of(reference(TypeShape::Path(vec![SegmentShape::Generic(vec![GenericShape::Other])]))),
        (ErrorSite::FirstGeneric, "expected type argument")
    );
}

#[test]
fn return_type_errors() {
    let of = |output: Option<TypeShape>| {
        let func = SignatureShape { output, ..signature("f") };
        let e = extract_return_type(&func).unwrap_err();
        assert_eq!(e.part, SignaturePart::Return);
        (e.site, e.message)
    };
    assert_eq!(of(None), (ErrorSite::Signature, "worker function must return Result<T>"));
    assert_eq!(of(Some(TypeShape::Other)), (ErrorSite::Type, "expected Result<T>"));
    assert_eq!(
        of(Some(TypeShape::Reference(Box::new(generic("T"))))),
        (ErrorSite::Type, "expected Result<T>")
    );
    assert_eq!(of(Some(TypeShape::Path(vec![]))), (ErrorSite::Path, "expected Result<T>"));
    assert_eq!(
        of(Some(TypeShape::Path(vec![SegmentShape::Plain]))),
        (ErrorSite::LastSegment, "expected Result<T> with type parameter")
    );
    assert_eq!(
        of(Some(TypeShape::Path(vec![SegmentShape::Generic(vec![])]))),
        (ErrorSite::GenericArguments, "Result requires a type parameter")
    );
    assert_eq!(
        of(Some(TypeShape::Path(vec![SegmentShape::Generic(vec![GenericShape::Other])]))),
        (ErrorSite::FirstGeneric, "expected type argument")
    );
}

#[test]
fn argument_is_reported_before_return_type() {
    let opts = WorkerOpts::parse(&list(vec![("queue", string("q"))])).unwrap();
    let func = SignatureShape { name: "f".to_string(), inputs: vec![], output: None };
    let e = generate_worker(&opts, &func).unwrap_err();
    assert_eq!(e.message, "worker function must take &Job<Data> as first argument");
}
