use optarg2chain::arguments::{
    can_read_default, can_read_inputs, can_read_plain, check_sig, erase_optarg_attr, parse_arg_attr,
    parse_typed_args, separate_args, separate_attrs, Arg, DefaultExpr, Slot,
};
use optarg2chain::builder::{
    can_read_function, can_read_method, can_read_methods, optarg_fn, optarg_method, supplies_names, try_optarg_fn, try_optarg_impl,
    try_optarg_method,
};
use optarg2chain::doc::generate_doc;
use optarg2chain::error::{Error, ErrorKind, Location};
use optarg2chain::generics::{
    contains_text, erase_generics, generate_type_holder, get_ident_from_type, merge_generics,
    SelfReplace, TypeFilter,
};
use optarg2chain::receiver::{accepts_receiver, separate_receiver, ReceiverKind};
use optarg2chain::signature::{
    Attribute, FnArg, FnAttr, Function, Generics, ImplItem, Pat, PatKind, PatType, Receiver,
    Signature,
};
use optarg2chain::syntax::{clone_all, join, Kind, Syntax};

fn attribute(path: &str, simple: bool, tokens: &str) -> Attribute {
    Attribute::new(path.to_owned(), simple, tokens.to_owned())
}

fn optarg(expr: &str) -> Attribute {
    attribute("optarg", true, &format!("({})", expr))
}

fn optarg_default() -> Attribute {
    attribute("optarg_default", true, "")
}

/// The tokens of an expression without the blanks between them.
fn squeeze(expr: &str) -> String {
    expr.split_whitespace().collect()
}

fn written(expr: &str) -> DefaultExpr {
    DefaultExpr::Written(expr.to_owned())
}

fn pattern(kind: PatKind, name: &str, text: &str, ty: Syntax, attrs: Vec<Attribute>) -> PatType {
    PatType { attrs, pat: Pat { kind, name: name.to_owned(), text: text.to_owned() }, ty }
}

fn param(name: &str, ty: Syntax, attrs: Vec<Attribute>) -> FnArg {
    FnArg::Typed(pattern(PatKind::Ident, name, name, ty, attrs))
}

fn receiver(reference: bool, lifetime: Option<&str>, mutable: bool) -> FnArg {
    FnArg::Receiver(Receiver { reference, lifetime: lifetime.map(str::to_owned), mutable })
}

fn generics(lifetimes: &[&str], types: &[&str], predicates: Vec<Syntax>) -> Generics {
    Generics {
        lifetimes: lifetimes.iter().map(|name| Syntax::lifetime(name)).collect(),
        types: types.iter().map(|name| Syntax::leaf(Kind::TypeParam, name)).collect(),
        predicates,
    }
}

fn signature(name: &str, generics: Generics, inputs: Vec<FnArg>, output: Option<Syntax>) -> Signature {
    Signature {
        qualifiers: String::new(),
        asyncness: false,
        ident: name.to_owned(),
        generics,
        inputs,
        output,
    }
}

fn function(attrs: Vec<Attribute>, sig: Signature) -> Function {
    Function { attrs, vis: "pub".to_owned(), sig, block: "{}".to_owned() }
}

fn names(builder: &str, terminal: &str) -> FnAttr {
    FnAttr { builder_struct_name: builder.to_owned(), terminal_method_name: terminal.to_owned() }
}

fn marked(builder: &str, terminal: &str) -> Attribute {
    attribute("optarg_method", true, &format!("({}, {})", builder, terminal))
}

fn texts_of(nodes: &[Syntax]) -> Vec<&str> {
    nodes.iter().map(|node| node.text.as_str()).collect()
}

fn i32_ty() -> Syntax {
    Syntax::named("i32")
}

fn bound(name: &str, args: Vec<Syntax>) -> Syntax {
    Syntax::new(
        Kind::TraitBound { maybe: false, global: false },
        "",
        vec![Syntax::new(Kind::SegmentAngle, name, args)],
    )
}

#[test]
fn self_is_replaced_wherever_it_stands() {
    let self_ty = Syntax::generic("Wrap", vec![Syntax::named("T")]);
    let replace = SelfReplace(&self_ty);
    assert_eq!(replace.fold_type(&Syntax::named("Self")), self_ty);
    let ty = Syntax::reference(
        "'a",
        true,
        Syntax::new(
            Kind::Tuple,
            "",
            vec![
                Syntax::generic("Option", vec![Syntax::named("Self")]),
                Syntax::named("T"),
                Syntax::new(Kind::Slice, "", vec![Syntax::named("Self")]),
            ],
        ),
    );
    let expected = Syntax::reference(
        "'a",
        true,
        Syntax::new(
            Kind::Tuple,
            "",
            vec![
                Syntax::generic("Option", vec![self_ty.clone()]),
                Syntax::named("T"),
                Syntax::new(Kind::Slice, "", vec![self_ty.clone()]),
            ],
        ),
    );
    assert_eq!(replace.fold_type(&ty), expected);
    assert_eq!(replace.fold_return_type(&Some(Syntax::named("Self"))), Some(self_ty.clone()));
    assert_eq!(replace.fold_return_type(&None), None);
    assert_eq!(
        replace.fold_types(&vec![Syntax::named("Self"), i32_ty()]),
        [self_ty.clone(), i32_ty()]
    );
}

#[test]
fn self_with_a_path_behind_it_stays() {
    let self_ty = Syntax::named("Wrap");
    let replace = SelfReplace(&self_ty);
    let item = Syntax::new(
        Kind::Path { global: false },
        "",
        vec![Syntax::leaf(Kind::Segment, "Self"), Syntax::leaf(Kind::Segment, "Item")],
    );
    assert_eq!(replace.fold_type(&item), item);
    let global = Syntax::new(Kind::Path { global: true }, "", vec![Syntax::leaf(Kind::Segment, "Self")]);
    assert_eq!(replace.fold_type(&global), global);
    let empty_args = Syntax::generic("Self", vec![]);
    assert_eq!(replace.fold_type(&empty_args), empty_args);
}

#[test]
fn identifier_of_a_type() {
    assert_eq!(get_ident_from_type(&Syntax::named("T")), Some(&"T".to_owned()));
    assert_eq!(get_ident_from_type(&Syntax::generic("Vec", vec![Syntax::named("T")])), None);
    assert_eq!(get_ident_from_type(&Syntax::lifetime("'a")), None);
    assert_eq!(get_ident_from_type(&Syntax::new(Kind::Tuple, "", vec![])), None);
}

#[test]
fn erasing_strips_the_arguments_of_each_segment() {
    let ty = Syntax::new(
        Kind::Path { global: true },
        "",
        vec![
            Syntax::leaf(Kind::Segment, "a"),
            Syntax::new(Kind::SegmentAngle, "B", vec![Syntax::named("T")]),
            Syntax::new(Kind::SegmentParen, "C", vec![Syntax::named("U")]),
        ],
    );
    let erased = Syntax::new(
        Kind::Path { global: true },
        "",
        vec![
            Syntax::leaf(Kind::Segment, "a"),
            Syntax::leaf(Kind::Segment, "B"),
            Syntax::leaf(Kind::Segment, "C"),
        ],
    );
    assert_eq!(erase_generics(&ty), erased);
    let reference = Syntax::reference("'a", false, Syntax::generic("Vec", vec![i32_ty()]));
    assert_eq!(erase_generics(&reference), reference);
    let qualified = Syntax::new(
        Kind::QualifiedPath { global: false, position: 1 },
        "",
        vec![
            Syntax::generic("Vec", vec![i32_ty()]),
            Syntax::new(Kind::SegmentAngle, "IntoIterator", vec![]),
            Syntax::leaf(Kind::Segment, "Item"),
        ],
    );
    let erased = erase_generics(&qualified);
    assert_eq!(erased.parts[0], Syntax::generic("Vec", vec![i32_ty()]));
    assert_eq!(erased.parts[1], Syntax::leaf(Kind::Segment, "IntoIterator"));
}

#[test]
fn copies_and_joins() {
    let nodes = vec![Syntax::named("A"), Syntax::lifetime("'b")];
    assert_eq!(clone_all(&nodes), nodes);
    assert_eq!(
        join(vec![Syntax::named("A")], vec![Syntax::named("B"), Syntax::named("C")]),
        [Syntax::named("A"), Syntax::named("B"), Syntax::named("C")]
    );
    assert_eq!(nodes[0].clone(), nodes[0]);
}

#[test]
fn filter_notes_what_a_signature_mentions() {
    let self_ty = Syntax::generic("Wrap", vec![Syntax::lifetime("'w"), Syntax::named("W")]);
    let sig = signature(
        "f",
        generics(
            &["'own"],
            &["Own"],
            vec![Syntax::new(
                Kind::PredicateType,
                "",
                vec![Syntax::named("P"), bound("Into", vec![Syntax::named("Q")]), Syntax::lifetime("'p")],
            )],
        ),
        vec![
            param("a", Syntax::reference("'a", false, Syntax::named("A")), vec![]),
            param("b", Syntax::generic("Vec", vec![Syntax::named("Self")]), vec![]),
        ],
        Some(Syntax::named("R")),
    );
    let filter = TypeFilter::new(&sig, &SelfReplace(&self_ty));
    assert_eq!(filter.types, ["A", "Vec", "Wrap", "W", "R", "P", "Q"]);
    assert_eq!(filter.lifetimes, ["'a", "'w", "'p"]);
    assert!(!filter.has_receiver);
    assert!(filter.has_type("W") && filter.has_type("Q") && filter.has_type("Vec"));
    assert!(!filter.has_type("Own") && !filter.has_type("Into"));
    assert!(filter.has_lifetime("'p") && !filter.has_lifetime("'own"));
    assert!(contains_text(&filter.types, "A") && !contains_text(&filter.types, "a"));
}

#[test]
fn filter_notes_a_receiver() {
    let sig = signature("f", generics(&[], &[], vec![]), vec![receiver(true, Some("'a"), false)], None);
    let filter = TypeFilter::new(&sig, &SelfReplace(&Syntax::named("S")));
    assert!(filter.has_receiver);
    assert!(filter.types.is_empty() && filter.lifetimes.is_empty());
    let typed_self = signature(
        "f",
        generics(&[], &[], vec![]),
        vec![param("self", Syntax::generic("Box", vec![Syntax::named("Self")]), vec![])],
        None,
    );
    let filter = TypeFilter::new(&typed_self, &SelfReplace(&Syntax::named("S")));
    assert!(!filter.has_receiver);
    assert_eq!(filter.types, ["Box", "S"]);
}

fn path(global: bool, segments: &[&str]) -> Syntax {
    Syntax::new(
        Kind::Path { global },
        "",
        segments.iter().map(|segment| Syntax::leaf(Kind::Segment, segment)).collect(),
    )
}

#[test]
fn the_head_of_a_path_is_mentioned() {
    let outer = generics(&[], &["T", "U", "V", "W"], vec![]);
    let sig = signature(
        "new",
        generics(
            &[],
            &[],
            vec![Syntax::new(
                Kind::PredicateType,
                "",
                vec![path(false, &["U", "Item"]), bound("Clone", vec![])],
            )],
        ),
        vec![
            param("x", path(false, &["T", "Item"]), vec![]),
            param("y", path(true, &["V", "Item"]), vec![]),
            param("z", path(false, &["a", "W"]), vec![]),
        ],
        None,
    );
    let filter = TypeFilter::new(&sig, &SelfReplace(&Syntax::named("S")));
    assert_eq!(filter.types, ["T", "a", "U"]);
    let merged = merge_generics(&outer, &sig, &Syntax::named("S"));
    assert_eq!(texts_of(&merged.types), ["T", "U"]);
    assert_eq!(optarg2chain::generics::get_head(&path(false, &["T", "Item"])), Some(&"T".to_owned()));
    assert_eq!(optarg2chain::generics::get_head(&path(true, &["T", "Item"])), None);
    assert_eq!(optarg2chain::generics::get_head(&Syntax::lifetime("'a")), None);
}

#[test]
fn unmentioned_parameters_are_dropped_without_a_receiver() {
    let outer = generics(&["'a", "'b"], &["T", "U", "V"], vec![Syntax::named("OuterPredicate")]);
    let self_ty = Syntax::named("Plain");
    let sig = signature(
        "new",
        generics(
            &["'m"],
            &["M"],
            vec![Syntax::new(Kind::PredicateType, "", vec![Syntax::named("V"), bound("From", vec![])])],
        ),
        vec![param("x", Syntax::reference("'b", false, Syntax::named("T")), vec![])],
        None,
    );
    let merged = merge_generics(&outer, &sig, &self_ty);
    assert_eq!(texts_of(&merged.lifetimes), ["'b", "'m"]);
    assert_eq!(texts_of(&merged.types), ["T", "V", "M"]);
    assert_eq!(merged.predicates.len(), 2);
    assert_eq!(merged.predicates[0], Syntax::named("OuterPredicate"));
    let marker = generate_type_holder(&merged);
    assert_eq!(marker.lifetimes, ["'b", "'m"]);
    assert_eq!(marker.types, ["T", "V", "M"]);
}

#[test]
fn each_parameter_stays_with_a_receiver() {
    let outer = generics(&["'a", "'b"], &["T", "U"], vec![]);
    let sig = signature(
        "get",
        generics(&["'m"], &["M"], vec![]),
        vec![receiver(false, None, false)],
        None,
    );
    let merged = merge_generics(&outer, &sig, &Syntax::named("Plain"));
    assert_eq!(texts_of(&merged.lifetimes), ["'a", "'b", "'m"]);
    assert_eq!(texts_of(&merged.types), ["T", "U", "M"]);
    assert!(merged.predicates.is_empty());
}

#[test]
fn own_bounds_are_resolved() {
    let outer = generics(&[], &[], vec![]);
    let own = Generics {
        lifetimes: vec![],
        types: vec![Syntax::new(Kind::TypeParam, "U", vec![bound("From", vec![Syntax::named("Self")])])],
        predicates: vec![],
    };
    let sig = signature("f", own, vec![], None);
    let merged = merge_generics(&outer, &sig, &Syntax::named("S"));
    assert_eq!(
        merged.types,
        [Syntax::new(Kind::TypeParam, "U", vec![bound("From", vec![Syntax::named("S")])])]
    );
}

#[test]
fn two_names_are_read() {
    assert_eq!(FnAttr::parse("JoinStringBuilder, exec"), Some(names("JoinStringBuilder", "exec")));
    assert_eq!(FnAttr::parse(" A ,b "), Some(names("A", "b")));
    assert_eq!(FnAttr::parse("A"), None);
    assert_eq!(FnAttr::parse("A, b, c"), None);
    assert_eq!(FnAttr::parse("A, b,"), None);
    assert_eq!(FnAttr::parse("A b"), None);
    assert_eq!(FnAttr::parse("A, 1"), None);
    assert_eq!(FnAttr::parse("A, fn"), None);
    assert_eq!(FnAttr::parse(""), None);
    assert_eq!(
        FnAttr::from_idents(&vec!["A".to_owned(), "b".to_owned()]),
        Some(names("A", "b"))
    );
    assert_eq!(FnAttr::from_idents(&vec!["A".to_owned()]), None);
    assert_eq!(FnAttr::from_idents(&vec![]), None);
    assert_eq!(
        FnAttr::from_idents(&vec!["A".to_owned(), "b".to_owned(), "c".to_owned()]),
        None
    );
    assert_eq!(marked("Getter", "get").names, Some(names("Getter", "get")));
    assert_eq!(attribute("optarg_method", true, "[Getter, get]").names, Some(names("Getter", "get")));
    assert_eq!(attribute("optarg_method", true, "").names, None);
    assert_eq!(attribute("optarg_method", true, "= Getter").names, None);
    assert_eq!(attribute("optarg_method", true, "(Getter)").names, None);
    assert_eq!(attribute("optarg_method", true, "(Getter, get) x").names, None);
}

#[test]
fn an_expression_is_read() {
    let read = |tokens: &str| attribute("optarg", true, tokens).expr.map(|e| squeeze(&e));
    assert_eq!(read("(1 + 2)"), Some("1+2".to_owned()));
    assert_eq!(read("(\"ccc\".to_owned())"), Some("\"ccc\".to_owned()".to_owned()));
    assert_eq!(read("(vec![T::default()])"), Some("vec![T::default()]".to_owned()));
    assert_eq!(read("((1, 2))"), Some("(1,2)".to_owned()));
    assert_eq!(read("{ 7 }"), Some("7".to_owned()));
    assert_eq!(read("(1, 2)"), None);
    assert_eq!(read("()"), None);
    assert_eq!(read(""), None);
    assert_eq!(read("= 1"), None);
    assert_eq!(read("(1 +)"), None);
    assert_eq!(read("(1)(2)"), None);
    assert_eq!(read("1"), None);
    let written = attribute("doc", false, "= \"x\"");
    assert_eq!(written.path, "doc");
    assert!(!written.simple);
    assert_eq!(written.tokens, "= \"x\"");
}

#[test]
fn first_default_attribute_counts() {
    assert_eq!(parse_arg_attr(&vec![]), None);
    assert_eq!(parse_arg_attr(&vec![attribute("inline", true, "")]), None);
    assert_eq!(
        parse_arg_attr(&vec![attribute("doc", true, "= \"x\""), optarg("1 + 2"), optarg_default()]),
        Some(written("1 + 2"))
    );
    assert_eq!(parse_arg_attr(&vec![optarg_default(), optarg("1")]), Some(DefaultExpr::OfType));
    assert_eq!(parse_arg_attr(&vec![attribute("optarg", false, "(1)")]), None);
}

#[test]
fn defaults_that_cannot_be_read() {
    assert!(can_read_default(&vec![optarg("1"), attribute("optarg", true, "")]));
    assert!(!can_read_default(&vec![attribute("optarg", true, "")]));
    assert!(!can_read_default(&vec![attribute("optarg_default", true, "(1)")]));
    assert!(can_read_default(&vec![attribute("other", true, "(")]));
    assert!(can_read_plain(&vec![receiver(true, None, false)]));
    assert!(accepts_receiver(&vec![receiver(true, Some("'a"), false)]));
    assert!(accepts_receiver(&vec![param("a", i32_ty(), vec![])]));
    assert!(!accepts_receiver(&vec![receiver(true, None, true)]));
    assert!(!accepts_receiver(&vec![receiver(false, None, true), receiver(false, None, true)]));
    let bad = param("a", i32_ty(), vec![attribute("optarg", true, "= 1")]);
    assert!(!can_read_inputs(&vec![param("b", i32_ty(), vec![]), bad]));
    assert!(can_read_inputs(&vec![receiver(true, None, false), param("b", i32_ty(), vec![optarg("1")])]));
}

#[test]
fn typed_args_are_read() {
    let args = parse_typed_args(&vec![
        pattern(PatKind::Ident, "a", "mut a", i32_ty(), vec![]),
        pattern(PatKind::Ident, "b", "b", Syntax::named("u8"), vec![optarg("7")]),
    ]);
    assert_eq!(
        args,
        [
            Arg { ident: "a".to_owned(), ty: i32_ty(), default_value: None },
            Arg {
                ident: "b".to_owned(),
                ty: Syntax::named("u8"),
                default_value: Some(written("7")),
            },
        ]
    );
}

#[test]
fn groups_keep_the_order_of_the_declaration() {
    let arg = |name: &str, default: Option<DefaultExpr>| Arg {
        ident: name.to_owned(),
        ty: Syntax::named(&name.to_uppercase()),
        default_value: default,
    };
    let args = vec![
        arg("a", Some(DefaultExpr::OfType)),
        arg("b", None),
        arg("c", Some(DefaultExpr::Written("1".to_owned()))),
        arg("d", None),
        arg("e", None),
    ];
    let partition = separate_args(&args);
    let names = |fields: &[optarg2chain::arguments::Field]| -> Vec<String> {
        fields.iter().map(|f| f.ident.clone()).collect()
    };
    assert_eq!(names(&partition.required), ["b", "d", "e"]);
    assert_eq!(names(&partition.optional), ["a", "c"]);
    assert_eq!(partition.required[1].ty, Syntax::named("D"));
    assert_eq!(partition.optional[1].ty, Syntax::named("C"));
    assert_eq!(
        partition.defaults,
        [DefaultExpr::OfType, DefaultExpr::Written("1".to_owned())]
    );
    assert_eq!(
        partition.order,
        [
            Slot::Optional(0),
            Slot::Required(0),
            Slot::Optional(1),
            Slot::Required(1),
            Slot::Required(2),
        ]
    );
    let empty = separate_args(&vec![]);
    assert!(empty.order.is_empty() && empty.required.is_empty() && empty.optional.is_empty());
}

#[test]
fn attributes_are_told_apart_by_their_prefix() {
    let attrs = vec![
        attribute("doc", true, "= \"x\""),
        marked("B", "run"),
        attribute("optarg", true, ""),
        attribute("optar", true, ""),
        attribute("optarg::method", false, ""),
        attribute("xoptarg", true, ""),
        attribute("optargument", true, ""),
    ];
    let (ours, others) = separate_attrs(&attrs);
    let paths = |attrs: &[Attribute]| -> Vec<String> { attrs.iter().map(|a| a.path.clone()).collect() };
    assert_eq!(paths(&ours), ["optarg_method", "optarg", "optargument"]);
    assert_eq!(paths(&others), ["doc", "optar", "optarg::method", "xoptarg"]);
    assert_eq!(ours[0], attrs[1]);
    assert!(supplies_names(&attrs));
    assert!(!supplies_names(&attrs[2..].to_vec()));
    assert!(!supplies_names(&vec![]));
    assert!(attrs[1].is_ident("optarg_method") && !attrs[1].is_ident("optarg"));
    assert!(!attrs[4].is_ident("optarg::method"));
}

#[test]
fn default_attributes_are_erased() {
    let inputs = vec![
        receiver(true, Some("'a"), true),
        param(
            "a",
            i32_ty(),
            vec![attribute("cfg", true, "(test)"), optarg("1"), optarg_default()],
        ),
    ];
    let erased = erase_optarg_attr(&inputs);
    assert_eq!(erased.len(), 2);
    assert_eq!(erased[0], inputs[0]);
    assert_eq!(erased[1], param("a", i32_ty(), vec![attribute("cfg", true, "(test)")]));
}

#[test]
fn the_first_offending_parameter_is_reported() {
    let wild = FnArg::Typed(pattern(PatKind::Wild, "", "_", i32_ty(), vec![]));
    let tuple = FnArg::Typed(pattern(PatKind::Other, "", "(a, b)", i32_ty(), vec![]));
    let reserved = param("_optarg_self", i32_ty(), vec![]);
    let fine = param("a", i32_ty(), vec![]);
    let check = |inputs: Vec<FnArg>| check_sig(&signature("f", generics(&[], &[], vec![]), inputs, None));
    assert_eq!(check(vec![]), Ok(()));
    assert_eq!(check(vec![receiver(true, None, false), fine.clone()]), Ok(()));
    assert_eq!(
        check(vec![fine.clone(), wild.clone(), reserved.clone()]),
        Err(Error {
            kind: ErrorKind::UnsupportedParameterPattern { wildcard: true },
            location: Location::Input(1),
        })
    );
    assert_eq!(
        check(vec![tuple.clone(), wild.clone()]),
        Err(Error {
            kind: ErrorKind::UnsupportedParameterPattern { wildcard: false },
            location: Location::Input(0),
        })
    );
    assert_eq!(
        check(vec![fine.clone(), fine.clone(), reserved.clone()]),
        Err(Error { kind: ErrorKind::ReservedNameCollision, location: Location::Input(2) })
    );
}

#[test]
fn each_kind_has_its_message() {
    let message = |kind: ErrorKind| Error { kind, location: Location::Trait }.message();
    assert_eq!(
        message(ErrorKind::TraitImplementationUnsupported),
        "(optarg2chain) impl for traits is not supported"
    );
    assert_eq!(
        message(ErrorKind::ExplicitLifetimeRequired),
        "(optarg2chain) explicit lifetime is neeeded"
    );
    assert_eq!(
        message(ErrorKind::ReservedNameCollision),
        "(optarg2chain) _optarg_self is reserved name"
    );
    assert_eq!(
        message(ErrorKind::UnsupportedParameterPattern { wildcard: true }),
        "(optarg2chain) `_` cannot be used for this argument name"
    );
    assert_eq!(
        message(ErrorKind::UnsupportedParameterPattern { wildcard: false }),
        "(optarg2chain) unusable pattern found"
    );
    assert_eq!(
        message(ErrorKind::MultipleReceiverParameters),
        "(optarg2chain) more than one receiver found"
    );
    assert_eq!(ErrorKind::ReservedNameCollision.message(), "(optarg2chain) _optarg_self is reserved name");
}

#[test]
fn receivers_are_classified() {
    let self_ty = Syntax::generic("Wrap", vec![Syntax::named("T")]);
    let separate = |inputs: Vec<FnArg>| {
        separate_receiver(&signature("f", generics(&[], &[], vec![]), inputs, None), &self_ty)
    };
    let none = separate(vec![param("a", i32_ty(), vec![optarg("1")])]).unwrap();
    assert_eq!(none.kind, ReceiverKind::Absent);
    assert_eq!(none.storage, None);
    assert_eq!(none.args, [pattern(PatKind::Ident, "a", "a", i32_ty(), vec![optarg("1")])]);
    let value = separate(vec![receiver(false, None, true), param("a", i32_ty(), vec![])]).unwrap();
    assert_eq!(value.kind, ReceiverKind::ByValue { mutable: true });
    assert_eq!(value.storage.as_ref().unwrap().ident, "_optarg_self");
    assert_eq!(value.storage.as_ref().unwrap().ty, self_ty);
    assert_eq!(value.args.len(), 1);
    let shared = separate(vec![param("a", i32_ty(), vec![]), receiver(true, Some("'x"), false)]).unwrap();
    assert_eq!(shared.kind, ReceiverKind::ByRef("'x".to_owned()));
    assert_eq!(shared.storage.unwrap().ty, Syntax::reference("'x", false, self_ty.clone()));
    let unique = separate(vec![receiver(true, Some("'x"), true)]).unwrap();
    assert_eq!(unique.kind, ReceiverKind::ByMutRef("'x".to_owned()));
    assert_eq!(unique.storage.unwrap().ty, Syntax::reference("'x", true, self_ty.clone()));
    let rc = Syntax::generic("Rc", vec![Syntax::named("Self")]);
    let typed = separate(vec![FnArg::Typed(pattern(PatKind::Ident, "self", "mut self", rc, vec![]))])
        .unwrap();
    let resolved = Syntax::generic("Rc", vec![self_ty.clone()]);
    assert_eq!(
        typed.kind,
        ReceiverKind::Typed { pattern: "mut self".to_owned(), ty: resolved.clone() }
    );
    assert_eq!(typed.storage.unwrap().ty, resolved);
    assert!(typed.args.is_empty());
}

#[test]
fn receivers_that_are_refused() {
    let self_ty = Syntax::named("S");
    let separate = |inputs: Vec<FnArg>| {
        separate_receiver(&signature("f", generics(&[], &[], vec![]), inputs, None), &self_ty)
            .unwrap_err()
    };
    assert_eq!(
        separate(vec![receiver(true, None, false)]),
        Error { kind: ErrorKind::ExplicitLifetimeRequired, location: Location::Input(0) }
    );
    assert_eq!(
        separate(vec![param("a", i32_ty(), vec![]), receiver(true, None, true)]),
        Error { kind: ErrorKind::ExplicitLifetimeRequired, location: Location::Input(1) }
    );
    assert_eq!(
        separate(vec![
            receiver(true, None, true),
            param("a", i32_ty(), vec![]),
            param("self", Syntax::named("Self"), vec![]),
            receiver(false, None, false),
        ]),
        Error { kind: ErrorKind::MultipleReceiverParameters, location: Location::Input(2) }
    );
}

#[test]
fn documentation_names_the_function_and_the_parameters() {
    let docs = generate_doc("join", &vec!["b".to_owned(), "c".to_owned()]);
    assert_eq!(docs.doc_builder_struct, "Argument builder struct for `join`.");
    assert_eq!(docs.doc_setter, ["Sets optional argument `b`.", "Sets optional argument `c`."]);
    assert_eq!(docs.doc_terminal_method, "Executes `join` and get the result.");
    assert!(generate_doc("f", &vec![]).doc_setter.is_empty());
}

fn sample() -> Function {
    function(
        vec![attribute("inline", true, "")],
        signature(
            "sample",
            generics(&[], &[], vec![]),
            vec![
                param("a", i32_ty(), vec![optarg("1")]),
                param("b", i32_ty(), vec![]),
                param("c", i32_ty(), vec![optarg("3")]),
            ],
            Some(i32_ty()),
        ),
    )
}

#[test]
fn setters_commute_and_the_last_call_counts() {
    let x = optarg_fn(&names("Sample", "run"), &sample()).unwrap();
    assert_eq!(x.vis, "pub");
    assert_eq!(x.constructor.attrs, [attribute("inline", true, "")]);
    assert_eq!(x.docs.doc_setter, ["Sets optional argument `a`.", "Sets optional argument `c`."]);
    let start = || x.builder.construct(None, vec![20]).unwrap();
    let set = |chain, name: &str, value: i32| x.builder.set(chain, name, value).unwrap();
    let one = set(set(start(), "a", 10), "c", 30);
    let other = set(set(start(), "c", 30), "a", 10);
    assert_eq!(one, other);
    assert_eq!(one.optional, [Some(10), Some(30)]);
    let twice = set(set(set(start(), "a", 10), "c", 30), "a", 11);
    assert_eq!(twice.optional, [Some(11), Some(30)]);
    let bound = twice.finish(|_| panic!());
    assert_eq!(bound.required, [20]);
    assert_eq!(bound.optional, [11, 30]);
    let args: Vec<i32> = x.terminal.order.iter().map(|s| *bound.argument(*s).unwrap()).collect();
    assert_eq!(args, [11, 20, 30]);
    assert_eq!(bound.argument(Slot::Required(1)), None);
    assert_eq!(bound.argument(Slot::Optional(2)), None);
    assert_eq!(bound.clone().into_call(&x.terminal.order), Some((None, vec![11, 20, 30])));
    let out_of_turn = vec![Slot::Optional(1), Slot::Required(0), Slot::Optional(0)];
    assert_eq!(bound.clone().into_call(&out_of_turn), None);
    assert_eq!(bound.clone().into_call(&vec![Slot::Required(0), Slot::Required(1)]), None);
    assert_eq!(bound.clone().into_call(&vec![Slot::Required(0), Slot::Required(0)]), None);
    assert_eq!(bound.into_call(&vec![Slot::Optional(0)]), Some((None, vec![11])));
}

#[test]
fn defaults_fill_what_is_not_set() {
    let x = optarg_fn(&names("Sample", "run"), &sample()).unwrap();
    let start = x.builder.construct(None, vec![20]).unwrap();
    assert_eq!(start.optional, [None, None]);
    let bound = x.builder.set(start, "c", 30).unwrap().finish(|j| 100 + j as i32);
    assert_eq!(bound.optional, [100, 30]);
    let bound = x.builder.construct(None, vec![20]).unwrap().finish(|j| 100 + j as i32);
    assert_eq!(bound.optional, [100, 101]);
    let calls = std::cell::RefCell::new(Vec::new());
    let chain = x.builder.set(x.builder.construct(None, vec![20]).unwrap(), "a", 1).unwrap();
    chain.finish(|j| {
        calls.borrow_mut().push(j);
        0
    });
    assert_eq!(*calls.borrow(), [1]);
    for _ in 0..2 {
        calls.borrow_mut().clear();
        x.builder.construct(None, vec![20]).unwrap().finish(|j| {
            calls.borrow_mut().push(j);
            0
        });
        assert_eq!(*calls.borrow(), [0, 1]);
    }
}

#[test]
fn a_builder_takes_what_its_constructor_takes() {
    let x = optarg_fn(&names("Sample", "run"), &sample()).unwrap();
    assert_eq!(x.builder.construct(None, vec![1, 2]), None);
    assert_eq!(x.builder.construct(None, Vec::<i32>::new()), None);
    assert_eq!(x.builder.construct(Some(0), vec![1]), None);
    let chain = x.builder.construct(None, vec![1]).unwrap();
    assert_eq!(x.builder.set(chain, "b", 5), None);
    assert_eq!(x.builder.setter("c"), Some(1));
    assert_eq!(x.builder.setter("b"), None);
}

#[test]
fn a_method_needs_its_two_names() {
    let method = function(
        vec![attribute("doc", true, "= \"x\""), marked("Getter", "get")],
        signature(
            "get",
            generics(&[], &[], vec![]),
            vec![receiver(true, Some("'a"), false), param("i", i32_ty(), vec![optarg_default()])],
            Some(Syntax::named("Self")),
        ),
    );
    let outer = generics(&[], &["T"], vec![]);
    let self_ty = Syntax::generic("Wrap", vec![Syntax::named("T")]);
    let x = optarg_method(&method, &outer, &self_ty).unwrap();
    assert_eq!(x.builder.struct_name, "Getter");
    assert_eq!(x.terminal.name, "get");
    assert_eq!(x.terminal.inner_name, "_optarg_inner_get");
    assert_eq!(x.constructor.attrs, [attribute("doc", true, "= \"x\"")]);
    assert_eq!(x.terminal.output, Some(self_ty.clone()));
    assert_eq!(x.terminal.defaults, [DefaultExpr::OfType]);
    let unnamed = function(vec![attribute("optarg_method", true, "")], method.sig.clone());
    assert!(!supplies_names(&unnamed.attrs));
    assert!(!can_read_method(&unnamed));
    assert!(can_read_method(&method));
    assert!(can_read_function(&sample()));
    assert!(!can_read_methods(&vec![ImplItem::Method(unnamed)]));
    assert!(can_read_methods(&vec![ImplItem::Other("type A = u8;".to_owned())]));
}

#[test]
fn method_errors_come_in_order() {
    let outer = generics(&[], &[], vec![]);
    let self_ty = Syntax::named("S");
    let method = |inputs: Vec<FnArg>| {
        function(vec![marked("B", "run")], signature("m", generics(&[], &[], vec![]), inputs, None))
    };
    let wild = FnArg::Typed(pattern(PatKind::Wild, "", "_", i32_ty(), vec![]));
    assert_eq!(
        optarg_method(&method(vec![receiver(true, None, true), wild]), &outer, &self_ty),
        Err(Error {
            kind: ErrorKind::UnsupportedParameterPattern { wildcard: true },
            location: Location::Input(1),
        })
    );
    assert_eq!(
        optarg_method(&method(vec![receiver(true, None, true)]), &outer, &self_ty),
        Err(Error { kind: ErrorKind::ExplicitLifetimeRequired, location: Location::Input(0) })
    );
}

#[test]
fn what_cannot_be_read_is_not_laid_out() {
    let unreadable = |inputs: Vec<FnArg>| {
        function(vec![marked("B", "run")], signature("f", generics(&[], &[], vec![]), inputs, None))
    };
    let bad_default = || param("a", i32_ty(), vec![attribute("optarg", true, "")]);
    let wild = || FnArg::Typed(pattern(PatKind::Wild, "", "_", i32_ty(), vec![]));
    let refused = Error {
        kind: ErrorKind::UnsupportedParameterPattern { wildcard: true },
        location: Location::Input(1),
    };
    assert_eq!(try_optarg_fn(&names("B", "run"), &unreadable(vec![bad_default()])), None);
    assert_eq!(
        try_optarg_fn(&names("B", "run"), &unreadable(vec![bad_default(), wild()])),
        Some(Err(refused))
    );
    assert_eq!(
        try_optarg_fn(&names("B", "run"), &unreadable(vec![receiver(false, None, false)])),
        None
    );
    assert_eq!(
        try_optarg_fn(&names("B", "run"), &unreadable(vec![receiver(false, None, false), wild()])),
        Some(Err(refused))
    );
    assert_eq!(
        try_optarg_fn(&names("Sample", "run"), &sample()),
        Some(optarg_fn(&names("Sample", "run"), &sample()))
    );
    let outer = generics(&[], &[], vec![]);
    let self_ty = Syntax::named("S");
    let tried = |method: &Function| try_optarg_method(method, &outer, &self_ty);
    assert_eq!(tried(&sample()), None);
    let mut unnamed = sample();
    unnamed.sig.inputs.push(wild());
    assert_eq!(
        tried(&unnamed),
        Some(Err(Error {
            kind: ErrorKind::UnsupportedParameterPattern { wildcard: true },
            location: Location::Input(3),
        }))
    );
    let mut method = sample();
    method.attrs.push(marked("Sample", "run"));
    assert_eq!(tried(&method), Some(optarg_method(&method, &outer, &self_ty)));
    assert_eq!(tried(&unreadable(vec![bad_default()])), None);
    assert_eq!(
        tried(&unreadable(vec![receiver(true, None, false), bad_default()])),
        Some(Err(Error { kind: ErrorKind::ExplicitLifetimeRequired, location: Location::Input(0) }))
    );
    assert_eq!(tried(&unreadable(vec![receiver(true, Some("'a"), false), bad_default()])), None);
    let typed_self = FnArg::Typed(pattern(
        PatKind::Ident,
        "self",
        "self",
        Syntax::named("Self"),
        vec![attribute("optarg", true, "")],
    ));
    assert!(tried(&unreadable(vec![typed_self])).unwrap().is_ok());
    let block = |trait_: Option<&str>, method: Function| optarg2chain::signature::ItemImpl {
        attrs: vec![],
        qualifiers: String::new(),
        generics: generics(&[], &[], vec![]),
        trait_: trait_.map(str::to_owned),
        self_ty: Syntax::named("S"),
        items: vec![ImplItem::Method(method)],
    };
    let unnamed = function(vec![attribute("optarg_method", true, "(A)")], sample().sig);
    assert_eq!(try_optarg_impl(&block(None, unnamed.clone())), None);
    assert_eq!(
        try_optarg_impl(&block(Some("Default"), unnamed)),
        Some(Err(Error {
            kind: ErrorKind::TraitImplementationUnsupported,
            location: Location::Trait,
        }))
    );
    let laid_out = try_optarg_impl(&block(None, method)).unwrap().unwrap();
    assert_eq!(laid_out.outcomes.len(), 1);
    assert_eq!(laid_out.marked, [0]);
    assert!(laid_out.kept.is_empty());
    assert!(laid_out.outcomes[0].is_ok());
}

#[test]
fn a_function_with_a_receiver_is_told_apart() {
    let sig = signature("f", generics(&[], &[], vec![]), vec![receiver(false, None, false)], None);
    assert!(!sig.has_no_receiver());
    assert!(sample().sig.has_no_receiver());
}
