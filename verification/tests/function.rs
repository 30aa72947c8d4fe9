use optarg2chain::arguments::{DefaultExpr, Slot};
use optarg2chain::builder::{optarg_fn, Expansion, Inner};
use optarg2chain::receiver::ReceiverKind;
use optarg2chain::signature::{
    Attribute, FnArg, FnAttr, Function, Generics, Pat, PatKind, PatType, Signature,
};
use optarg2chain::syntax::{Kind, Syntax};

fn optarg(expr: &str) -> Attribute {
    Attribute::new("optarg".to_owned(), true, format!("({})", expr))
}

fn optarg_default() -> Attribute {
    Attribute::new("optarg_default".to_owned(), true, String::new())
}

/// The tokens of an expression without the blanks between them.
fn squeeze(expr: &str) -> String {
    expr.split_whitespace().collect()
}

fn param(text: &str, name: &str, ty: Syntax, attrs: Vec<Attribute>) -> FnArg {
    FnArg::Typed(PatType {
        attrs,
        pat: Pat { kind: PatKind::Ident, name: name.to_owned(), text: text.to_owned() },
        ty,
    })
}

fn names(builder: &str, terminal: &str) -> FnAttr {
    FnAttr { builder_struct_name: builder.to_owned(), terminal_method_name: terminal.to_owned() }
}

fn no_generics() -> Generics {
    Generics { lifetimes: vec![], types: vec![], predicates: vec![] }
}

fn type_param(name: &str, bounds: Vec<Syntax>) -> Syntax {
    Syntax::new(Kind::TypeParam, name, bounds)
}

fn bound(name: &str) -> Syntax {
    Syntax::new(
        Kind::TraitBound { maybe: false, global: false },
        "",
        vec![Syntax::leaf(Kind::Segment, name)],
    )
}

fn function(
    asyncness: bool,
    name: &str,
    generics: Generics,
    inputs: Vec<FnArg>,
    output: Option<Syntax>,
    block: &str,
) -> Function {
    Function {
        attrs: vec![],
        vis: String::new(),
        sig: Signature {
            qualifiers: String::new(),
            asyncness,
            ident: name.to_owned(),
            generics,
            inputs,
            output,
        },
        block: block.to_owned(),
    }
}

/// Runs the builder of `x`: the constructor with `required`, the setters
/// `sets` one after the other, then the terminal operation.
fn run<V: Clone>(
    x: &Expansion,
    required: Vec<V>,
    sets: Vec<(&str, V)>,
    default: impl Fn(&DefaultExpr) -> V,
) -> Vec<V> {
    let mut chain = x.builder.construct(None, required).unwrap();
    for (name, value) in sets {
        chain = x.builder.set(chain, name, value).unwrap();
    }
    let bound = chain.finish(|j| default(&x.terminal.defaults[j]));
    let (receiver, arguments) = bound.into_call(&x.terminal.order).unwrap();
    assert!(receiver.is_none());
    arguments
}

fn written(default: &DefaultExpr) -> String {
    match default {
        DefaultExpr::Written(expr) => squeeze(expr),
        DefaultExpr::OfType => panic!(),
    }
}

fn join_strings_item() -> Function {
    function(
        false,
        "join_strings",
        no_generics(),
        vec![
            param("mut a", "a", Syntax::named("String"), vec![]),
            param("b", "b", Syntax::named("String"), vec![optarg_default()]),
            param("c", "c", Syntax::named("String"), vec![optarg("\"ccc\".to_owned()")]),
        ],
        Some(Syntax::named("String")),
        "{ a.push_str(&b); a.push_str(&c); a }",
    )
}

fn join_strings(mut a: String, b: String, c: String) -> String {
    a.push_str(&b);
    a.push_str(&c);
    a
}

fn string_default(default: &DefaultExpr) -> String {
    match default {
        DefaultExpr::OfType => String::default(),
        DefaultExpr::Written(expr) => {
            assert_eq!(squeeze(expr), "\"ccc\".to_owned()");
            "ccc".to_owned()
        }
    }
}

#[test]
fn join_strings_test() {
    let x = optarg_fn(&names("JoinStringBuilder", "exec"), &join_strings_item()).unwrap();
    let args = run(&x, vec!["aaa".to_owned()], vec![], string_default);
    assert_eq!(join_strings(args[0].clone(), args[1].clone(), args[2].clone()), "aaaccc");
    let args = run(
        &x,
        vec!["xxx".to_owned()],
        vec![("b", "yyy".to_owned()), ("c", "zzz".to_owned())],
        string_default,
    );
    assert_eq!(join_strings(args[0].clone(), args[1].clone(), args[2].clone()), "xxxyyyzzz");
}

#[test]
fn join_strings_layout() {
    let item = join_strings_item();
    let x = optarg_fn(&names("JoinStringBuilder", "exec"), &item).unwrap();
    assert_eq!(x.builder.struct_name, "JoinStringBuilder");
    assert_eq!(x.terminal.name, "exec");
    assert_eq!(x.constructor.name, "join_strings");
    assert_eq!(x.constructor.receiver, ReceiverKind::Absent);
    assert_eq!(x.builder.receiver_field, None);
    assert_eq!(x.builder.required_fields.len(), 1);
    assert_eq!(x.builder.required_fields[0].ident, "a");
    assert_eq!(x.builder.required_fields[0].ty, Syntax::named("String"));
    let optional: Vec<&str> = x.builder.optional_fields.iter().map(|f| f.ident.as_str()).collect();
    assert_eq!(optional, ["b", "c"]);
    assert_eq!(x.terminal.defaults[0], DefaultExpr::OfType);
    assert_eq!(written(&x.terminal.defaults[1]), "\"ccc\".to_owned()");
    assert_eq!(x.terminal.defaults.len(), 2);
    assert_eq!(x.terminal.order, [Slot::Required(0), Slot::Optional(0), Slot::Optional(1)]);
    assert!(!x.terminal.asyncness);
    assert_eq!(x.terminal.output, Some(Syntax::named("String")));
    assert_eq!(x.terminal.target, None);
    assert_eq!(x.terminal.inner_name, "_optarg_inner_func");
    match &x.inner {
        Inner::Function { sig, block, .. } => {
            assert_eq!(sig.ident, "_optarg_inner_func");
            assert_eq!(block, &item.block);
            assert_eq!(sig.inputs.len(), 3);
            for (erased, written) in sig.inputs.iter().zip(item.sig.inputs.iter()) {
                match (erased, written) {
                    (FnArg::Typed(e), FnArg::Typed(o)) => {
                        assert!(e.attrs.is_empty());
                        assert_eq!(e.pat, o.pat);
                        assert_eq!(e.ty, o.ty);
                    }
                    _ => panic!(),
                }
            }
        }
        Inner::Method { .. } => panic!(),
    }
}

fn join_vecs<T: Default>(mut a: Vec<T>, mut b: Vec<T>, mut c: Vec<T>) -> Vec<T> {
    a.append(&mut b);
    a.append(&mut c);
    a
}

#[test]
fn join_vec_test() {
    let vec_t = || Syntax::generic("Vec", vec![Syntax::named("T")]);
    let item = function(
        false,
        "join_vecs",
        Generics {
            lifetimes: vec![],
            types: vec![type_param("T", vec![])],
            predicates: vec![Syntax::new(
                Kind::PredicateType,
                "",
                vec![Syntax::named("T"), bound("Default")],
            )],
        },
        vec![
            param("mut a", "a", vec_t(), vec![]),
            param("mut b", "b", vec_t(), vec![optarg_default()]),
            param("mut c", "c", vec_t(), vec![optarg("vec![T::default()]")]),
        ],
        Some(vec_t()),
        "{ a.append(&mut b); a.append(&mut c); a }",
    );
    let x = optarg_fn(&names("JoinVecBuilder", "exec"), &item).unwrap();
    assert_eq!(x.builder.marker_field.types, ["T"]);
    assert_eq!(x.builder.generics, item.sig.generics);
    let default = |default: &DefaultExpr| match default {
        DefaultExpr::OfType => Vec::<i32>::default(),
        DefaultExpr::Written(expr) => {
            assert_eq!(squeeze(expr), "vec![T::default()]");
            vec![i32::default()]
        }
    };
    let args = run(&x, vec![vec![3, 2, 1]], vec![], default);
    assert_eq!(join_vecs(args[0].clone(), args[1].clone(), args[2].clone()), [3, 2, 1, 0]);
    let args = run(&x, vec![vec![2, 3, 5]], vec![("b", vec![7, 9]), ("c", vec![11, 13])], default);
    assert_eq!(
        join_vecs(args[0].clone(), args[1].clone(), args[2].clone()),
        [2, 3, 5, 7, 9, 11, 13]
    );
}

fn add_and_convert<T: Default, R>(a: T, b: T) -> R
where
    T: core::ops::Add<Output = T>,
    R: From<T>,
{
    (a + b).into()
}

#[test]
fn add_and_convert_test() {
    let item = function(
        false,
        "add_and_convert",
        Generics {
            lifetimes: vec![],
            types: vec![type_param("T", vec![bound("Default")]), type_param("R", vec![])],
            predicates: vec![
                Syntax::new(
                    Kind::PredicateType,
                    "",
                    vec![
                        Syntax::named("T"),
                        Syntax::new(
                            Kind::TraitBound { maybe: false, global: false },
                            "",
                            vec![
                                Syntax::leaf(Kind::Segment, "core"),
                                Syntax::leaf(Kind::Segment, "ops"),
                                Syntax::new(
                                    Kind::SegmentAngle,
                                    "Add",
                                    vec![Syntax::new(
                                        Kind::Binding,
                                        "Output",
                                        vec![Syntax::named("T")],
                                    )],
                                ),
                            ],
                        ),
                    ],
                ),
                Syntax::new(
                    Kind::PredicateType,
                    "",
                    vec![
                        Syntax::named("R"),
                        Syntax::new(
                            Kind::TraitBound { maybe: false, global: false },
                            "",
                            vec![Syntax::new(
                                Kind::SegmentAngle,
                                "From",
                                vec![Syntax::named("T")],
                            )],
                        ),
                    ],
                ),
            ],
        },
        vec![
            param("a", "a", Syntax::named("T"), vec![]),
            param("b", "b", Syntax::named("T"), vec![optarg_default()]),
        ],
        Some(Syntax::named("R")),
        "{ (a + b).into() }",
    );
    let x = optarg_fn(&names("ConvertBuilder", "exec"), &item).unwrap();
    assert_eq!(x.builder.marker_field.types, ["T", "R"]);
    assert_eq!(x.builder.generics.predicates, item.sig.generics.predicates);
    assert_eq!(x.builder.generics.predicates.len(), 2);
    let args = run(&x, vec![1i8], vec![("b", 2i8)], |_| i8::default());
    assert_eq!(add_and_convert::<i8, i32>(args[0], args[1]), 3i32);
    let args = run(&x, vec![42u8], vec![], |_| u8::default());
    assert_eq!(add_and_convert::<u8, u32>(args[0], args[1]), 42u32);
}

#[test]
fn empty_arg_test() {
    let item =
        function(false, "empty_arg", no_generics(), vec![], Some(Syntax::named("i32")), "{ 42 }");
    let x = optarg_fn(&names("EmptyArg", "exec"), &item).unwrap();
    let args: Vec<i32> = run(&x, vec![], vec![], |_| panic!());
    assert!(args.is_empty());
    assert!(x.builder.required_fields.is_empty());
    assert!(x.builder.optional_fields.is_empty());
    match &x.inner {
        Inner::Function { sig, block, .. } => {
            assert_eq!(sig.ident, "_optarg_inner_func");
            assert_eq!(sig.output, Some(Syntax::named("i32")));
            let body = block.trim_start_matches('{').trim_end_matches('}').trim();
            assert_eq!(body.parse::<i32>(), Ok(42));
        }
        Inner::Method { .. } => panic!(),
    }
}

fn convert<T: Into<U> + Default, U>(target: T) -> U {
    target.into()
}

#[test]
fn convert_test() {
    let item = function(
        false,
        "convert",
        Generics {
            lifetimes: vec![],
            types: vec![
                type_param(
                    "T",
                    vec![
                        Syntax::new(
                            Kind::TraitBound { maybe: false, global: false },
                            "",
                            vec![Syntax::new(Kind::SegmentAngle, "Into", vec![Syntax::named("U")])],
                        ),
                        bound("Default"),
                    ],
                ),
                type_param("U", vec![]),
            ],
            predicates: vec![],
        },
        vec![param("target", "target", Syntax::named("T"), vec![optarg_default()])],
        Some(Syntax::named("U")),
        "{ target.into() }",
    );
    let x = optarg_fn(&names("Convert", "get"), &item).unwrap();
    assert_eq!(x.terminal.name, "get");
    let args = run(&x, vec![], vec![], |_| i8::default());
    assert_eq!(convert::<i8, i32>(args[0]), 0i32);
    let args = run(&x, vec![], vec![("target", 42i8)], |_| i8::default());
    assert_eq!(convert::<i8, i32>(args[0]), 42i32);
}

fn iter_impl_trait<T: Default>(a: T, b: T, c: T) -> impl Iterator<Item = T> {
    vec![a, b, c].into_iter()
}

#[test]
fn convert_impl_trait_test() {
    let item = function(
        false,
        "iter_impl_trait",
        Generics {
            lifetimes: vec![],
            types: vec![type_param("T", vec![bound("Default")])],
            predicates: vec![],
        },
        vec![
            param("a", "a", Syntax::named("T"), vec![optarg_default()]),
            param("b", "b", Syntax::named("T"), vec![optarg_default()]),
            param("c", "c", Syntax::named("T"), vec![optarg_default()]),
        ],
        Some(Syntax::new(
            Kind::ImplTrait,
            "",
            vec![Syntax::new(
                Kind::TraitBound { maybe: false, global: false },
                "",
                vec![Syntax::new(
                    Kind::SegmentAngle,
                    "Iterator",
                    vec![Syntax::new(Kind::Binding, "Item", vec![Syntax::named("T")])],
                )],
            )],
        )),
        "{ vec![a, b, c].into_iter() }",
    );
    let x = optarg_fn(&names("IterImplTrait", "iter"), &item).unwrap();
    let args = run(&x, vec![], vec![], |_| i32::default());
    let iter = iter_impl_trait::<i32>(args[0], args[1], args[2]);
    assert_eq!(iter.collect::<Vec<i32>>(), vec![0, 0, 0]);
    let args = run(&x, vec![], vec![("a", 1), ("b", 2), ("c", 3)], |_| i32::default());
    let iter = iter_impl_trait::<i32>(args[0], args[1], args[2]);
    assert_eq!(iter.collect::<Vec<i32>>(), vec![1, 2, 3]);
}

#[test]
fn function_async_test() {
    let str_ref = || {
        Syntax::new(
            Kind::Reference { mutable: false },
            "",
            vec![Syntax::lifetime("'a"), Syntax::named("str")],
        )
    };
    let item = function(
        true,
        "async_fn",
        Generics { lifetimes: vec![Syntax::lifetime("'a")], types: vec![], predicates: vec![] },
        vec![param("a", "a", str_ref(), vec![optarg("\"foo\"")])],
        Some(str_ref()),
        "{ a }",
    );
    let x = optarg_fn(&names("Async", "exec"), &item).unwrap();
    assert!(x.terminal.asyncness);
    assert_eq!(x.builder.marker_field.lifetimes, ["'a"]);
    match &x.inner {
        Inner::Function { sig, .. } => assert!(sig.asyncness),
        Inner::Method { .. } => panic!(),
    }
    let async_fn = |a: &'static str| a;
    let default = |default: &DefaultExpr| {
        assert_eq!(written(default), "\"foo\"");
        "foo"
    };
    let args = run(&x, vec![], vec![], default);
    assert_eq!(async_fn(args[0]), "foo");
    let args = run(&x, vec![], vec![("a", "bar")], default);
    assert_eq!(async_fn(args[0]), "bar");
}
