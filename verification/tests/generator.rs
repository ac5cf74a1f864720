use throwing::attributes::VariantArg;
use throwing::names::{fn_name_to_error, snake_case_to_camel_case, type_to_variant};
use throwing::semantics::{
    cause_of, delegate_value, leaf_into, render_value, LeafValue, UnionValue,
};
use throwing::types::{
    CompositeError, Error, FunctionSig, ResolutionError, SyntaxError, TypeExpr, Variant,
    Visibility,
};
use throwing::{define_error, split_variants, throws};

fn path(segments: &[&str]) -> TypeExpr {
    TypeExpr::Path {
        leading: false,
        segments: segments.iter().map(|s| s.to_string()).collect(),
    }
}

#[test]
fn explicit_alias_is_used_exactly() {
    let out = define_error("type BadReverseInt = ParseIntError as ParseNormalIntError").unwrap();
    assert!(out.contains("enum BadReverseInt { ParseNormalIntError(ParseIntError) }"));
    assert!(out.contains(
        "impl ::core::convert::From<ParseIntError> for BadReverseInt { fn from(value: \
         ParseIntError) -> BadReverseInt { BadReverseInt::ParseNormalIntError(value) } }"
    ));
}

#[test]
fn single_segment_tag_is_verbatim() {
    let out = define_error("type E = ParseIntError").unwrap();
    assert!(out.contains("enum E { ParseIntError(ParseIntError) }"));
}

#[test]
fn single_segment_tag_keeps_casing() {
    let out = define_error("type E = weird_type").unwrap();
    assert!(out.contains("enum E { weird_type(weird_type) }"));
}

#[test]
fn multi_segment_tag_is_camel_concatenation() {
    let out = define_error("type E = foo_bar::baz_qux").unwrap();
    assert!(out.contains("enum E { FooBarBazQux(foo_bar::baz_qux) }"));
}

#[test]
fn io_error_tag() {
    let out = define_error("type E = io::Error").unwrap();
    assert!(out.contains("enum E { IoError(io::Error) }"));
}

#[test]
fn function_name_to_error_name() {
    assert_eq!(fn_name_to_error("get_session_id"), "GetSessionIdError");
    assert_eq!(fn_name_to_error("parse"), "ParseError");
}

#[test]
fn snake_to_camel_appends() {
    let mut name = String::new();
    snake_case_to_camel_case("foo_bar", &mut name);
    assert_eq!(name, "FooBar");
    snake_case_to_camel_case("_baz__qux_", &mut name);
    assert_eq!(name, "FooBarBazQux");
}

#[test]
fn zero_clause_declaration_is_uninhabited() {
    let out = define_error("type Nothing").unwrap();
    let expected = "#[derive(::core::fmt::Debug)]\nenum Nothing {}\n\
#[automatically_derived]\nimpl<T> ::throwing::SubError<T> for Nothing where T:  \
{ fn to_super_error(self) -> T { match self {} } }\n\
#[automatically_derived]\nimpl ::core::fmt::Display for Nothing { fn fmt(&self, \
f: &mut ::core::fmt::Formatter<'_>) -> ::core::fmt::Result { match *self {} } }\n\
#[automatically_derived]\nimpl ::std::error::Error for Nothing { fn source(&self) \
-> ::core::option::Option<&(dyn ::std::error::Error + 'static)> { match *self {} } }\n";
    assert_eq!(out, expected);
}

#[test]
fn two_leaf_scenario() {
    let out = define_error("type ParseConfigError = ParseIntError | ParseCharError").unwrap();
    assert!(out.contains(
        "enum ParseConfigError { ParseIntError(ParseIntError), ParseCharError(ParseCharError) }"
    ));
    assert!(out.contains(
        "impl ::core::convert::From<ParseIntError> for ParseConfigError { fn from(value: \
         ParseIntError) -> ParseConfigError { ParseConfigError::ParseIntError(value) } }"
    ));
    assert!(out.contains(
        "impl ::core::convert::From<ParseCharError> for ParseConfigError { fn from(value: \
         ParseCharError) -> ParseConfigError { ParseConfigError::ParseCharError(value) } }"
    ));
    assert!(out.contains(
        "where T: ::core::convert::From<ParseIntError> + ::core::convert::From<ParseCharError> \
         { fn to_super_error(self) -> T"
    ));
}

#[test]
fn absorption_scenario() {
    let out = define_error(
        "type LoadConfigError = ParseIntError | ParseCharError | io::Error | break \
         ParseConfigError",
    )
    .unwrap();
    assert!(out.contains(
        "enum LoadConfigError { ParseIntError(ParseIntError), ParseCharError(ParseCharError), \
         IoError(io::Error) }"
    ));
    assert!(out.contains(
        "impl ::core::convert::From<ParseConfigError> for LoadConfigError { fn from(value: \
         ParseConfigError) -> LoadConfigError { ::throwing::SubError::to_super_error(value) } }"
    ));
    // The delegation bounds name the three leaf source types and not the
    // absorbed union itself.
    assert!(out.contains(
        "where T: ::core::convert::From<ParseIntError> + ::core::convert::From<ParseCharError> \
         + ::core::convert::From<io::Error> { fn to_super_error(self) -> T"
    ));
    assert_eq!(out.matches("::throwing::SubError::to_super_error(value)").count(), 1);
}

#[test]
fn visibility_is_kept() {
    let out = define_error("pub type E = A").unwrap();
    assert!(out.contains("#[derive(::core::fmt::Debug)]\npub enum E { A(A) }"));
    let out = define_error("pub(crate) type E = A").unwrap();
    assert!(out.contains("pub(crate) enum E { A(A) }"));
}

#[test]
fn grouped_type_unwraps_for_inference() {
    let out = define_error("type E = (ParseIntError)").unwrap();
    assert!(out.contains("enum E { ParseIntError((ParseIntError)) }"));
}

#[test]
fn generic_type_needs_alias() {
    let err = define_error("type E = Vec<u8>").unwrap_err();
    assert_eq!(
        err,
        Error::Resolution(ResolutionError::TagNotInferable { clause: 0 })
    );
    let out = define_error("type E = Vec<u8> as BadVec").unwrap();
    assert!(out.contains("enum E { BadVec(Vec<u8>) }"));
}

#[test]
fn duplicate_tags_are_rejected() {
    let err = define_error("type E = ParseIntError | ParseIntError").unwrap_err();
    assert_eq!(
        err,
        Error::Resolution(ResolutionError::DuplicateTag { first: 0, second: 1 })
    );
    let err = define_error("type E = A | (A) | B").unwrap_err();
    // The parenthesized clause unwraps and infers the same tag as the first.
    assert_eq!(
        err,
        Error::Resolution(ResolutionError::DuplicateTag { first: 0, second: 1 })
    );
}

#[test]
fn syntax_errors_carry_positions() {
    assert_eq!(
        define_error("= Foo").unwrap_err(),
        Error::Syntax(SyntaxError::ExpectedKeywordType { pos: 0 })
    );
    assert_eq!(
        define_error("type").unwrap_err(),
        Error::Syntax(SyntaxError::ExpectedName { pos: 4 })
    );
    assert_eq!(
        define_error("type E = |").unwrap_err(),
        Error::Syntax(SyntaxError::ExpectedType { pos: 9 })
    );
    assert_eq!(
        define_error("type E = Foo as").unwrap_err(),
        Error::Syntax(SyntaxError::ExpectedAlias { pos: 15 })
    );
    assert_eq!(
        define_error("pub( type E = A").unwrap_err(),
        Error::Syntax(SyntaxError::UnclosedVisibility { pos: 3 })
    );
    assert_eq!(
        define_error("type E = Foo as Bar junk").unwrap_err(),
        Error::Syntax(SyntaxError::ExpectedEnd { pos: 20 })
    );
}

#[test]
fn opaque_multi_token_type_needs_alias() {
    // A token run that is not a plain path is carried opaquely; without an
    // alias its tag cannot be inferred.
    assert_eq!(
        define_error("type E = A extra").unwrap_err(),
        Error::Resolution(ResolutionError::TagNotInferable { clause: 0 })
    );
    let out = define_error("type E = dyn CoreError + Send as Boxed").unwrap();
    assert!(out.contains("enum E { Boxed(dyn CoreError + Send) }"));
}

#[test]
fn whitespace_is_insignificant() {
    let a = define_error("type E = A | break B").unwrap();
    let b = define_error("  type\n  E\t=  A |\n break  B ").unwrap();
    assert_eq!(a, b);
}

#[test]
fn trailing_separator_is_allowed() {
    let a = define_error("type E = A | B").unwrap();
    let b = define_error("type E = A | B |").unwrap();
    assert_eq!(a, b);
}

#[test]
fn throws_infers_name_from_function() {
    let function = FunctionSig {
        visibility: Visibility::Inherited,
        name: String::from("get_session_id"),
        output: Some(String::from("u64")),
    };
    let (patched, out) = throws("io::Error | FromUtf8Error | ParseIntError", function).unwrap();
    assert_eq!(
        patched.output.as_deref(),
        Some("::core::result::Result<u64, GetSessionIdError>")
    );
    assert_eq!(patched.name, "get_session_id");
    assert!(out.contains(
        "enum GetSessionIdError { IoError(io::Error), FromUtf8Error(FromUtf8Error), \
         ParseIntError(ParseIntError) }"
    ));
}

#[test]
fn throws_uses_explicit_name() {
    let function = FunctionSig {
        visibility: Visibility::Public,
        name: String::from("parse_int_reversed"),
        output: Some(String::from("u64")),
    };
    let (patched, out) =
        throws("type BadReverseInt = ParseIntError as ParseNormalIntError", function).unwrap();
    assert_eq!(
        patched.output.as_deref(),
        Some("::core::result::Result<u64, BadReverseInt>")
    );
    assert!(out.contains("pub enum BadReverseInt { ParseNormalIntError(ParseIntError) }"));
}

#[test]
fn throws_wraps_unit_result() {
    let function = FunctionSig {
        visibility: Visibility::Inherited,
        name: String::from("main"),
        output: None,
    };
    let (patched, _) = throws("ParseIntError | io::Error", function).unwrap();
    assert_eq!(
        patched.output.as_deref(),
        Some("::core::result::Result<(), MainError>")
    );
}

#[test]
fn throws_empty_attribute() {
    let function = FunctionSig {
        visibility: Visibility::Inherited,
        name: String::from("run"),
        output: None,
    };
    let (patched, out) = throws("", function).unwrap();
    assert_eq!(
        patched.output.as_deref(),
        Some("::core::result::Result<(), RunError>")
    );
    assert!(out.contains("enum RunError {}"));
}

#[test]
fn type_to_variant_shapes() {
    assert_eq!(type_to_variant(&path(&["ParseIntError"])).as_deref(), Some("ParseIntError"));
    assert_eq!(type_to_variant(&path(&["foo_bar", "baz_qux"])).as_deref(), Some("FooBarBazQux"));
    let grouped = TypeExpr::Grouped { inner: Box::new(path(&["io", "Error"])) };
    assert_eq!(type_to_variant(&grouped).as_deref(), Some("IoError"));
    let other = TypeExpr::Other { text: String::from("&'a str") };
    assert_eq!(type_to_variant(&other), None);
}

#[test]
fn split_variants_resolves_in_order() {
    let args = vec![
        VariantArg::Variant { typ: path(&["A"]), name: None },
        VariantArg::Composed { typ: path(&["Inner"]) },
        VariantArg::Variant { typ: path(&["b_c"]), name: Some(String::from("Bee")) },
    ];
    let (variants, composed) = split_variants(args).unwrap();
    assert_eq!(variants.len(), 2);
    assert_eq!(variants[0].name, "A");
    assert_eq!(variants[1].name, "Bee");
    assert_eq!(composed.len(), 1);
}

#[test]
fn round_trip_rendering_is_pure_delegation() {
    let schema = CompositeError {
        visibility: Visibility::Inherited,
        name: String::from("ConfigError"),
        variants: vec![Variant { typ: path(&["ParseIntError"]), name: String::from("ParseIntError") }],
        composed: vec![],
    };
    let value = LeafValue {
        typ: path(&["ParseIntError"]),
        rendering: String::from("invalid digit found in string"),
    };
    let v: UnionValue = leaf_into(&schema, 0, value);
    assert_eq!(render_value(&schema, &v), "invalid digit found in string");
    assert_eq!(cause_of(&schema, &v).rendering, "invalid digit found in string");
}

#[test]
fn absorption_paths_reach_the_same_value() {
    let inner = CompositeError {
        visibility: Visibility::Inherited,
        name: String::from("Inner"),
        variants: vec![Variant { typ: path(&["S"]), name: String::from("X") }],
        composed: vec![],
    };
    let outer = CompositeError {
        visibility: Visibility::Inherited,
        name: String::from("Outer"),
        variants: vec![
            Variant { typ: path(&["T"]), name: String::from("T") },
            Variant { typ: path(&["S"]), name: String::from("S") },
        ],
        composed: vec![],
    };
    let value = LeafValue { typ: path(&["S"]), rendering: String::from("boom") };
    let direct = leaf_into(&outer, 1, LeafValue { typ: path(&["S"]), rendering: String::from("boom") });
    let via_inner = delegate_value(&inner, leaf_into(&inner, 0, value), &outer);
    assert_eq!(via_inner.case, direct.case);
    assert_eq!(render_value(&outer, &via_inner), render_value(&outer, &direct));
    assert_eq!(cause_of(&outer, &via_inner).rendering, cause_of(&outer, &direct).rendering);
}
