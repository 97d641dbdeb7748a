use grit_resolved::binding::{Binding, Snippet, TargetNode, TargetTree};
use grit_resolved::constant::{constant_to_text, Constant, Double};
use grit_resolved::context::NullContext;
use grit_resolved::error::{ConversionTarget, EvalError, ValueKind};
use grit_resolved::files::{FilePtr, FileRegistry, StoredFile};
use grit_resolved::pattern::{
    Accessor, AccessorKey, AccessorMap, BooleanConstant, Container, ContainerOrIndex,
    DynamicPattern, DynamicSnippet, DynamicSnippetPart, FilePattern, IntConstant, ListIndex,
    ListOrContainer, ListPattern, MapPattern, Pattern, StringConstant, Variable,
};
use grit_resolved::resolved_pattern::{GritFile, GritResolvedPattern};
use grit_resolved::state::{State, VariableContent};

fn empty_state() -> State {
    State { bindings: vec![vec![vec![]]], effects: vec![], files: FileRegistry { files: vec![] } }
}

fn state_with_slot(content: VariableContent) -> State {
    State {
        bindings: vec![vec![vec![content]]],
        effects: vec![],
        files: FileRegistry { files: vec![] },
    }
}

fn int_pattern(i: i64) -> Pattern {
    Pattern::IntConstant(IntConstant { value: i })
}

fn string_pattern(text: &str) -> Pattern {
    Pattern::StringConstant(StringConstant { text: text.to_string() })
}

fn render(v: &GritResolvedPattern) -> String {
    let files = FileRegistry { files: vec![] };
    v.text(&files).unwrap()
}

#[test]
fn list_of_constants_flattens_with_spaces() {
    let list = GritResolvedPattern::List(vec![
        GritResolvedPattern::Constant(Constant::Integer(1)),
        GritResolvedPattern::Constant(Constant::Integer(2)),
    ]);
    assert_eq!(render(&list), "1 2");
    let empty = GritResolvedPattern::List(vec![]);
    assert_eq!(render(&empty), "");
}

#[test]
fn map_renders_sorted_regardless_of_insertion_order() {
    let ctx = NullContext {};
    let forward = Pattern::StrMap(Box::new(MapPattern {
        elements: vec![("b".to_string(), int_pattern(1)), ("a".to_string(), int_pattern(2))],
    }));
    let backward = Pattern::StrMap(Box::new(MapPattern {
        elements: vec![("a".to_string(), int_pattern(2)), ("b".to_string(), int_pattern(1))],
    }));
    let mut state = empty_state();
    let v1 = GritResolvedPattern::from_pattern(&forward, &mut state, &ctx).unwrap();
    let v2 = GritResolvedPattern::from_pattern(&backward, &mut state, &ctx).unwrap();
    assert_eq!(render(&v1), "{\"a\": 2, \"b\": 1}");
    assert_eq!(render(&v2), "{\"a\": 2, \"b\": 1}");
}

#[test]
fn map_literal_later_duplicate_key_wins() {
    let ctx = NullContext {};
    let dup = Pattern::StrMap(Box::new(MapPattern {
        elements: vec![("k".to_string(), int_pattern(1)), ("k".to_string(), int_pattern(2))],
    }));
    let mut state = empty_state();
    let v = GritResolvedPattern::from_pattern(&dup, &mut state, &ctx).unwrap();
    assert_eq!(render(&v), "{\"k\": 2}");
}

#[test]
fn float_of_integer_widens() {
    let files = FileRegistry { files: vec![] };
    let v = GritResolvedPattern::Constant(Constant::Integer(7));
    match v.float(&files).unwrap() {
        grit_resolved::convert::NumericValue::Integer(i) => {
            assert_eq!(i as f64, 7.0);
        },
        _ => panic!("expected an integer numeric source"),
    }
}

#[test]
fn float_of_numeric_string_parses() {
    let files = FileRegistry { files: vec![] };
    let v = GritResolvedPattern::Constant(Constant::String("3.5".to_string()));
    match v.float(&files).unwrap() {
        grit_resolved::convert::NumericValue::Text(t) => {
            assert_eq!(t.parse::<f64>().unwrap(), 3.5);
        },
        _ => panic!("expected a textual numeric source"),
    }
}

#[test]
fn float_of_boolean_is_not_numeric() {
    let files = FileRegistry { files: vec![] };
    let v = GritResolvedPattern::Constant(Constant::Boolean(true));
    assert!(matches!(v.float(&files), Err(EvalError::NotNumeric)));
}

#[test]
fn float_of_empty_binding_chain_is_missing_binding() {
    let files = FileRegistry { files: vec![] };
    let v = GritResolvedPattern::Binding(vec![]);
    assert!(matches!(v.float(&files), Err(EvalError::MissingBinding)));
}

#[test]
fn float_of_float_constant_passes_bits_through() {
    let files = FileRegistry { files: vec![] };
    let bits = 2.5f64.to_bits();
    let v = GritResolvedPattern::Constant(Constant::Float(Double {
        bits,
        text: "2.5".to_string(),
    }));
    match v.float(&files).unwrap() {
        grit_resolved::convert::NumericValue::Double(b) => {
            assert_eq!(f64::from_bits(b), 2.5);
        },
        _ => panic!("expected float bits"),
    }
}

#[test]
fn string_literal_pattern_renders_itself() {
    let ctx = NullContext {};
    let mut state = empty_state();
    let v = GritResolvedPattern::from_pattern(&string_pattern("hi"), &mut state, &ctx).unwrap();
    assert_eq!(render(&v), "hi");
}

#[test]
fn predicate_only_kind_fails_naming_the_kind() {
    let ctx = NullContext {};
    let mut state = empty_state();
    let r = GritResolvedPattern::from_pattern(&Pattern::And, &mut state, &ctx);
    match r {
        Err(EvalError::UnsupportedPatternKind(name)) => assert_eq!(name, "AND"),
        _ => panic!("expected an unsupported-pattern-kind failure"),
    }
}

#[test]
fn cached_variable_read_twice_runs_no_deferred_effects() {
    let ctx = NullContext {};
    // The slot holds a cached value and a deferred built-in call; through
    // the null context the deferred pattern would fail if it ever ran.
    let deferred = Pattern::CallBuiltIn(Box::new(grit_resolved::pattern::CallBuiltIn {
        index: 0,
        args: vec![],
    }));
    let mut state = state_with_slot(VariableContent {
        name: "x".to_string(),
        pattern: Some(deferred),
        value: Some(GritResolvedPattern::Constant(Constant::Integer(5))),
    });
    let var = Pattern::Variable(Variable { scope: 0, index: 0 });
    let effects_before = state.effects.len();
    let v1 = GritResolvedPattern::from_pattern(&var, &mut state, &ctx).unwrap();
    let v2 = GritResolvedPattern::from_pattern(&var, &mut state, &ctx).unwrap();
    assert_eq!(state.effects.len(), effects_before);
    assert_eq!(render(&v1), "5");
    assert_eq!(render(&v2), "5");
}

#[test]
fn deferred_variable_evaluates_its_pattern() {
    let ctx = NullContext {};
    let mut state = state_with_slot(VariableContent {
        name: "x".to_string(),
        pattern: Some(string_pattern("deferred")),
        value: None,
    });
    let var = Pattern::Variable(Variable { scope: 0, index: 0 });
    let v = GritResolvedPattern::from_pattern(&var, &mut state, &ctx).unwrap();
    assert_eq!(render(&v), "deferred");
    // The deferred pattern stays in place for the next lookup.
    let v2 = GritResolvedPattern::from_pattern(&var, &mut state, &ctx).unwrap();
    assert_eq!(render(&v2), "deferred");
}

#[test]
fn unresolved_variable_fails_with_its_name() {
    let ctx = NullContext {};
    let mut state = state_with_slot(VariableContent {
        name: "answer".to_string(),
        pattern: None,
        value: None,
    });
    let var = Pattern::Variable(Variable { scope: 0, index: 0 });
    match GritResolvedPattern::from_pattern(&var, &mut state, &ctx) {
        Err(EvalError::UnresolvedVariable(name)) => assert_eq!(name, "answer"),
        _ => panic!("expected an unresolved-variable failure"),
    }
}

#[test]
fn file_pattern_renders_name_colon_body() {
    let ctx = NullContext {};
    let mut state = empty_state();
    let file = Pattern::File(Box::new(FilePattern {
        name: string_pattern("foo.txt"),
        body: string_pattern("contents"),
    }));
    let v = GritResolvedPattern::from_pattern(&file, &mut state, &ctx).unwrap();
    assert_eq!(render(&v), "foo.txt:\ncontents");
}

#[test]
fn file_value_never_flattens() {
    let v = GritResolvedPattern::File(GritFile::Ptr(FilePtr { file: 0, version: 0 }));
    for _ in 0..2 {
        match v.to_snippets() {
            Err(EvalError::UnsupportedConversion { from, to }) => {
                assert_eq!(from, ValueKind::File);
                assert_eq!(to, ConversionTarget::Snippets);
            },
            _ => panic!("expected a conversion failure"),
        }
    }
}

#[test]
fn file_pointer_renders_through_registry() {
    let files = FileRegistry {
        files: vec![vec![StoredFile { name: "a.js".to_string(), body: "let x;".to_string() }]],
    };
    let v = GritResolvedPattern::File(GritFile::Ptr(FilePtr { file: 0, version: 0 }));
    assert_eq!(v.text(&files).unwrap(), "a.js:\nlet x;");
}

#[test]
fn dynamic_snippet_splices_cached_variables() {
    let ctx = NullContext {};
    let mut state = state_with_slot(VariableContent {
        name: "name".to_string(),
        pattern: None,
        value: Some(GritResolvedPattern::Constant(Constant::String("world".to_string()))),
    });
    let snippet = DynamicSnippet {
        parts: vec![
            DynamicSnippetPart::String("hello ".to_string()),
            DynamicSnippetPart::Variable(Variable { scope: 0, index: 0 }),
        ],
    };
    let v = GritResolvedPattern::from_dynamic_snippet(&snippet, &mut state, &ctx).unwrap();
    assert_eq!(render(&v), "hello world");
}

#[test]
fn accessor_on_missing_key_is_undefined_not_error() {
    let ctx = NullContext {};
    let mut state = empty_state();
    let accessor = Accessor {
        map: AccessorMap::Literal(MapPattern {
            elements: vec![("a".to_string(), int_pattern(1))],
        }),
        key: AccessorKey::String("missing".to_string()),
    };
    let v = GritResolvedPattern::from_accessor(&accessor, &mut state, &ctx).unwrap();
    // An undefined value renders as the empty string.
    assert_eq!(render(&v), "");
}

#[test]
fn accessor_on_literal_map_finds_entry() {
    let ctx = NullContext {};
    let mut state = empty_state();
    let accessor = Accessor {
        map: AccessorMap::Literal(MapPattern {
            elements: vec![("a".to_string(), int_pattern(1)), ("b".to_string(), int_pattern(9))],
        }),
        key: AccessorKey::String("b".to_string()),
    };
    let v = GritResolvedPattern::from_accessor(&accessor, &mut state, &ctx).unwrap();
    assert_eq!(render(&v), "9");
}

#[test]
fn accessor_on_non_map_value_is_malformed() {
    let ctx = NullContext {};
    let mut state = state_with_slot(VariableContent {
        name: "x".to_string(),
        pattern: None,
        value: Some(GritResolvedPattern::Constant(Constant::Integer(3))),
    });
    let accessor = Accessor {
        map: AccessorMap::Container(Container::Variable(Variable { scope: 0, index: 0 })),
        key: AccessorKey::String("a".to_string()),
    };
    match GritResolvedPattern::from_accessor(&accessor, &mut state, &ctx) {
        Err(EvalError::MalformedAccess(_)) => {},
        _ => panic!("expected a malformed access"),
    }
}

#[test]
fn list_index_counts_from_the_end_when_negative() {
    let ctx = NullContext {};
    let mut state = empty_state();
    let li = ListIndex {
        list: ListOrContainer::List(ListPattern {
            patterns: vec![int_pattern(10), int_pattern(20), int_pattern(30)],
        }),
        index: ContainerOrIndex::Index(-1),
    };
    let v = GritResolvedPattern::from_list_index(&li, &mut state, &ctx).unwrap();
    assert_eq!(render(&v), "30");
}

#[test]
fn list_index_out_of_range_is_undefined() {
    let ctx = NullContext {};
    let mut state = empty_state();
    let li = ListIndex {
        list: ListOrContainer::List(ListPattern { patterns: vec![int_pattern(10)] }),
        index: ContainerOrIndex::Index(5),
    };
    let v = GritResolvedPattern::from_list_index(&li, &mut state, &ctx).unwrap();
    assert_eq!(render(&v), "");
}

#[test]
fn list_index_reads_its_index_from_a_resolved_variable() {
    let ctx = NullContext {};
    let mut state = state_with_slot(VariableContent {
        name: "i".to_string(),
        pattern: None,
        value: Some(GritResolvedPattern::Constant(Constant::Integer(1))),
    });
    let li = ListIndex {
        list: ListOrContainer::List(ListPattern {
            patterns: vec![string_pattern("x"), string_pattern("y")],
        }),
        index: ContainerOrIndex::Container(Container::Variable(Variable { scope: 0, index: 0 })),
    };
    let v = GritResolvedPattern::from_list_index(&li, &mut state, &ctx).unwrap();
    assert_eq!(render(&v), "y");
}

#[test]
fn constants_render_canonically() {
    assert_eq!(constant_to_text(&Constant::Integer(-42)), "-42");
    assert_eq!(constant_to_text(&Constant::Integer(0)), "0");
    assert_eq!(constant_to_text(&Constant::Boolean(true)), "true");
    assert_eq!(constant_to_text(&Constant::Boolean(false)), "false");
    assert_eq!(constant_to_text(&Constant::String("s".to_string())), "s");
    assert_eq!(constant_to_text(&Constant::Undefined), "");
}

#[test]
fn constructors_build_the_documented_shapes() {
    let node = TargetNode { text: "let x;".to_string() };
    let tree = TargetTree { root: node };
    let v = GritResolvedPattern::from_tree(&tree);
    assert_eq!(render(&v), "let x;");
    let e = GritResolvedPattern::from_empty_binding(TargetNode { text: String::new() }, 3);
    assert_eq!(render(&e), "");
    let s = GritResolvedPattern::from_string("abc".to_string());
    assert_eq!(render(&s), "abc");
    let sn = GritResolvedPattern::from_resolved_snippet(Snippet::Binding(Binding::Node(
        TargetNode { text: "n".to_string() },
    )));
    assert_eq!(render(&sn), "n");
    let l = GritResolvedPattern::from_list_parts(vec![
        GritResolvedPattern::from_constant(Constant::Integer(1)),
        GritResolvedPattern::from_constant(Constant::Boolean(false)),
    ]);
    assert_eq!(render(&l), "1 false");
}

#[test]
fn getters_expose_the_variants() {
    let b = GritResolvedPattern::from_binding(Binding::Node(TargetNode {
        text: "t".to_string(),
    }));
    assert!(b.is_binding());
    assert!(!b.is_list());
    assert!(b.get_bindings().is_some());
    assert!(b.get_last_binding().is_some());
    assert!(b.get_file().is_none());
    assert!(b.get_map().is_none());
    assert!(b.get_list_items().is_none());
    assert!(b.get_snippets().is_none());
    let l = GritResolvedPattern::List(vec![GritResolvedPattern::Constant(Constant::Undefined)]);
    assert!(l.is_list());
    assert_eq!(l.get_list_items().unwrap().len(), 1);
}

#[test]
fn code_snippet_without_dynamic_part_fails() {
    let ctx = NullContext {};
    let mut state = empty_state();
    let p = Pattern::CodeSnippet(grit_resolved::pattern::CodeSnippet { dynamic_snippet: None });
    assert!(matches!(
        GritResolvedPattern::from_pattern(&p, &mut state, &ctx),
        Err(EvalError::UnsupportedPatternKind(_))
    ));
}

#[test]
fn foreign_function_calls_fail_at_call_time() {
    let ctx = NullContext {};
    let mut state = empty_state();
    let p = Pattern::CallForeignFunction(Box::new(grit_resolved::pattern::CallForeignFunction {
        name: "f".to_string(),
    }));
    match GritResolvedPattern::from_pattern(&p, &mut state, &ctx) {
        Err(EvalError::UnsupportedPatternKind(name)) => {
            assert_eq!(name, "CALL_FOREIGN_FUNCTION");
        },
        _ => panic!("expected a foreign-call failure"),
    }
}

#[test]
fn dynamic_pattern_list_evaluates_elementwise() {
    let ctx = NullContext {};
    let mut state = empty_state();
    let dp = DynamicPattern::List(grit_resolved::pattern::DynamicList {
        elements: vec![
            DynamicPattern::Snippet(DynamicSnippet {
                parts: vec![DynamicSnippetPart::String("a".to_string())],
            }),
            DynamicPattern::Snippet(DynamicSnippet {
                parts: vec![DynamicSnippetPart::String("b".to_string())],
            }),
        ],
    });
    let v = GritResolvedPattern::from_dynamic_pattern(&dp, &mut state, &ctx).unwrap();
    assert_eq!(render(&v), "a b");
}

#[test]
fn nested_list_and_map_render_inside_out() {
    let ctx = NullContext {};
    let mut state = empty_state();
    let p = Pattern::List(Box::new(ListPattern {
        patterns: vec![
            Pattern::StrMap(Box::new(MapPattern {
                elements: vec![("k".to_string(), int_pattern(1))],
            })),
            int_pattern(2),
        ],
    }));
    let v = GritResolvedPattern::from_pattern(&p, &mut state, &ctx).unwrap();
    assert_eq!(render(&v), "{\"k\": 1} 2");
}

#[test]
fn boolean_constant_pattern_evaluates_to_constant() {
    let ctx = NullContext {};
    let mut state = empty_state();
    let p = Pattern::BooleanConstant(BooleanConstant { value: true });
    let v = GritResolvedPattern::from_pattern(&p, &mut state, &ctx).unwrap();
    assert_eq!(render(&v), "true");
}

#[test]
fn template_with_unbound_splice_names_the_variable() {
    let ctx = NullContext {};
    let mut state = state_with_slot(VariableContent {
        name: "who".to_string(),
        pattern: None,
        value: None,
    });
    let snippet = DynamicSnippet {
        parts: vec![
            DynamicSnippetPart::String("hello ".to_string()),
            DynamicSnippetPart::Variable(Variable { scope: 0, index: 0 }),
        ],
    };
    match GritResolvedPattern::from_dynamic_snippet(&snippet, &mut state, &ctx) {
        Err(EvalError::UnresolvedVariable(name)) => assert_eq!(name, "who"),
        _ => panic!("expected an unresolved-variable failure"),
    }
}

#[test]
fn template_splicing_a_file_value_propagates_the_failure() {
    let ctx = NullContext {};
    let mut state = state_with_slot(VariableContent {
        name: "f".to_string(),
        pattern: None,
        value: Some(GritResolvedPattern::File(GritFile::Ptr(FilePtr { file: 0, version: 0 }))),
    });
    let snippet = DynamicSnippet {
        parts: vec![DynamicSnippetPart::Variable(Variable { scope: 0, index: 0 })],
    };
    match GritResolvedPattern::from_dynamic_snippet(&snippet, &mut state, &ctx) {
        Err(EvalError::UnsupportedConversion { from, to }) => {
            assert_eq!(from, ValueKind::File);
            assert_eq!(to, ConversionTarget::Snippets);
        },
        _ => panic!("expected the flatten failure to propagate"),
    }
}

#[test]
fn accessor_through_variable_with_cached_map_finds_the_entry() {
    let ctx = NullContext {};
    let mut state = state_with_slot(VariableContent {
        name: "m".to_string(),
        pattern: None,
        value: Some(GritResolvedPattern::StrMap(vec![
            ("a".to_string(), GritResolvedPattern::Constant(Constant::Integer(1))),
            ("b".to_string(), GritResolvedPattern::Constant(Constant::Integer(9))),
        ])),
    });
    let accessor = Accessor {
        map: AccessorMap::Container(Container::Variable(Variable { scope: 0, index: 0 })),
        key: AccessorKey::String("b".to_string()),
    };
    let v = GritResolvedPattern::from_accessor(&accessor, &mut state, &ctx).unwrap();
    assert_eq!(render(&v), "9");
    let missing = Accessor {
        map: AccessorMap::Container(Container::Variable(Variable { scope: 0, index: 0 })),
        key: AccessorKey::String("zz".to_string()),
    };
    let u = GritResolvedPattern::from_accessor(&missing, &mut state, &ctx).unwrap();
    assert_eq!(render(&u), "");
}

#[test]
fn list_index_through_variable_with_cached_list_finds_the_item() {
    let ctx = NullContext {};
    let mut state = state_with_slot(VariableContent {
        name: "l".to_string(),
        pattern: None,
        value: Some(GritResolvedPattern::List(vec![
            GritResolvedPattern::Constant(Constant::Integer(10)),
            GritResolvedPattern::Constant(Constant::Integer(20)),
        ])),
    });
    let li = ListIndex {
        list: ListOrContainer::Container(Container::Variable(Variable { scope: 0, index: 0 })),
        index: ContainerOrIndex::Index(-1),
    };
    let v = GritResolvedPattern::from_list_index(&li, &mut state, &ctx).unwrap();
    assert_eq!(render(&v), "20");
}

#[test]
fn accessor_follows_a_variable_alias_one_step() {
    let ctx = NullContext {};
    // Slot 0 defers to slot 1, whose cached value is the map being accessed.
    let aliasing = VariableContent {
        name: "alias".to_string(),
        pattern: Some(Pattern::Variable(Variable { scope: 0, index: 1 })),
        value: None,
    };
    let target = VariableContent {
        name: "m".to_string(),
        pattern: None,
        value: Some(GritResolvedPattern::StrMap(vec![(
            "k".to_string(),
            GritResolvedPattern::Constant(Constant::Integer(7)),
        )])),
    };
    let mut state = State {
        bindings: vec![vec![vec![aliasing, target]]],
        effects: vec![],
        files: FileRegistry { files: vec![] },
    };
    let accessor = Accessor {
        map: AccessorMap::Container(Container::Variable(Variable { scope: 0, index: 0 })),
        key: AccessorKey::String("k".to_string()),
    };
    let v = GritResolvedPattern::from_accessor(&accessor, &mut state, &ctx).unwrap();
    assert_eq!(render(&v), "7");
}

#[test]
fn deferred_index_variable_is_not_a_resolved_index() {
    let ctx = NullContext {};
    let mut state = state_with_slot(VariableContent {
        name: "i".to_string(),
        pattern: Some(int_pattern(1)),
        value: None,
    });
    let li = ListIndex {
        list: ListOrContainer::List(ListPattern { patterns: vec![int_pattern(10)] }),
        index: ContainerOrIndex::Container(Container::Variable(Variable { scope: 0, index: 0 })),
    };
    match GritResolvedPattern::from_list_index(&li, &mut state, &ctx) {
        Err(EvalError::MalformedAccess(_)) => {},
        _ => panic!("expected a malformed access"),
    }
}
