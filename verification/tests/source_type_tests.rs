use grit_resolved::source_type::{
    compute_source_type_from_path_or_extension, JsSyntaxFeature, Language, LanguageVariant,
    LanguageVersion, ModuleKind, ParserOptions, SourceType, SourceTypeError,
};

#[test]
fn latest_version_is_es2022() {
    assert_eq!(LanguageVersion::latest(), LanguageVersion::ES2022);
    assert_eq!(LanguageVersion::default(), LanguageVersion::ES2022);
}

#[test]
fn module_kind_predicates() {
    assert!(ModuleKind::Script.is_script());
    assert!(!ModuleKind::Script.is_module());
    assert!(ModuleKind::Module.is_module());
    assert_eq!(ModuleKind::default(), ModuleKind::Module);
}

#[test]
fn language_variant_predicates() {
    assert!(LanguageVariant::Standard.is_standard());
    assert!(LanguageVariant::Jsx.is_jsx());
    assert_eq!(LanguageVariant::default(), LanguageVariant::Standard);
}

#[test]
fn language_predicates() {
    assert!(Language::JavaScript.is_javascript());
    assert!(Language::TypeScript { definition_file: false }.is_typescript());
    assert_eq!(Language::default(), Language::JavaScript);
}

#[test]
fn source_type_builders() {
    let js = SourceType::js_module();
    assert!(js.language().is_javascript());
    assert!(js.is_module());
    assert!(js.variant().is_standard());
    assert_eq!(js.version(), LanguageVersion::ES2022);

    let script = SourceType::js_script();
    assert!(script.module_kind().is_script());

    let jsx = SourceType::jsx();
    assert!(jsx.variant().is_jsx());

    let ts = SourceType::ts();
    assert_eq!(ts.language(), Language::TypeScript { definition_file: false });

    let tsx = SourceType::tsx();
    assert!(tsx.language().is_typescript());
    assert!(tsx.variant().is_jsx());

    let dts = SourceType::d_ts();
    assert_eq!(dts.language(), Language::TypeScript { definition_file: true });

    let with = SourceType::js_module()
        .with_module_kind(ModuleKind::Script)
        .with_variant(LanguageVariant::Jsx)
        .with_version(LanguageVersion::ESNext);
    assert!(with.module_kind().is_script());
    assert!(with.variant().is_jsx());
    assert_eq!(with.version(), LanguageVersion::ESNext);
}

#[test]
fn source_type_from_extension() {
    assert_eq!(
        compute_source_type_from_path_or_extension("a.js", "js").unwrap(),
        SourceType::js_module()
    );
    assert_eq!(
        compute_source_type_from_path_or_extension("a.mjs", "mjs").unwrap(),
        SourceType::js_module()
    );
    assert_eq!(
        compute_source_type_from_path_or_extension("a.cjs", "cjs").unwrap(),
        SourceType::js_module().with_module_kind(ModuleKind::Script)
    );
    assert_eq!(
        compute_source_type_from_path_or_extension("a.jsx", "jsx").unwrap(),
        SourceType::jsx()
    );
    assert_eq!(compute_source_type_from_path_or_extension("a.ts", "ts").unwrap(), SourceType::ts());
    assert_eq!(
        compute_source_type_from_path_or_extension("a.mts", "mts").unwrap(),
        SourceType::ts()
    );
    assert_eq!(
        compute_source_type_from_path_or_extension("a.cts", "cts").unwrap(),
        SourceType::ts().with_module_kind(ModuleKind::Script)
    );
    assert_eq!(
        compute_source_type_from_path_or_extension("a.tsx", "tsx").unwrap(),
        SourceType::tsx()
    );
}

#[test]
fn source_type_from_definition_file_names() {
    assert_eq!(
        compute_source_type_from_path_or_extension("lib.d.ts", "ts").unwrap(),
        SourceType::d_ts()
    );
    assert_eq!(
        compute_source_type_from_path_or_extension("lib.d.mts", "mts").unwrap(),
        SourceType::d_ts()
    );
    assert_eq!(
        compute_source_type_from_path_or_extension("lib.d.cts", "cts").unwrap(),
        SourceType::d_ts().with_module_kind(ModuleKind::Script)
    );
}

#[test]
fn unknown_extension_is_an_error() {
    match compute_source_type_from_path_or_extension("a.rb", "rb") {
        Err(SourceTypeError::UnknownExtension(e)) => {
            assert_eq!(e, "rb");
        },
        _ => panic!("expected an unknown-extension error"),
    }
}

#[test]
fn source_type_error_message_names_the_extension() {
    let e = SourceTypeError::UnknownExtension("rb".to_string());
    assert_eq!(e.message(), "The parser can't parse the extension 'rb' yet");
}

#[test]
fn syntax_features_follow_the_parsing_configuration() {
    let strict_ts = ParserOptions { strict_mode: true, source_type: SourceType::ts() };
    assert!(JsSyntaxFeature::StrictMode.is_supported(&strict_ts));
    assert!(JsSyntaxFeature::SloppyMode.is_unsupported(&strict_ts));
    assert!(JsSyntaxFeature::TypeScript.is_supported(&strict_ts));
    assert!(JsSyntaxFeature::Jsx.is_unsupported(&strict_ts));

    let sloppy_jsx = ParserOptions { strict_mode: false, source_type: SourceType::jsx() };
    assert!(JsSyntaxFeature::SloppyMode.is_supported(&sloppy_jsx));
    assert!(JsSyntaxFeature::TypeScript.is_unsupported(&sloppy_jsx));
    assert!(JsSyntaxFeature::Jsx.is_supported(&sloppy_jsx));
}
