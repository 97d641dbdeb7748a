use vstd::prelude::*;
use vstd::string::*;

use crate::strings::{spec_ends_with, str_ends_with, str_eq};

verus! {

/// The ECMAScript standard versions, ordered with the newest last.
#[derive(Debug, Copy, Clone, Eq, PartialEq, Ord, PartialOrd, Structural)]
pub enum LanguageVersion {
    ES2022,
    ESNext,
}

impl LanguageVersion {
    /// The latest finalized ECMAScript version.
    pub fn latest() -> (r: Self)
        ensures
            r == LanguageVersion::ES2022,
    {
        LanguageVersion::ES2022
    }
}

impl Default for LanguageVersion {
    fn default() -> (r: Self)
        ensures
            r == LanguageVersion::ES2022,
    {
        Self::latest()
    }
}

/// Whether the source file is an ECMAScript module or a script.
#[derive(Debug, Copy, Clone, Eq, PartialEq, Structural)]
pub enum ModuleKind {
    Script,
    Module,
}

impl ModuleKind {
    pub fn is_script(&self) -> (r: bool)
        ensures
            r == (self is Script),
    {
        matches!(self, ModuleKind::Script)
    }

    pub fn is_module(&self) -> (r: bool)
        ensures
            r == (self is Module),
    {
        matches!(self, ModuleKind::Module)
    }
}

impl Default for ModuleKind {
    fn default() -> (r: Self)
        ensures
            r == ModuleKind::Module,
    {
        ModuleKind::Module
    }
}

/// Standard syntax, or syntax extended with JSX.
#[derive(Debug, Copy, Clone, Eq, PartialEq, Structural)]
pub enum LanguageVariant {
    Standard,
    Jsx,
}

impl LanguageVariant {
    pub fn is_standard(&self) -> (r: bool)
        ensures
            r == (self is Standard),
    {
        matches!(self, LanguageVariant::Standard)
    }

    pub fn is_jsx(&self) -> (r: bool)
        ensures
            r == (self is Jsx),
    {
        matches!(self, LanguageVariant::Jsx)
    }
}

impl Default for LanguageVariant {
    fn default() -> (r: Self)
        ensures
            r == LanguageVariant::Standard,
    {
        LanguageVariant::Standard
    }
}

/// JavaScript, or TypeScript with `definition_file` set for `d.ts` files.
#[derive(Debug, Copy, Clone, Eq, PartialEq, Structural)]
pub enum Language {
    JavaScript,
    TypeScript { definition_file: bool },
}

impl Language {
    pub fn is_javascript(&self) -> (r: bool)
        ensures
            r == (self is JavaScript),
    {
        matches!(self, Language::JavaScript)
    }

    pub fn is_typescript(&self) -> (r: bool)
        ensures
            r == (self is TypeScript),
    {
        matches!(self, Language::TypeScript { .. })
    }
}

impl Default for Language {
    fn default() -> (r: Self)
        ensures
            r == Language::JavaScript,
    {
        Language::JavaScript
    }
}

/// The kind of source file a parser is asked to read.
#[derive(Debug, Copy, Clone, Eq, PartialEq, Structural)]
pub struct SourceType {
    pub language: Language,
    pub variant: LanguageVariant,
    pub module_kind: ModuleKind,
    pub version: LanguageVersion,
}

/// The default source type: a standard JavaScript module at the latest version.
pub open spec fn spec_default_source_type() -> SourceType {
    SourceType {
        language: Language::JavaScript,
        variant: LanguageVariant::Standard,
        module_kind: ModuleKind::Module,
        version: LanguageVersion::ES2022,
    }
}

impl Default for SourceType {
    fn default() -> (r: Self)
        ensures
            r == spec_default_source_type(),
    {
        SourceType {
            language: Language::JavaScript,
            variant: LanguageVariant::Standard,
            module_kind: ModuleKind::Module,
            version: LanguageVersion::ES2022,
        }
    }
}

impl SourceType {
    /// language: JS, variant: Standard, module_kind: Module, version: Latest
    pub fn js_module() -> (r: Self)
        ensures
            r == spec_default_source_type(),
    {
        Self::default()
    }

    /// language: JS, variant: Standard, module_kind: Script, version: Latest
    pub fn js_script() -> (r: Self)
        ensures
            r == (SourceType { module_kind: ModuleKind::Script, ..spec_default_source_type() }),
    {
        Self::default().with_module_kind(ModuleKind::Script)
    }

    /// language: JS, variant: JSX, module_kind: Module, version: Latest
    pub fn jsx() -> (r: SourceType)
        ensures
            r == (SourceType { variant: LanguageVariant::Jsx, ..spec_default_source_type() }),
    {
        Self::js_module().with_variant(LanguageVariant::Jsx)
    }

    /// language: TS, variant: Standard, module_kind: Module, version: Latest
    pub fn ts() -> (r: SourceType)
        ensures
            r == (SourceType {
                language: Language::TypeScript { definition_file: false },
                ..spec_default_source_type()
            }),
    {
        SourceType {
            language: Language::TypeScript { definition_file: false },
            ..Self::default()
        }
    }

    /// language: TS, variant: JSX, module_kind: Module, version: Latest
    pub fn tsx() -> (r: SourceType)
        ensures
            r == (SourceType {
                language: Language::TypeScript { definition_file: false },
                variant: LanguageVariant::Jsx,
                ..spec_default_source_type()
            }),
    {
        Self::ts().with_variant(LanguageVariant::Jsx)
    }

    /// TypeScript definition file:
    /// language: TS, ambient, variant: Standard, module_kind: Module, version: Latest
    pub fn d_ts() -> (r: SourceType)
        ensures
            r == (SourceType {
                language: Language::TypeScript { definition_file: true },
                ..spec_default_source_type()
            }),
    {
        SourceType {
            language: Language::TypeScript { definition_file: true },
            ..Self::default()
        }
    }

    pub fn with_module_kind(self, kind: ModuleKind) -> (r: Self)
        ensures
            r == (SourceType { module_kind: kind, ..self }),
    {
        SourceType { module_kind: kind, ..self }
    }

    pub fn with_version(self, version: LanguageVersion) -> (r: Self)
        ensures
            r == (SourceType { version: version, ..self }),
    {
        SourceType { version: version, ..self }
    }

    pub fn with_variant(self, variant: LanguageVariant) -> (r: Self)
        ensures
            r == (SourceType { variant: variant, ..self }),
    {
        SourceType { variant: variant, ..self }
    }

    pub fn language(&self) -> (r: Language)
        ensures
            r == self.language,
    {
        self.language
    }

    pub fn variant(&self) -> (r: LanguageVariant)
        ensures
            r == self.variant,
    {
        self.variant
    }

    pub fn version(&self) -> (r: LanguageVersion)
        ensures
            r == self.version,
    {
        self.version
    }

    pub fn module_kind(&self) -> (r: ModuleKind)
        ensures
            r == self.module_kind,
    {
        self.module_kind
    }

    pub fn is_module(&self) -> (r: bool)
        ensures
            r == (self.module_kind is Module),
    {
        self.module_kind.is_module()
    }
}

/// Errors around the construction of the source type.
#[derive(Debug, Clone)]
pub enum SourceTypeError {
    /// The source type is unknown.
    UnknownExtension(String),
}

impl SourceTypeError {
    /// A human-readable description of the error.
    pub fn message(&self) -> (r: String)
        ensures
            self matches SourceTypeError::UnknownExtension(e) ==> r@
                == "The parser can't parse the extension '"@ + e@ + "' yet"@,
    {
        match self {
            SourceTypeError::UnknownExtension(extension) => String::from_str(
                "The parser can't parse the extension '",
            ).concat(extension.as_str()).concat("' yet"),
        }
    }
}

/// The source type that a file name and its extension call for, or `None`
/// where the extension is unknown.
pub open spec fn spec_source_type_of(file_name: Seq<char>, extension: Seq<char>) -> Option<
    SourceType,
> {
    if spec_ends_with(file_name, ".d.ts"@) || spec_ends_with(file_name, ".d.mts"@) {
        Some(
            SourceType {
                language: Language::TypeScript { definition_file: true },
                ..spec_default_source_type()
            },
        )
    } else if spec_ends_with(file_name, ".d.cts"@) {
        Some(
            SourceType {
                language: Language::TypeScript { definition_file: true },
                module_kind: ModuleKind::Script,
                ..spec_default_source_type()
            },
        )
    } else if extension == "js"@ || extension == "mjs"@ {
        Some(spec_default_source_type())
    } else if extension == "cjs"@ {
        Some(SourceType { module_kind: ModuleKind::Script, ..spec_default_source_type() })
    } else if extension == "jsx"@ {
        Some(SourceType { variant: LanguageVariant::Jsx, ..spec_default_source_type() })
    } else if extension == "ts"@ || extension == "mts"@ {
        Some(
            SourceType {
                language: Language::TypeScript { definition_file: false },
                ..spec_default_source_type()
            },
        )
    } else if extension == "cts"@ {
        Some(
            SourceType {
                language: Language::TypeScript { definition_file: false },
                module_kind: ModuleKind::Script,
                ..spec_default_source_type()
            },
        )
    } else if extension == "tsx"@ {
        Some(
            SourceType {
                language: Language::TypeScript { definition_file: false },
                variant: LanguageVariant::Jsx,
                ..spec_default_source_type()
            },
        )
    } else {
        None
    }
}

/// Deduces the source type from the file name and its extension.
pub fn compute_source_type_from_path_or_extension(file_name: &str, extension: &str) -> (r: Result<
    SourceType,
    SourceTypeError,
>)
    ensures
        spec_source_type_of(file_name@, extension@) matches Some(st) ==> (r matches Ok(got)
            && got == st),
        spec_source_type_of(file_name@, extension@) is None ==> (r matches Err(
            SourceTypeError::UnknownExtension(e),
        ) && e@ == extension@),
{
    let source_type = if str_ends_with(file_name, ".d.ts") || str_ends_with(file_name, ".d.mts") {
        SourceType::d_ts()
    } else if str_ends_with(file_name, ".d.cts") {
        SourceType::d_ts().with_module_kind(ModuleKind::Script)
    } else if str_eq(extension, "js") || str_eq(extension, "mjs") {
        SourceType::js_module()
    } else if str_eq(extension, "cjs") {
        SourceType::js_module().with_module_kind(ModuleKind::Script)
    } else if str_eq(extension, "jsx") {
        SourceType::jsx()
    } else if str_eq(extension, "ts") || str_eq(extension, "mts") {
        SourceType::ts()
    } else if str_eq(extension, "cts") {
        SourceType::ts().with_module_kind(ModuleKind::Script)
    } else if str_eq(extension, "tsx") {
        SourceType::tsx()
    } else {
        return Err(SourceTypeError::UnknownExtension(extension.to_owned()));
    };
    Ok(source_type)
}

/// The part of a parser's configuration that decides which syntax features
/// are supported: the strict-mode flag and the source type being parsed.
#[derive(Debug, Clone)]
pub struct ParserOptions {
    pub strict_mode: bool,
    pub source_type: SourceType,
}

/// A syntax feature that may or may not be supported depending on the file
/// type and parser configuration.
pub enum JsSyntaxFeature {
    SloppyMode,
    StrictMode,
    TypeScript,
    Jsx,
}

impl JsSyntaxFeature {
    /// Whether the given parsing configuration supports this syntax feature.
    pub fn is_supported(&self, p: &ParserOptions) -> (r: bool)
        ensures
            self is SloppyMode ==> r == !p.strict_mode,
            self is StrictMode ==> r == p.strict_mode,
            self is TypeScript ==> r == (p.source_type.language is TypeScript),
            self is Jsx ==> r == (p.source_type.variant is Jsx),
    {
        match self {
            JsSyntaxFeature::SloppyMode => !p.strict_mode,
            JsSyntaxFeature::StrictMode => p.strict_mode,
            JsSyntaxFeature::TypeScript => p.source_type.language().is_typescript(),
            JsSyntaxFeature::Jsx => p.source_type.variant().is_jsx(),
        }
    }

    /// Whether the given parsing configuration does not support this feature.
    pub fn is_unsupported(&self, p: &ParserOptions) -> (r: bool)
        ensures
            r == !self.spec_is_supported(p),
    {
        !self.is_supported(p)
    }

    /// `is_supported`, as a predicate for contracts.
    pub open spec fn spec_is_supported(&self, p: &ParserOptions) -> bool {
        match self {
            JsSyntaxFeature::SloppyMode => !p.strict_mode,
            JsSyntaxFeature::StrictMode => p.strict_mode,
            JsSyntaxFeature::TypeScript => p.source_type.language is TypeScript,
            JsSyntaxFeature::Jsx => p.source_type.variant is Jsx,
        }
    }
}

} // verus!
