use vstd::prelude::*;

use crate::binding::SnippetV;
use crate::constant::{ConstantV, Double};
use crate::convert::{snippets_of, text_of};
use crate::error::EvalErrorV;
use crate::files::StoredFileV;
use crate::map_entries::spec_entry_insert;
use crate::resolved_pattern::ValueV;

verus! {

/// A compiled variable reference: a scope id and a slot index assigned by
/// the pattern compiler.
#[derive(Debug, Clone, Copy, PartialEq, Eq, Structural)]
pub struct Variable {
    pub scope: usize,
    pub index: usize,
}

/// A literal string pattern.
#[derive(Debug)]
pub struct StringConstant {
    pub text: String,
}

/// A literal integer pattern.
#[derive(Debug)]
pub struct IntConstant {
    pub value: i64,
}

/// A literal float pattern.
#[derive(Debug)]
pub struct FloatConstant {
    pub value: Double,
}

/// A literal boolean pattern.
#[derive(Debug)]
pub struct BooleanConstant {
    pub value: bool,
}

/// A list-literal pattern.
#[derive(Debug)]
pub struct ListPattern {
    pub patterns: Vec<Pattern>,
}

/// A map-literal pattern, in declared order.
#[derive(Debug)]
pub struct MapPattern {
    pub elements: Vec<(String, Pattern)>,
}

/// A file-construction pattern: a name pattern and a body pattern.
#[derive(Debug)]
pub struct FilePattern {
    pub name: Pattern,
    pub body: Pattern,
}

/// The two operands of an arithmetic pattern.
#[derive(Debug)]
pub struct BinaryArgs {
    pub lhs: Pattern,
    pub rhs: Pattern,
}

/// A call of a built-in function, by table index.
#[derive(Debug)]
pub struct CallBuiltIn {
    pub index: usize,
    pub args: Vec<Pattern>,
}

/// A call of a user-defined function, by table index.
#[derive(Debug)]
pub struct CallFunction {
    pub index: usize,
    pub args: Vec<Pattern>,
}

/// A call of a foreign function; evaluating one is a documented
/// limitation and fails at call time.
#[derive(Debug)]
pub struct CallForeignFunction {
    pub name: String,
}

/// A code snippet pattern; only one carrying a dynamic snippet can be
/// evaluated to a value.
#[derive(Debug)]
pub struct CodeSnippet {
    pub dynamic_snippet: Option<DynamicPattern>,
}

/// One part of an interpolation template: literal text or a variable splice.
#[derive(Debug)]
pub enum DynamicSnippetPart {
    String(String),
    Variable(Variable),
}

/// An interpolation template.
#[derive(Debug)]
pub struct DynamicSnippet {
    pub parts: Vec<DynamicSnippetPart>,
}

/// A list of dynamic patterns.
#[derive(Debug)]
pub struct DynamicList {
    pub elements: Vec<DynamicPattern>,
}

/// The dynamic (always-evaluable) pattern kinds.
#[derive(Debug)]
pub enum DynamicPattern {
    Variable(Variable),
    Accessor(Box<Accessor>),
    ListIndex(Box<ListIndex>),
    Snippet(DynamicSnippet),
    List(DynamicList),
    CallBuiltIn(Box<CallBuiltIn>),
    CallFunction(Box<CallFunction>),
    CallForeignFunction(Box<CallForeignFunction>),
}

/// Anything that contains a reference to a pattern: a variable, a map
/// accessor, a list index, or a built-in call.
#[derive(Debug)]
pub enum Container {
    Variable(Variable),
    Accessor(Box<Accessor>),
    ListIndex(Box<ListIndex>),
    FunctionCall(Box<CallBuiltIn>),
}

/// The map side of an accessor: a container resolving to a map, or a map
/// literal.
#[derive(Debug)]
pub enum AccessorMap {
    Container(Container),
    Literal(MapPattern),
}

/// The key side of an accessor: a literal string or a variable.
#[derive(Debug)]
pub enum AccessorKey {
    String(String),
    Variable(Variable),
}

/// A property access on a structured value.
#[derive(Debug)]
pub struct Accessor {
    pub map: AccessorMap,
    pub key: AccessorKey,
}

/// The list side of a list index.
#[derive(Debug)]
pub enum ListOrContainer {
    Container(Container),
    List(ListPattern),
}

/// The index side of a list index: a container resolving to an integer, or
/// a literal index (negative counts from the end).
#[derive(Debug)]
pub enum ContainerOrIndex {
    Container(Container),
    Index(isize),
}

/// An index access on a list value.
#[derive(Debug)]
pub struct ListIndex {
    pub list: ListOrContainer,
    pub index: ContainerOrIndex,
}

/// The closed set of compiled pattern kinds. The kinds from `AstNode`
/// down are predicate-only: they are meaningful to the matcher alone and
/// never produce a runtime value.
#[derive(Debug)]
pub enum Pattern {
    Dynamic(DynamicPattern),
    CodeSnippet(CodeSnippet),
    CallBuiltIn(Box<CallBuiltIn>),
    CallFunction(Box<CallFunction>),
    CallForeignFunction(Box<CallForeignFunction>),
    StringConstant(StringConstant),
    IntConstant(IntConstant),
    FloatConstant(FloatConstant),
    BooleanConstant(BooleanConstant),
    Variable(Variable),
    List(Box<ListPattern>),
    ListIndex(Box<ListIndex>),
    StrMap(Box<MapPattern>),
    Accessor(Box<Accessor>),
    File(Box<FilePattern>),
    Add(Box<BinaryArgs>),
    Subtract(Box<BinaryArgs>),
    Multiply(Box<BinaryArgs>),
    Divide(Box<BinaryArgs>),
    Modulo(Box<BinaryArgs>),
    Before(Box<Pattern>),
    After(Box<Pattern>),
    AstNode,
    Call,
    Regex,
    Files,
    Bubble,
    Limit,
    Assignment,
    Accumulate,
    And,
    Or,
    Maybe,
    Any,
    Not,
    If,
    Undefined,
    Top,
    Bottom,
    Underscore,
    AstLeafNode,
    Rewrite,
    Log,
    Range,
    Contains,
    Includes,
    Within,
    Where,
    SomeMatch,
    Every,
    Dots,
    Like,
    Sequential,
}

/// The name of a pattern kind, as reported in diagnostics.
pub open spec fn spec_kind_name(p: Pattern) -> Seq<char> {
    match p {
        Pattern::Dynamic(_) => "DYNAMIC_PATTERN"@,
        Pattern::CodeSnippet(_) => "CODESNIPPET"@,
        Pattern::CallBuiltIn(_) => "CALL_BUILT_IN"@,
        Pattern::CallFunction(_) => "CALL_FUNCTION"@,
        Pattern::CallForeignFunction(_) => "CALL_FOREIGN_FUNCTION"@,
        Pattern::StringConstant(_) => "STRING_CONSTANT"@,
        Pattern::IntConstant(_) => "INT_CONSTANT"@,
        Pattern::FloatConstant(_) => "DOUBLE_CONSTANT"@,
        Pattern::BooleanConstant(_) => "BOOLEAN_CONSTANT"@,
        Pattern::Variable(_) => "VARIABLE"@,
        Pattern::List(_) => "LIST"@,
        Pattern::ListIndex(_) => "LIST_INDEX"@,
        Pattern::StrMap(_) => "MAP"@,
        Pattern::Accessor(_) => "ACCESSOR"@,
        Pattern::File(_) => "FILE_PATTERN"@,
        Pattern::Add(_) => "ADD"@,
        Pattern::Subtract(_) => "SUBTRACT"@,
        Pattern::Multiply(_) => "MULTIPLY"@,
        Pattern::Divide(_) => "DIVIDE"@,
        Pattern::Modulo(_) => "MODULO"@,
        Pattern::Before(_) => "BEFORE"@,
        Pattern::After(_) => "AFTER"@,
        Pattern::AstNode => "ASTNODE"@,
        Pattern::Call => "CALL"@,
        Pattern::Regex => "REGEX"@,
        Pattern::Files => "MULTIFILE"@,
        Pattern::Bubble => "BUBBLE"@,
        Pattern::Limit => "LIMIT"@,
        Pattern::Assignment => "assignment"@,
        Pattern::Accumulate => "ACCUMULATE"@,
        Pattern::And => "AND"@,
        Pattern::Or => "OR"@,
        Pattern::Maybe => "MAYBE"@,
        Pattern::Any => "ANY"@,
        Pattern::Not => "NOT"@,
        Pattern::If => "IF"@,
        Pattern::Undefined => "UNDEFINED"@,
        Pattern::Top => "TOP"@,
        Pattern::Bottom => "BOTTOM"@,
        Pattern::Underscore => "UNDERSCORE"@,
        Pattern::AstLeafNode => "ASTLEAFNODE"@,
        Pattern::Rewrite => "REWRITE"@,
        Pattern::Log => "LOG"@,
        Pattern::Range => "RANGE"@,
        Pattern::Contains => "CONTAINS"@,
        Pattern::Includes => "INCLUDES"@,
        Pattern::Within => "WITHIN"@,
        Pattern::Where => "WHERE"@,
        Pattern::SomeMatch => "SOME"@,
        Pattern::Every => "EVERY"@,
        Pattern::Dots => "DOTS"@,
        Pattern::Like => "LIKE"@,
        Pattern::Sequential => "SEQUENTIAL"@,
    }
}

impl Pattern {
    /// The name of this pattern kind.
    pub fn name(&self) -> (r: &'static str)
        ensures
            r@ == spec_kind_name(*self),
    {
        match self {
            Pattern::Dynamic(_) => "DYNAMIC_PATTERN",
            Pattern::CodeSnippet(_) => "CODESNIPPET",
            Pattern::CallBuiltIn(_) => "CALL_BUILT_IN",
            Pattern::CallFunction(_) => "CALL_FUNCTION",
            Pattern::CallForeignFunction(_) => "CALL_FOREIGN_FUNCTION",
            Pattern::StringConstant(_) => "STRING_CONSTANT",
            Pattern::IntConstant(_) => "INT_CONSTANT",
            Pattern::FloatConstant(_) => "DOUBLE_CONSTANT",
            Pattern::BooleanConstant(_) => "BOOLEAN_CONSTANT",
            Pattern::Variable(_) => "VARIABLE",
            Pattern::List(_) => "LIST",
            Pattern::ListIndex(_) => "LIST_INDEX",
            Pattern::StrMap(_) => "MAP",
            Pattern::Accessor(_) => "ACCESSOR",
            Pattern::File(_) => "FILE_PATTERN",
            Pattern::Add(_) => "ADD",
            Pattern::Subtract(_) => "SUBTRACT",
            Pattern::Multiply(_) => "MULTIPLY",
            Pattern::Divide(_) => "DIVIDE",
            Pattern::Modulo(_) => "MODULO",
            Pattern::Before(_) => "BEFORE",
            Pattern::After(_) => "AFTER",
            Pattern::AstNode => "ASTNODE",
            Pattern::Call => "CALL",
            Pattern::Regex => "REGEX",
            Pattern::Files => "MULTIFILE",
            Pattern::Bubble => "BUBBLE",
            Pattern::Limit => "LIMIT",
            Pattern::Assignment => "assignment",
            Pattern::Accumulate => "ACCUMULATE",
            Pattern::And => "AND",
            Pattern::Or => "OR",
            Pattern::Maybe => "MAYBE",
            Pattern::Any => "ANY",
            Pattern::Not => "NOT",
            Pattern::If => "IF",
            Pattern::Undefined => "UNDEFINED",
            Pattern::Top => "TOP",
            Pattern::Bottom => "BOTTOM",
            Pattern::Underscore => "UNDERSCORE",
            Pattern::AstLeafNode => "ASTLEAFNODE",
            Pattern::Rewrite => "REWRITE",
            Pattern::Log => "LOG",
            Pattern::Range => "RANGE",
            Pattern::Contains => "CONTAINS",
            Pattern::Includes => "INCLUDES",
            Pattern::Within => "WITHIN",
            Pattern::Where => "WHERE",
            Pattern::SomeMatch => "SOME",
            Pattern::Every => "EVERY",
            Pattern::Dots => "DOTS",
            Pattern::Like => "LIKE",
            Pattern::Sequential => "SEQUENTIAL",
        }
    }

    /// Whether this kind is predicate-only: meaningful to the matcher,
    /// never a producer of runtime values.
    pub open spec fn is_predicate_kind(&self) -> bool {
        match self {
            Pattern::AstNode | Pattern::Call | Pattern::Regex | Pattern::Files | Pattern::Bubble
                | Pattern::Limit | Pattern::Assignment | Pattern::Accumulate | Pattern::And
                | Pattern::Or | Pattern::Maybe | Pattern::Any | Pattern::Not | Pattern::If
                | Pattern::Undefined | Pattern::Top | Pattern::Bottom | Pattern::Underscore
                | Pattern::AstLeafNode | Pattern::Rewrite | Pattern::Log | Pattern::Range
                | Pattern::Contains | Pattern::Includes | Pattern::Within | Pattern::Where
                | Pattern::SomeMatch | Pattern::Every | Pattern::Dots | Pattern::Like
                | Pattern::Sequential => true,
            _ => false,
        }
    }
}

/// Whether a pattern is static: its value (or failure) is a function of
/// the pattern alone, independent of variable state and context. Constants
/// are static; lists, maps and files of static patterns are static; the
/// predicate-only kinds and foreign calls fail statically; snippet-only
/// templates without variable splices are static.
pub open spec fn is_static(p: Pattern) -> bool
    decreases p,
{
    match p {
        Pattern::StringConstant(_) | Pattern::IntConstant(_) | Pattern::FloatConstant(_)
            | Pattern::BooleanConstant(_) | Pattern::CallForeignFunction(_) => true,
        Pattern::List(l) => is_static_seq(l.patterns@),
        Pattern::StrMap(m) => is_static_entries(m.elements@),
        Pattern::File(fp) => is_static(fp.name) && is_static(fp.body),
        Pattern::Dynamic(dp) => is_static_dynamic(dp),
        Pattern::CodeSnippet(cs) => match cs.dynamic_snippet {
            Option::Some(dp) => is_static_dynamic(dp),
            Option::None => true,
        },
        _ => p.is_predicate_kind(),
    }
}

/// Whether every pattern in the sequence is static.
pub open spec fn is_static_seq(ps: Seq<Pattern>) -> bool
    decreases ps,
{
    if ps.len() == 0 {
        true
    } else {
        is_static(ps.first()) && is_static_seq(ps.drop_first())
    }
}

/// Whether every value pattern of the entries is static.
pub open spec fn is_static_entries(es: Seq<(String, Pattern)>) -> bool
    decreases es,
{
    if es.len() == 0 {
        true
    } else {
        is_static(es.first().1) && is_static_entries(es.drop_first())
    }
}

/// Whether a dynamic pattern is static: only templates without variable
/// splices, lists of such, and foreign calls (which fail statically).
pub open spec fn is_static_dynamic(dp: DynamicPattern) -> bool
    decreases dp,
{
    match dp {
        DynamicPattern::Snippet(sn) => is_static_snippet(sn.parts@),
        DynamicPattern::List(dl) => is_static_dynamics(dl.elements@),
        DynamicPattern::CallForeignFunction(_) => true,
        _ => false,
    }
}

/// Whether every element is a static dynamic pattern.
pub open spec fn is_static_dynamics(ds: Seq<DynamicPattern>) -> bool
    decreases ds,
{
    if ds.len() == 0 {
        true
    } else {
        is_static_dynamic(ds.first()) && is_static_dynamics(ds.drop_first())
    }
}

/// Whether every template part is literal text.
pub open spec fn is_static_snippet(parts: Seq<DynamicSnippetPart>) -> bool
    decreases parts,
{
    if parts.len() == 0 {
        true
    } else {
        (parts.first() matches DynamicSnippetPart::String(_)) && is_static_snippet(
            parts.drop_first(),
        )
    }
}

/// The value of a static pattern: a function of the pattern and the file
/// registry alone, independent of variable state and context. Only claimed
/// where `is_static` holds.
pub open spec fn static_eval(p: Pattern, files: Seq<Seq<StoredFileV>>) -> Result<
    ValueV,
    EvalErrorV,
>
    decreases p, 2int,
{
    match p {
        Pattern::StringConstant(s) => Ok(ValueV::Snippets(seq![SnippetV::Text(s.text@)])),
        Pattern::IntConstant(i) => Ok(ValueV::Constant(ConstantV::Integer(i.value))),
        Pattern::FloatConstant(d) => Ok(ValueV::Constant(ConstantV::Float(d.value.deep_view()))),
        Pattern::BooleanConstant(b) => Ok(ValueV::Constant(ConstantV::Boolean(b.value))),
        Pattern::List(l) => match static_eval_seq(l.patterns@, files, Seq::empty()) {
            Ok(vs) => Ok(ValueV::List(vs)),
            Err(e) => Err(e),
        },
        Pattern::StrMap(m) => match static_eval_entries(m.elements@, files, Seq::empty()) {
            Ok(es) => Ok(ValueV::StrMap(es)),
            Err(e) => Err(e),
        },
        Pattern::File(fp) => match static_eval(fp.name, files) {
            Err(e) => Err(e),
            Ok(nv) => match text_of(nv, files) {
                Err(e) => Err(e),
                Ok(nt) => match static_eval(fp.body, files) {
                    Err(e) => Err(e),
                    Ok(bv) => Ok(
                        ValueV::File(
                            crate::resolved_pattern::FileV::Resolved(
                                Box::new(
                                    crate::resolved_pattern::ResolvedFileV {
                                        name: ValueV::Constant(ConstantV::String(nt)),
                                        body: bv,
                                    },
                                ),
                            ),
                        ),
                    ),
                },
            },
        },
        Pattern::Dynamic(dp) => static_eval_dynamic(dp),
        Pattern::CodeSnippet(cs) => match cs.dynamic_snippet {
            Option::Some(dp) => static_eval_dynamic(dp),
            Option::None => Err(EvalErrorV::UnsupportedPatternKind(spec_kind_name(p))),
        },
        Pattern::CallForeignFunction(_) => Err(
            EvalErrorV::UnsupportedPatternKind(spec_kind_name(p)),
        ),
        _ => Err(EvalErrorV::UnsupportedPatternKind(spec_kind_name(p))),
    }
}

/// The values of a sequence of static patterns appended to `acc`, failing
/// on the leftmost failure.
pub open spec fn static_eval_seq(
    ps: Seq<Pattern>,
    files: Seq<Seq<StoredFileV>>,
    acc: Seq<ValueV>,
) -> Result<Seq<ValueV>, EvalErrorV>
    decreases ps, 3int,
{
    if ps.len() == 0 {
        Ok(acc)
    } else {
        match static_eval(ps.first(), files) {
            Err(e) => Err(e),
            Ok(v) => static_eval_seq(ps.drop_first(), files, acc.push(v)),
        }
    }
}

/// The sorted map entries a static map literal evaluates to, inserting in
/// declared order into `acc`, failing on the leftmost failure.
pub open spec fn static_eval_entries(
    es: Seq<(String, Pattern)>,
    files: Seq<Seq<StoredFileV>>,
    acc: Seq<(Seq<char>, ValueV)>,
) -> Result<Seq<(Seq<char>, ValueV)>, EvalErrorV>
    decreases es, 3int,
{
    if es.len() == 0 {
        Ok(acc)
    } else {
        match static_eval(es.first().1, files) {
            Err(e) => Err(e),
            Ok(v) => static_eval_entries(
                es.drop_first(),
                files,
                spec_entry_insert(acc, es.first().0@, v),
            ),
        }
    }
}

/// The value of a static dynamic pattern.
pub open spec fn static_eval_dynamic(dp: DynamicPattern) -> Result<ValueV, EvalErrorV>
    decreases dp, 2int,
{
    match dp {
        DynamicPattern::Snippet(sn) => Ok(
            ValueV::Snippets(static_snippet_parts(sn.parts@, Seq::empty())),
        ),
        DynamicPattern::List(dl) => match static_eval_dynamics(dl.elements@, Seq::empty()) {
            Ok(vs) => Ok(ValueV::List(vs)),
            Err(e) => Err(e),
        },
        DynamicPattern::CallForeignFunction(_) => Err(
            EvalErrorV::UnsupportedPatternKind("CALL_FOREIGN_FUNCTION"@),
        ),
        _ => Err(EvalErrorV::UnsupportedPatternKind("DYNAMIC_PATTERN"@)),
    }
}

/// The values of a sequence of static dynamic patterns appended to `acc`.
pub open spec fn static_eval_dynamics(ds: Seq<DynamicPattern>, acc: Seq<ValueV>) -> Result<
    Seq<ValueV>,
    EvalErrorV,
>
    decreases ds, 3int,
{
    if ds.len() == 0 {
        Ok(acc)
    } else {
        match static_eval_dynamic(ds.first()) {
            Err(e) => Err(e),
            Ok(v) => static_eval_dynamics(ds.drop_first(), acc.push(v)),
        }
    }
}

/// The fragments of a template whose parts are all literal text, appended
/// to `acc`.
pub open spec fn static_snippet_parts(parts: Seq<DynamicSnippetPart>, acc: Seq<SnippetV>) -> Seq<
    SnippetV,
>
    decreases parts,
{
    if parts.len() == 0 {
        acc
    } else {
        static_snippet_parts(
            parts.drop_first(),
            match parts.first() {
                DynamicSnippetPart::String(t) => acc.push(SnippetV::Text(t@)),
                DynamicSnippetPart::Variable(_) => acc,
            },
        )
    }
}

} // verus!
