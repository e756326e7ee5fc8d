//! Rules for frontmatter, and what breaks them.
use vstd::prelude::*;

use crate::order;
use crate::order::Place;
use crate::parser::{Frontmatter, FrontmatterModel};
use crate::text;

verus! {

// ---------------------------------------------------------------------------
// Regular expressions
// ---------------------------------------------------------------------------
/// `regex::Regex`, opaque here.
#[verifier::external_type_specification]
#[verifier::external_body]
pub struct ExRegex(regex::Regex);

/// What `regex::Regex::new` makes of a pattern: success, or the text of its error.
pub uninterp spec fn regex_new(pattern: Seq<char>) -> Result<(), Seq<char>>;

/// What `regex::Regex::is_match` says of a text, for the regular expression that
/// `regex::Regex::new` makes of a pattern.
pub uninterp spec fn regex_is_match(pattern: Seq<char>, text: Seq<char>) -> bool;

/// A compiled pattern, together with its source. The fields are private and only
/// [`compile_pattern`] fills them, so the two always belong together.
#[derive(Debug)]
pub struct Pattern {
    source: String,
    compiled: regex::Regex,
}

impl View for Pattern {
    type V = Seq<char>;

    closed spec fn view(&self) -> Seq<char> {
        self.source@
    }
}

/// `regex::Regex::new`: compiles a pattern. Whether it compiles, and the text of the error if
/// it does not, depend on the pattern alone. What patterns are valid is not restated here.
#[verifier::external_body]
fn compile_pattern(pattern: &str) -> (r: Result<Pattern, String>)
    ensures
        match r {
            Ok(p) => regex_new(pattern@) == Ok::<(), Seq<char>>(()) && p@ == pattern@,
            Err(e) => regex_new(pattern@) == Err::<(), Seq<char>>(e@),
        },
{
    match regex::Regex::new(pattern) {
        Ok(compiled) => Ok(Pattern { source: pattern.to_owned(), compiled }),
        Err(e) => Err(e.to_string()),
    }
}

/// `regex::Regex::is_match`: whether the pattern matches somewhere in `text`. The result
/// depends on the pattern and the text alone. Which texts match is not restated here.
#[verifier::external_body]
fn pattern_matches(p: &Pattern, text: &str) -> (r: bool)
    ensures
        r == regex_is_match(p@, text@),
{
    p.compiled.is_match(text)
}

impl Pattern {
    /// The pattern as it was written.
    pub fn as_str(&self) -> (r: &str)
        ensures
            r@ == self@,
    {
        self.source.as_str()
    }
}

// ---------------------------------------------------------------------------
// Rules
// ---------------------------------------------------------------------------
/// What kind of value a field holds.
#[derive(Debug, Clone, Copy, PartialEq, Eq, Structural)]
pub enum FieldType {
    String,
    Integer,
    Date,
    Array,
}

impl FieldType {
    /// The kind's name in a schema file.
    pub open spec fn name(self) -> Seq<char> {
        match self {
            FieldType::String => "string"@,
            FieldType::Integer => "integer"@,
            FieldType::Date => "date"@,
            FieldType::Array => "array"@,
        }
    }

    /// The kind's name in a schema file.
    pub fn as_str(self) -> (r: &'static str)
        ensures
            r@ == self.name(),
    {
        match self {
            FieldType::String => "string",
            FieldType::Integer => "integer",
            FieldType::Date => "date",
            FieldType::Array => "array",
        }
    }
}

/// The fields that a schema may speak of.
pub open spec fn known_field(name: Seq<char>) -> bool {
    name == "title"@ || name == "date"@ || name == "topic"@ || name == "depth"@ || name == "tags"@
}

/// Whether a schema may speak of the field.
pub fn is_known_field(name: &str) -> (r: bool)
    ensures
        r == known_field(name@),
{
    *name == *"title" || *name == *"date" || *name == *"topic" || *name == *"depth" || *name
        == *"tags"
}

/// The rule for one field, as a schema file writes it.
#[derive(Debug, Clone)]
pub struct FieldRule {
    /// Whether a document without the field breaks the rule.
    pub required: bool,
    pub field_type: Option<FieldType>,
    /// A regular expression for a string.
    pub pattern: Option<String>,
    /// The values allowed for a string, or for each element of an array.
    pub enum_values: Option<Vec<String>>,
    /// The least number of characters of a string, or of elements of an array.
    pub min_length: Option<usize>,
    /// The greatest number of characters of a string, or of elements of an array.
    pub max_length: Option<usize>,
    /// Whether an empty value will do for a required field.
    pub allow_empty: bool,
}

/// What a rule says.
pub struct RuleModel {
    pub required: bool,
    pub field_type: Option<FieldType>,
    pub pattern: Option<Seq<char>>,
    pub enum_values: Option<Seq<Seq<char>>>,
    pub min_length: Option<usize>,
    pub max_length: Option<usize>,
    pub allow_empty: bool,
}

/// The texts of an optional list.
pub open spec fn opt_views(o: Option<Vec<String>>) -> Option<Seq<Seq<char>>> {
    match o {
        Some(v) => Some(text::views(v@)),
        None => None,
    }
}

impl View for FieldRule {
    type V = RuleModel;

    open spec fn view(&self) -> RuleModel {
        RuleModel {
            required: self.required,
            field_type: self.field_type,
            pattern: text::opt_view(self.pattern),
            enum_values: opt_views(self.enum_values),
            min_length: self.min_length,
            max_length: self.max_length,
            allow_empty: self.allow_empty,
        }
    }
}

impl Default for FieldRule {
    fn default() -> (r: Self)
        ensures
            r@ == (RuleModel {
                required: false,
                field_type: None,
                pattern: None,
                enum_values: None,
                min_length: None,
                max_length: None,
                allow_empty: false,
            }),
    {
        FieldRule {
            required: false,
            field_type: None,
            pattern: None,
            enum_values: None,
            min_length: None,
            max_length: None,
            allow_empty: false,
        }
    }
}

/// A rule whose pattern has been compiled.
#[derive(Debug)]
pub struct CompiledRule {
    pub required: bool,
    pub field_type: Option<FieldType>,
    pub pattern: Option<Pattern>,
    pub enum_values: Option<Vec<String>>,
    pub min_length: Option<usize>,
    pub max_length: Option<usize>,
    pub allow_empty: bool,
}

impl View for CompiledRule {
    type V = RuleModel;

    open spec fn view(&self) -> RuleModel {
        RuleModel {
            required: self.required,
            field_type: self.field_type,
            pattern: match self.pattern {
                Some(p) => Some(p@),
                None => None,
            },
            enum_values: opt_views(self.enum_values),
            min_length: self.min_length,
            max_length: self.max_length,
            allow_empty: self.allow_empty,
        }
    }
}

/// The names and rules of a list of pairs.
pub open spec fn raw_entries(v: Seq<(String, FieldRule)>) -> Seq<(Seq<char>, RuleModel)> {
    Seq::new(v.len(), |i: int| (v[i].0@, v[i].1@))
}

/// The names and rules of a list of pairs.
pub open spec fn compiled_entries(v: Seq<(String, CompiledRule)>) -> Seq<(Seq<char>, RuleModel)> {
    Seq::new(v.len(), |i: int| (v[i].0@, v[i].1@))
}

/// The names of a list of rules.
pub open spec fn names(entries: Seq<(Seq<char>, RuleModel)>) -> Seq<Seq<char>> {
    Seq::new(entries.len(), |i: int| entries[i].0)
}

/// Whether `after` is `fields` with `rule` for the field `name`, at place `k`: in place of the
/// field's rule if it stands there, else put in before what stands there. Fields before the
/// place come before `name`, those behind it come after.
pub open spec fn inserted_at(
    fields: Seq<(Seq<char>, RuleModel)>,
    after: Seq<(Seq<char>, RuleModel)>,
    name: Seq<char>,
    rule: RuleModel,
    k: int,
) -> bool {
    &&& 0 <= k <= fields.len()
    &&& forall|i: int| 0 <= i < k ==> order::before((#[trigger] fields[i]).0, name)
    &&& forall|i: int| k < i < fields.len() ==> order::before(name, (#[trigger] fields[i]).0)
    &&& if k < fields.len() && fields[k].0 == name {
        after == fields.update(k, (name, rule))
    } else {
        &&& k < fields.len() ==> order::before(name, fields[k].0)
        &&& after == fields.insert(k, (name, rule))
    }
}

/// A schema file: rules by field, in the order of the fields' names.
#[derive(Debug, Clone)]
pub struct RawSchema {
    pub fields: Vec<(String, FieldRule)>,
}

impl RawSchema {
    /// Whether the fields stand in order, each once.
    pub open spec fn wf(self) -> bool {
        order::sorted(names(raw_entries(self.fields@)))
    }

    /// Gives the field `name` the rule `rule`, in place of one it may have had.
    pub fn insert(&mut self, name: &str, rule: FieldRule)
        requires
            old(self).wf(),
        ensures
            final(self).wf(),
            exists|k: int|
                inserted_at(
                    raw_entries(old(self).fields@),
                    raw_entries(final(self).fields@),
                    name@,
                    rule@,
                    k,
                ),
    {
        let ghost fields = raw_entries(self.fields@);
        let ghost keys = names(fields);
        let mut k: usize = 0;
        while k < self.fields.len()
            invariant
                *self == *old(self),
                fields == raw_entries(self.fields@),
                keys == names(fields),
                order::sorted(keys),
                k <= self.fields@.len(),
                forall|i: int| 0 <= i < k ==> order::before((#[trigger] fields[i]).0, name@),
            decreases self.fields@.len() - k,
        {
            let place = order::compare(self.fields[k].0.as_str(), name);
            assert(fields[k as int].0 == self.fields@[k as int].0@);
            match place {
                Place::Before => {},
                Place::Same => {
                    assert forall|i: int| k < i < fields.len() implies order::before(
                        name@,
                        (#[trigger] fields[i]).0,
                    ) by {
                        assert(order::before(keys[k as int], keys[i]));
                    }
                    let entry = (text::copy(name), rule);
                    self.fields.set(k, entry);
                    let ghost after = raw_entries(self.fields@);
                    assert(after =~= fields.update(k as int, (name@, rule@)));
                    assert(names(after) =~= keys);
                    assert(inserted_at(fields, after, name@, rule@, k as int));
                    return ;
                },
                Place::After => {
                    assert forall|i: int| k < i < fields.len() implies order::before(
                        name@,
                        (#[trigger] fields[i]).0,
                    ) by {
                        assert(order::before(keys[k as int], keys[i]));
                        order::before_is_transitive(name@, keys[k as int], keys[i]);
                    }
                    proof {
                        if fields[k as int].0 == name@ {
                            order::before_is_irreflexive(name@);
                        }
                    }
                    let entry = (text::copy(name), rule);
                    self.fields.insert(k, entry);
                    let ghost after = raw_entries(self.fields@);
                    assert(after =~= fields.insert(k as int, (name@, rule@)));
                    assert(names(after) =~= keys.insert(k as int, name@));
                    proof {
                        insert_keeps_sorted(keys, k as int, name@);
                    }
                    assert(inserted_at(fields, after, name@, rule@, k as int));
                    return ;
                },
            }
            k += 1;
        }
        let entry = (text::copy(name), rule);
        self.fields.push(entry);
        let ghost after = raw_entries(self.fields@);
        assert(after =~= fields.insert(k as int, (name@, rule@)));
        assert(names(after) =~= keys.insert(k as int, name@));
        proof {
            insert_keeps_sorted(keys, k as int, name@);
        }
        assert(inserted_at(fields, after, name@, rule@, k as int));
    }
}

proof fn insert_keeps_sorted(keys: Seq<Seq<char>>, k: int, name: Seq<char>)
    requires
        order::sorted(keys),
        0 <= k <= keys.len(),
        forall|i: int| 0 <= i < k ==> order::before(#[trigger] keys[i], name),
        forall|i: int| k <= i < keys.len() ==> order::before(name, #[trigger] keys[i]),
    ensures
        order::sorted(keys.insert(k, name)),
{
    let after = keys.insert(k, name);
    assert forall|i: int, j: int| 0 <= i < j < after.len() implies order::before(
        #[trigger] after[i],
        #[trigger] after[j],
    ) by {
        let a = if i < k {
            i
        } else {
            i - 1
        };
        let b = if j < k {
            j
        } else {
            j - 1
        };
        if i != k {
            assert(after[i] == keys[a]);
        }
        if j != k {
            assert(after[j] == keys[b]);
        }
    }
}

impl Default for RawSchema {
    fn default() -> (r: Self)
        ensures
            r.fields@.len() == 0,
            r.wf(),
    {
        RawSchema { fields: Vec::new() }
    }
}

/// A schema ready for use: compiled rules by field, in the order of the fields' names.
#[derive(Debug)]
pub struct Schema {
    pub fields: Vec<(String, CompiledRule)>,
}

impl View for Schema {
    type V = Seq<(Seq<char>, RuleModel)>;

    open spec fn view(&self) -> Seq<(Seq<char>, RuleModel)> {
        compiled_entries(self.fields@)
    }
}

/// What is wrong with a schema file.
#[derive(Debug, Clone)]
pub enum SchemaError {
    /// Documents have no such field.
    UnsupportedField { field: String },
    /// A pattern for an array.
    PatternOnArray { field: String },
    /// A kind of value that rules cannot be written for.
    TypeNotImplemented { field: String, field_type: FieldType },
    /// A pattern that is no regular expression.
    InvalidRegex { field: String, reason: String },
}

/// What a [`SchemaError`] says.
pub enum SchemaErrorModel {
    UnsupportedField { field: Seq<char> },
    PatternOnArray { field: Seq<char> },
    TypeNotImplemented { field: Seq<char>, field_type: FieldType },
    InvalidRegex { field: Seq<char>, reason: Seq<char> },
}

impl View for SchemaError {
    type V = SchemaErrorModel;

    open spec fn view(&self) -> SchemaErrorModel {
        match self {
            SchemaError::UnsupportedField { field } => SchemaErrorModel::UnsupportedField {
                field: field@,
            },
            SchemaError::PatternOnArray { field } => SchemaErrorModel::PatternOnArray {
                field: field@,
            },
            SchemaError::TypeNotImplemented { field, field_type } =>
            SchemaErrorModel::TypeNotImplemented { field: field@, field_type: *field_type },
            SchemaError::InvalidRegex { field, reason } => SchemaErrorModel::InvalidRegex {
                field: field@,
                reason: reason@,
            },
        }
    }
}

impl SchemaError {
    /// The error in words.
    pub open spec fn message_spec(e: SchemaErrorModel) -> Seq<char> {
        match e {
            SchemaErrorModel::UnsupportedField { field } => "unsupported field "@
                + text::quoted_spec(field)
                + " in schema. Known fields: [\"title\", \"date\", \"topic\", \"depth\", \"tags\"]"@,
            SchemaErrorModel::PatternOnArray { field } => "field "@ + text::quoted_spec(field)
                + ": `pattern` is only valid for string-typed fields"@,
            SchemaErrorModel::TypeNotImplemented { field, field_type } => "field "@
                + text::quoted_spec(field) + ": type = "@ + text::quoted_spec(field_type.name())
                + " is not implemented in MVP. Use `type = \"string\"` with `pattern = '...'` for now (e.g. ISO date: `pattern = '^\\d{4}-\\d{2}-\\d{2}$'`)."@,
            SchemaErrorModel::InvalidRegex { field, reason } => "invalid regex for field "@
                + text::quoted_spec(field),
        }
    }

    /// The error in words.
    pub fn message(&self) -> (r: String)
        ensures
            r@ == SchemaError::message_spec(self@),
    {
        match self {
            SchemaError::UnsupportedField { field } => {
                let mut r = text::copy("unsupported field ");
                r.append(text::quoted(field.as_str()).as_str());
                r.append(
                    " in schema. Known fields: [\"title\", \"date\", \"topic\", \"depth\", \"tags\"]",
                );
                r
            },
            SchemaError::PatternOnArray { field } => {
                let mut r = text::copy("field ");
                r.append(text::quoted(field.as_str()).as_str());
                r.append(": `pattern` is only valid for string-typed fields");
                r
            },
            SchemaError::TypeNotImplemented { field, field_type } => {
                let mut r = text::copy("field ");
                r.append(text::quoted(field.as_str()).as_str());
                r.append(": type = ");
                r.append(text::quoted(field_type.as_str()).as_str());
                r.append(
                    " is not implemented in MVP. Use `type = \"string\"` with `pattern = '...'` for now (e.g. ISO date: `pattern = '^\\d{4}-\\d{2}-\\d{2}$'`).",
                );
                r
            },
            SchemaError::InvalidRegex { field, reason } => {
                let mut r = text::copy("invalid regex for field ");
                r.append(text::quoted(field.as_str()).as_str());
                r
            },
        }
    }
}

/// What is wrong with the rule of one field, if anything. Of several faults the first of
/// these counts: an unknown field, a pattern for an array, a kind without rules, a pattern that
/// does not compile. `compiled` says whether the pattern compiles, where there is one.
pub open spec fn rule_error_given(
    name: Seq<char>,
    rule: RuleModel,
    compiled: Option<Result<(), Seq<char>>>,
) -> Option<SchemaErrorModel> {
    if !known_field(name) {
        Some(SchemaErrorModel::UnsupportedField { field: name })
    } else if rule.field_type == Some(FieldType::Array) && rule.pattern is Some {
        Some(SchemaErrorModel::PatternOnArray { field: name })
    } else if rule.field_type == Some(FieldType::Integer) || rule.field_type == Some(
        FieldType::Date,
    ) {
        Some(
            SchemaErrorModel::TypeNotImplemented { field: name, field_type: rule.field_type->0 },
        )
    } else {
        match compiled {
            Some(Err(reason)) => Some(SchemaErrorModel::InvalidRegex { field: name, reason }),
            _ => None,
        }
    }
}

/// What is wrong with the rule of one field, if anything.
pub open spec fn rule_error(name: Seq<char>, rule: RuleModel) -> Option<SchemaErrorModel> {
    rule_error_given(
        name,
        rule,
        match rule.pattern {
            Some(p) => Some(regex_new(p)),
            None => None,
        },
    )
}

/// What compiling a rule's pattern came to.
pub open spec fn compiled_view(compiled: Option<Result<Pattern, String>>) -> Option<
    Result<(), Seq<char>>,
> {
    match compiled {
        Some(Ok(_)) => Some(Ok(())),
        Some(Err(e)) => Some(Err(e@)),
        None => None,
    }
}

/// The rule of one field with its pattern compiled, if nothing is wrong with it. `compiled` is
/// what compiling its pattern came to.
pub fn settle_rule(
    name: &str,
    rule: FieldRule,
    compiled: Option<Result<Pattern, String>>,
) -> (r: Result<CompiledRule, SchemaError>)
    requires
        rule.pattern is Some == compiled is Some,
        compiled matches Some(Ok(p)) ==> p@ == rule.pattern->0@,
    ensures
        match r {
            Ok(c) => rule_error_given(name@, rule@, compiled_view(compiled)) is None && c@
                == rule@,
            Err(e) => rule_error_given(name@, rule@, compiled_view(compiled)) == Some(e@),
        },
{
    if !is_known_field(name) {
        return Err(SchemaError::UnsupportedField { field: text::copy(name) });
    }
    if let Some(ft) = rule.field_type {
        if ft == FieldType::Array && rule.pattern.is_some() {
            return Err(SchemaError::PatternOnArray { field: text::copy(name) });
        }
        if ft == FieldType::Integer || ft == FieldType::Date {
            return Err(
                SchemaError::TypeNotImplemented { field: text::copy(name), field_type: ft },
            );
        }
    }
    let pattern = match compiled {
        Some(Ok(p)) => Some(p),
        Some(Err(reason)) => {
            return Err(SchemaError::InvalidRegex { field: text::copy(name), reason });
        },
        None => None,
    };
    Ok(
        CompiledRule {
            required: rule.required,
            field_type: rule.field_type,
            pattern,
            enum_values: rule.enum_values,
            min_length: rule.min_length,
            max_length: rule.max_length,
            allow_empty: rule.allow_empty,
        },
    )
}

/// Compiles the rule of one field.
fn compile_rule(name: &str, rule: FieldRule) -> (r: Result<CompiledRule, SchemaError>)
    ensures
        match r {
            Ok(c) => rule_error(name@, rule@) is None && c@ == rule@,
            Err(e) => rule_error(name@, rule@) == Some(e@),
        },
{
    let compiled = match &rule.pattern {
        Some(p) => Some(compile_pattern(p.as_str())),
        None => None,
    };
    settle_rule(name, rule, compiled)
}

impl Schema {
    /// Compiles a schema file. It fails at the first field, in order, whose rule is at fault.
    pub fn compile(raw: RawSchema) -> (r: Result<Schema, SchemaError>)
        ensures
            match r {
                Ok(s) => {
                    &&& s@ == raw_entries(raw.fields@)
                    &&& forall|i: int|
                        0 <= i < raw.fields@.len() ==> rule_error(
                            (#[trigger] raw.fields@[i]).0@,
                            raw.fields@[i].1@,
                        ) is None
                },
                Err(e) => exists|k: int|
                    {
                        &&& 0 <= k < raw.fields@.len()
                        &&& rule_error((#[trigger] raw.fields@[k]).0@, raw.fields@[k].1@) == Some(
                            e@,
                        )
                        &&& forall|i: int|
                            0 <= i < k ==> rule_error(
                                (#[trigger] raw.fields@[i]).0@,
                                raw.fields@[i].1@,
                            ) is None
                    },
            },
    {
        let mut out: Vec<(String, CompiledRule)> = Vec::new();
        let ghost all = raw.fields@;
        let ghost entries = raw_entries(all);
        for entry in it: raw.fields
            invariant
                it.seq() == all,
                entries == raw_entries(all),
                compiled_entries(out@) == entries.take(it.index() as int),
                forall|i: int|
                    0 <= i < it.index() ==> rule_error(
                        (#[trigger] all[i]).0@,
                        all[i].1@,
                    ) is None,
        {
            let (name, rule) = entry;
            assert(entry == all[it.index() as int]);
            let compiled = match compile_rule(name.as_str(), rule) {
                Ok(c) => c,
                Err(e) => {
                    assert(rule_error(all[it.index() as int].0@, all[it.index() as int].1@) == Some(e@));
                    return Err(e);
                },
            };
            let ghost before = compiled_entries(out@);
            out.push((name, compiled));
            assert(compiled_entries(out@) =~= before.push((name@, compiled@)));
            assert(compiled_entries(out@) =~= entries.take(it.index() + 1));
        }
        assert(entries.take(all.len() as int) =~= entries);
        Ok(Schema { fields: out })
    }
}

// ---------------------------------------------------------------------------
// Violations
// ---------------------------------------------------------------------------
/// One way in which a document breaks a rule.
#[allow(inconsistent_fields)]
#[derive(Debug, Clone, PartialEq)]
pub enum Violation {
    MissingRequired { field: String },
    TypeMismatch { field: String, expected: String, actual: String },
    PatternMismatch { field: String, pattern: String, actual: String },
    NotInEnum { field: String, actual: String, allowed: Vec<String> },
    LengthOutOfRange { field: String, actual: usize, min: Option<usize>, max: Option<usize> },
}

/// What a [`Violation`] says.
#[allow(inconsistent_fields)]
pub enum ViolationModel {
    MissingRequired { field: Seq<char> },
    TypeMismatch { field: Seq<char>, expected: Seq<char>, actual: Seq<char> },
    PatternMismatch { field: Seq<char>, pattern: Seq<char>, actual: Seq<char> },
    NotInEnum { field: Seq<char>, actual: Seq<char>, allowed: Seq<Seq<char>> },
    LengthOutOfRange { field: Seq<char>, actual: nat, min: Option<usize>, max: Option<usize> },
}

impl View for Violation {
    type V = ViolationModel;

    open spec fn view(&self) -> ViolationModel {
        match self {
            Violation::MissingRequired { field } => ViolationModel::MissingRequired {
                field: field@,
            },
            Violation::TypeMismatch { field, expected, actual } => ViolationModel::TypeMismatch {
                field: field@,
                expected: expected@,
                actual: actual@,
            },
            Violation::PatternMismatch { field, pattern, actual } =>
            ViolationModel::PatternMismatch {
                field: field@,
                pattern: pattern@,
                actual: actual@,
            },
            Violation::NotInEnum { field, actual, allowed } => ViolationModel::NotInEnum {
                field: field@,
                actual: actual@,
                allowed: text::views(allowed@),
            },
            Violation::LengthOutOfRange { field, actual, min, max } =>
            ViolationModel::LengthOutOfRange {
                field: field@,
                actual: *actual as nat,
                min: *min,
                max: *max,
            },
        }
    }
}

/// The models of a list of violations.
pub open spec fn violation_models(v: Seq<Violation>) -> Seq<ViolationModel> {
    Seq::new(v.len(), |i: int| v[i]@)
}

/// The bounds on a length, in words.
pub open spec fn range_spec(min: Option<usize>, max: Option<usize>) -> Seq<char> {
    match (min, max) {
        (Some(lo), Some(hi)) => text::decimal_spec(lo as nat) + "..="@ + text::decimal_spec(
            hi as nat,
        ),
        (Some(lo), None) => ">= "@ + text::decimal_spec(lo as nat),
        (None, Some(hi)) => "<= "@ + text::decimal_spec(hi as nat),
        (None, None) => "unknown"@,
    }
}

impl ViolationModel {
    /// The field whose rule is broken.
    pub open spec fn field(self) -> Seq<char> {
        match self {
            ViolationModel::MissingRequired { field } => field,
            ViolationModel::TypeMismatch { field, .. } => field,
            ViolationModel::PatternMismatch { field, .. } => field,
            ViolationModel::NotInEnum { field, .. } => field,
            ViolationModel::LengthOutOfRange { field, .. } => field,
        }
    }

    /// The violation in words, with the names and values as they are.
    pub open spec fn words(self) -> Seq<char> {
        match self {
            ViolationModel::MissingRequired { field } => field
                + " is required but missing (or empty)"@,
            ViolationModel::TypeMismatch { field, expected, actual } => field + " expected "@
                + expected + " but got "@ + actual,
            ViolationModel::PatternMismatch { field, pattern, actual } => field + " "@
                + text::quoted_spec(actual) + " does not match pattern "@ + pattern,
            ViolationModel::NotInEnum { field, actual, allowed } => field + " "@
                + text::quoted_spec(actual) + " is not in enum ["@ + text::join_spec(
                allowed,
                ", "@,
            ) + "]"@,
            ViolationModel::LengthOutOfRange { field, actual, min, max } => field + " length "@
                + text::decimal_spec(actual) + " is out of range "@ + range_spec(min, max),
        }
    }

    /// The violation in one line of words.
    pub open spec fn message(self) -> Seq<char> {
        text::one_line_spec(self.words())
    }
}

/// The bounds on a length, in words.
fn range_text(min: &Option<usize>, max: &Option<usize>) -> (r: String)
    ensures
        r@ == range_spec(*min, *max),
{
    match (min, max) {
        (Some(lo), Some(hi)) => {
            let mut r = text::decimal(*lo as u64);
            r.append("..=");
            r.append(text::decimal(*hi as u64).as_str());
            r
        },
        (Some(lo), None) => {
            let mut r = text::copy(">= ");
            r.append(text::decimal(*lo as u64).as_str());
            r
        },
        (None, Some(hi)) => {
            let mut r = text::copy("<= ");
            r.append(text::decimal(*hi as u64).as_str());
            r
        },
        (None, None) => text::copy("unknown"),
    }
}

impl Violation {
    /// The field whose rule is broken.
    pub fn field(&self) -> (r: &str)
        ensures
            r@ == self@.field(),
    {
        match self {
            Violation::MissingRequired { field } => field.as_str(),
            Violation::TypeMismatch { field, .. } => field.as_str(),
            Violation::PatternMismatch { field, .. } => field.as_str(),
            Violation::NotInEnum { field, .. } => field.as_str(),
            Violation::LengthOutOfRange { field, .. } => field.as_str(),
        }
    }

    /// The violation in one line of words. A line break in a name or a value is written as its
    /// escape.
    pub fn message(&self) -> (r: String)
        ensures
            r@ == self@.message(),
            !r@.contains('\n'),
            !r@.contains('\r'),
    {
        text::one_line(self.words().as_str())
    }

    /// The violation in words, with the names and values as they are.
    pub fn words(&self) -> (r: String)
        ensures
            r@ == self@.words(),
    {
        match self {
            Violation::MissingRequired { field } => {
                let mut r = field.clone();
                r.append(" is required but missing (or empty)");
                r
            },
            Violation::TypeMismatch { field, expected, actual } => {
                let mut r = field.clone();
                r.append(" expected ");
                r.append(expected.as_str());
                r.append(" but got ");
                r.append(actual.as_str());
                r
            },
            Violation::PatternMismatch { field, pattern, actual } => {
                let mut r = field.clone();
                r.append(" ");
                r.append(text::quoted(actual.as_str()).as_str());
                r.append(" does not match pattern ");
                r.append(pattern.as_str());
                r
            },
            Violation::NotInEnum { field, actual, allowed } => {
                let mut r = field.clone();
                r.append(" ");
                r.append(text::quoted(actual.as_str()).as_str());
                r.append(" is not in enum [");
                r.append(text::join(allowed, ", ").as_str());
                r.append("]");
                r
            },
            Violation::LengthOutOfRange { field, actual, min, max } => {
                let mut r = field.clone();
                r.append(" length ");
                r.append(text::decimal(*actual as u64).as_str());
                r.append(" is out of range ");
                r.append(range_text(min, max).as_str());
                r
            },
        }
    }
}

// ---------------------------------------------------------------------------
// Validation
// ---------------------------------------------------------------------------
/// The violations of a rule's bounds by a value of length `len`.
pub open spec fn length_violations(name: Seq<char>, rule: RuleModel, len: nat) -> Seq<
    ViolationModel,
> {
    let wrong = ViolationModel::LengthOutOfRange {
        field: name,
        actual: len,
        min: rule.min_length,
        max: rule.max_length,
    };
    let short = rule.min_length is Some && len < rule.min_length->0;
    let long = rule.max_length is Some && len > rule.max_length->0;
    (if short {
        seq![wrong]
    } else {
        seq![]
    }) + (if long {
        seq![wrong]
    } else {
        seq![]
    })
}

/// The violations of the rule for a field that holds a string. A rule for another kind of
/// value is broken by any string; a missing value is judged only by whether it is required; a
/// present one by its length, its pattern and the values allowed, in this order.
pub open spec fn string_violations_given(
    name: Seq<char>,
    rule: RuleModel,
    value: Option<Seq<char>>,
    matched: bool,
) -> Seq<ViolationModel> {
    if rule.field_type is Some && rule.field_type->0 != FieldType::String {
        seq![
            ViolationModel::TypeMismatch {
                field: name,
                expected: rule.field_type->0.name(),
                actual: "string"@,
            },
        ]
    } else {
        match value {
            None => if rule.required {
                seq![ViolationModel::MissingRequired { field: name }]
            } else {
                seq![]
            },
            Some(v) => if v.len() == 0 && rule.required && !rule.allow_empty {
                seq![ViolationModel::MissingRequired { field: name }]
            } else {
                length_violations(name, rule, v.len()) + (if rule.pattern is Some && !matched {
                    seq![
                        ViolationModel::PatternMismatch {
                            field: name,
                            pattern: rule.pattern->0,
                            actual: v,
                        },
                    ]
                } else {
                    seq![]
                }) + (if rule.enum_values is Some && !rule.enum_values->0.contains(v) {
                    seq![
                        ViolationModel::NotInEnum {
                            field: name,
                            actual: v,
                            allowed: rule.enum_values->0,
                        },
                    ]
                } else {
                    seq![]
                })
            },
        }
    }
}

/// Whether a value matches a rule's pattern; true where there is no value or no pattern.
pub open spec fn matches_pattern(rule: RuleModel, value: Option<Seq<char>>) -> bool {
    rule.pattern is Some && value is Some ==> regex_is_match(rule.pattern->0, value->0)
}

/// The violations of the rule for a field that holds a string.
pub open spec fn string_violations(
    name: Seq<char>,
    rule: RuleModel,
    value: Option<Seq<char>>,
) -> Seq<ViolationModel> {
    string_violations_given(name, rule, value, matches_pattern(rule, value))
}

/// One violation for each of the values that is not allowed, in order.
pub open spec fn enum_misses(
    name: Seq<char>,
    allowed: Seq<Seq<char>>,
    values: Seq<Seq<char>>,
) -> Seq<ViolationModel>
    decreases values.len(),
{
    if values.len() == 0 {
        seq![]
    } else {
        let rest = enum_misses(name, allowed, values.drop_last());
        if allowed.contains(values.last()) {
            rest
        } else {
            rest.push(
                ViolationModel::NotInEnum { field: name, actual: values.last(), allowed },
            )
        }
    }
}

/// The violations of the rule for the list of tags.
pub open spec fn tags_violations(
    name: Seq<char>,
    rule: RuleModel,
    tags: Seq<Seq<char>>,
) -> Seq<ViolationModel> {
    if rule.field_type is Some && rule.field_type->0 != FieldType::Array {
        seq![
            ViolationModel::TypeMismatch {
                field: name,
                expected: rule.field_type->0.name(),
                actual: "array"@,
            },
        ]
    } else if rule.required && tags.len() == 0 && !rule.allow_empty {
        seq![ViolationModel::MissingRequired { field: name }]
    } else {
        length_violations(name, rule, tags.len()) + (if rule.enum_values is Some {
            enum_misses(name, rule.enum_values->0, tags)
        } else {
            seq![]
        })
    }
}

/// The violations of one field's rule.
pub open spec fn field_violations(
    fm: FrontmatterModel,
    name: Seq<char>,
    rule: RuleModel,
) -> Seq<ViolationModel> {
    if name == "title"@ {
        string_violations(name, rule, fm.title)
    } else if name == "date"@ {
        string_violations(name, rule, fm.date)
    } else if name == "topic"@ {
        string_violations(name, rule, fm.topic)
    } else if name == "depth"@ {
        string_violations(name, rule, fm.depth)
    } else if name == "tags"@ {
        tags_violations(name, rule, fm.tags)
    } else {
        seq![]
    }
}

/// The violations of all rules, one field after the other.
pub open spec fn validate_spec(
    fm: FrontmatterModel,
    rules: Seq<(Seq<char>, RuleModel)>,
) -> Seq<ViolationModel>
    decreases rules.len(),
{
    if rules.len() == 0 {
        seq![]
    } else {
        validate_spec(fm, rules.drop_last()) + field_violations(
            fm,
            rules.last().0,
            rules.last().1,
        )
    }
}

/// Appends the violations of a rule's bounds.
fn check_length(out: &mut Vec<Violation>, name: &str, rule: &CompiledRule, len: usize)
    ensures
        violation_models(final(out)@) == violation_models(old(out)@) + length_violations(
            name@,
            rule@,
            len as nat,
        ),
{
    let ghost start = violation_models(out@);
    if let Some(min) = rule.min_length {
        if len < min {
            out.push(
                Violation::LengthOutOfRange {
                    field: text::copy(name),
                    actual: len,
                    min: Some(min),
                    max: rule.max_length,
                },
            );
        }
    }
    let ghost middle = violation_models(out@);
    assert(middle =~= start + (if rule.min_length is Some && len < rule.min_length->0 {
        seq![
            ViolationModel::LengthOutOfRange {
                field: name@,
                actual: len as nat,
                min: rule.min_length,
                max: rule.max_length,
            },
        ]
    } else {
        seq![]
    }));
    if let Some(max) = rule.max_length {
        if len > max {
            out.push(
                Violation::LengthOutOfRange {
                    field: text::copy(name),
                    actual: len,
                    min: rule.min_length,
                    max: Some(max),
                },
            );
        }
    }
    assert(violation_models(out@) =~= start + length_violations(name@, rule@, len as nat));
}

/// Appends one violation.
fn report(out: &mut Vec<Violation>, v: Violation)
    ensures
        violation_models(final(out)@) == violation_models(old(out)@).push(v@),
{
    let ghost before = violation_models(out@);
    out.push(v);
    assert(violation_models(out@) =~= before.push(v@));
}

/// Appends the violations of the rule for a field that holds a string.
pub fn check_string(
    out: &mut Vec<Violation>,
    name: &str,
    rule: &CompiledRule,
    value: &Option<String>,
)
    ensures
        violation_models(final(out)@) == violation_models(old(out)@) + string_violations(
            name@,
            rule@,
            text::opt_view(*value),
        ),
{
    let matched = match (&rule.pattern, value) {
        (Some(p), Some(v)) => pattern_matches(p, v.as_str()),
        _ => true,
    };
    judge_string(out, name, rule, value, matched)
}

/// Appends the violations of the rule for a field that holds a string; `matched` says whether
/// the value matches the rule's pattern, where there is one.
pub fn judge_string(
    out: &mut Vec<Violation>,
    name: &str,
    rule: &CompiledRule,
    value: &Option<String>,
    matched: bool,
)
    ensures
        violation_models(final(out)@) == violation_models(old(out)@) + string_violations_given(
            name@,
            rule@,
            text::opt_view(*value),
            matched,
        ),
{
    let ghost start = violation_models(out@);
    let ghost expected = string_violations_given(name@, rule@, text::opt_view(*value), matched);
    if let Some(ft) = rule.field_type {
        if ft != FieldType::String {
            report(
                out,
                Violation::TypeMismatch {
                    field: text::copy(name),
                    expected: text::copy(ft.as_str()),
                    actual: text::copy("string"),
                },
            );
            assert(violation_models(out@) =~= start + expected);
            return ;
        }
    }
    let v = match value {
        Some(v) => v,
        None => {
            if rule.required {
                report(out, Violation::MissingRequired { field: text::copy(name) });
            }
            assert(violation_models(out@) =~= start + expected);
            return ;
        },
    };
    if v.as_str().is_empty() && rule.required && !rule.allow_empty {
        report(out, Violation::MissingRequired { field: text::copy(name) });
        assert(violation_models(out@) =~= start + expected);
        return ;
    }
    let len: usize = v.as_str().unicode_len();
    check_length(out, name, rule, len);
    if let Some(p) = &rule.pattern {
        if !matched {
            report(
                out,
                Violation::PatternMismatch {
                    field: text::copy(name),
                    pattern: text::copy(p.as_str()),
                    actual: v.clone(),
                },
            );
        }
    }
    if let Some(allowed) = &rule.enum_values {
        if !text::list_contains(allowed, v.as_str()) {
            report(
                out,
                Violation::NotInEnum {
                    field: text::copy(name),
                    actual: v.clone(),
                    allowed: text::copy_all(allowed),
                },
            );
        }
    }
    assert(violation_models(out@) =~= start + expected);
}

/// Appends the violations of the rule for the list of tags.
pub fn check_tags(
    out: &mut Vec<Violation>,
    name: &str,
    rule: &CompiledRule,
    tags: &Vec<String>,
)
    ensures
        violation_models(final(out)@) == violation_models(old(out)@) + tags_violations(
            name@,
            rule@,
            text::views(tags@),
        ),
{
    let ghost start = violation_models(out@);
    let ghost expected = tags_violations(name@, rule@, text::views(tags@));
    if let Some(ft) = rule.field_type {
        if ft != FieldType::Array {
            report(
                out,
                Violation::TypeMismatch {
                    field: text::copy(name),
                    expected: text::copy(ft.as_str()),
                    actual: text::copy("array"),
                },
            );
            assert(violation_models(out@) =~= start + expected);
            return ;
        }
    }
    if rule.required && tags.len() == 0 && !rule.allow_empty {
        report(out, Violation::MissingRequired { field: text::copy(name) });
        assert(violation_models(out@) =~= start + expected);
        return ;
    }
    check_length(out, name, rule, tags.len());
    let ghost middle = violation_models(out@);
    if let Some(allowed) = &rule.enum_values {
        let mut i: usize = 0;
        let ghost values = text::views(tags@);
        let ghost list = text::views(allowed@);
        assert(middle =~= middle + enum_misses(name@, list, values.take(0)));
        while i < tags.len()
            invariant
                i <= tags@.len(),
                values == text::views(tags@),
                list == text::views(allowed@),
                violation_models(out@) == middle + enum_misses(
                    name@,
                    list,
                    values.take(i as int),
                ),
            decreases tags@.len() - i,
        {
            assert(values.take(i + 1).drop_last() =~= values.take(i as int));
            if !text::list_contains(allowed, tags[i].as_str()) {
                report(
                    out,
                    Violation::NotInEnum {
                        field: text::copy(name),
                        actual: tags[i].clone(),
                        allowed: text::copy_all(allowed),
                    },
                );
            }
            assert(violation_models(out@) =~= middle + enum_misses(
                name@,
                list,
                values.take(i + 1),
            ));
            i += 1;
        }
        assert(values.take(i as int) =~= values);
    }
    assert(violation_models(out@) =~= start + expected);
}

/// The violations of a schema's rules by a document, in the order of the fields' names. An
/// empty list means that the document keeps all rules.
pub fn validate(fm: &Frontmatter, schema: &Schema) -> (r: Vec<Violation>)
    ensures
        violation_models(r@) == validate_spec(fm@, schema@),
        r@.len() == 0 <==> forall|i: int|
            0 <= i < schema@.len() ==> keeps_rule(fm@, (#[trigger] schema@[i]).0, schema@[i].1),
{
    proof {
        a_document_without_violations_is_as_the_schema_asks(fm@, schema@);
    }
    let mut out: Vec<Violation> = Vec::new();
    let mut i: usize = 0;
    assert(violation_models(out@) =~= validate_spec(fm@, schema@.take(0)));
    while i < schema.fields.len()
        invariant
            i <= schema.fields@.len(),
            violation_models(out@) == validate_spec(fm@, schema@.take(i as int)),
        decreases schema.fields@.len() - i,
    {
        assert(schema@.take(i + 1).drop_last() =~= schema@.take(i as int));
        let ghost before = violation_models(out@);
        let name = schema.fields[i].0.as_str();
        let rule = &schema.fields[i].1;
        assert(schema@.take(i + 1).last() == (name@, rule@));
        if *name == *"title" {
            check_string(&mut out, name, rule, &fm.title);
        } else if *name == *"date" {
            check_string(&mut out, name, rule, &fm.date);
        } else if *name == *"topic" {
            check_string(&mut out, name, rule, &fm.topic);
        } else if *name == *"depth" {
            check_string(&mut out, name, rule, &fm.depth);
        } else if *name == *"tags" {
            check_tags(&mut out, name, rule, &fm.tags);
        }
        assert(violation_models(out@) =~= before + field_violations(fm@, name@, rule@));
        i += 1;
    }
    assert(schema@.take(i as int) =~= schema@);
    out
}

// ---------------------------------------------------------------------------
// Laws
// ---------------------------------------------------------------------------
/// Whether a length keeps a rule's bounds.
pub open spec fn keeps_length(rule: RuleModel, len: nat) -> bool {
    &&& rule.min_length matches Some(min) ==> min <= len
    &&& rule.max_length matches Some(max) ==> len <= max
}

/// Whether a value of a field that holds a string is what the rule asks for: a string is allowed
/// there; it is there if it has to be, and not empty unless that will do; and it keeps the bounds,
/// the pattern and the values allowed, whether it has to be there or not.
pub open spec fn keeps_string(rule: RuleModel, value: Option<Seq<char>>) -> bool {
    &&& rule.field_type matches Some(kind) ==> kind is String
    &&& match value {
        None => !rule.required,
        Some(v) => {
            &&& v.len() == 0 ==> !rule.required || rule.allow_empty
            &&& keeps_length(rule, v.len())
            &&& rule.pattern matches Some(p) ==> regex_is_match(p, v)
            &&& rule.enum_values matches Some(allowed) ==> exists|k: int|
                0 <= k < allowed.len() && #[trigger] allowed[k] == v
        },
    }
}

/// Whether the tags of a document are what the rule asks for: a list is allowed there; it is not
/// empty if there has to be one, unless that will do; it keeps the bounds, and each of the tags
/// is one of the values allowed.
pub open spec fn keeps_tags(rule: RuleModel, tags: Seq<Seq<char>>) -> bool {
    &&& rule.field_type matches Some(kind) ==> kind is Array
    &&& tags.len() == 0 ==> !rule.required || rule.allow_empty
    &&& keeps_length(rule, tags.len())
    &&& rule.enum_values matches Some(allowed) ==> forall|i: int|
        0 <= i < tags.len() ==> exists|k: int|
            0 <= k < allowed.len() && allowed[k] == #[trigger] tags[i]
}

/// Whether a document keeps the rule of one field.
pub open spec fn keeps_rule(fm: FrontmatterModel, name: Seq<char>, rule: RuleModel) -> bool {
    &&& name == "title"@ ==> keeps_string(rule, fm.title)
    &&& name == "date"@ ==> keeps_string(rule, fm.date)
    &&& name == "topic"@ ==> keeps_string(rule, fm.topic)
    &&& name == "depth"@ ==> keeps_string(rule, fm.depth)
    &&& name == "tags"@ ==> keeps_tags(rule, fm.tags)
}

/// A document has no violations exactly when each of its fields is what the field's rule asks for.
pub proof fn a_document_without_violations_is_as_the_schema_asks(
    fm: FrontmatterModel,
    rules: Seq<(Seq<char>, RuleModel)>,
)
    ensures
        validate_spec(fm, rules).len() == 0 <==> forall|i: int|
            0 <= i < rules.len() ==> keeps_rule(fm, (#[trigger] rules[i]).0, rules[i].1),
{
    no_violations_means_every_rule_is_kept(fm, rules);
    assert forall|i: int| 0 <= i < rules.len() implies (field_violations(
        fm,
        (#[trigger] rules[i]).0,
        rules[i].1,
    ).len() == 0 <==> keeps_rule(fm, rules[i].0, rules[i].1)) by {
        let (name, rule) = rules[i];
        field_names_differ();
        no_string_violations(name, rule, fm.title);
        no_string_violations(name, rule, fm.date);
        no_string_violations(name, rule, fm.topic);
        no_string_violations(name, rule, fm.depth);
        no_tags_violations(name, rule, fm.tags);
    }
    if validate_spec(fm, rules).len() == 0 {
        assert forall|i: int| 0 <= i < rules.len() implies keeps_rule(
            fm,
            (#[trigger] rules[i]).0,
            rules[i].1,
        ) by {
            assert(field_violations(fm, rules[i].0, rules[i].1).len() == 0);
        }
    }
}

proof fn field_names_differ()
    ensures
        "title"@ != "date"@ && "title"@ != "topic"@ && "title"@ != "depth"@ && "title"@
            != "tags"@,
        "date"@ != "topic"@ && "date"@ != "depth"@ && "date"@ != "tags"@,
        "topic"@ != "depth"@ && "topic"@ != "tags"@,
        "depth"@ != "tags"@,
{
    reveal_strlit("title");
    reveal_strlit("date");
    reveal_strlit("topic");
    reveal_strlit("depth");
    reveal_strlit("tags");
    assert("title"@[1] == 'i' && "topic"@[1] == 'o' && "depth"@[1] == 'e');
    assert("date"@[0] == 'd' && "tags"@[0] == 't');
    assert("title"@.len() == 5 && "date"@.len() == 4 && "tags"@.len() == 4);
}

proof fn no_string_violations(name: Seq<char>, rule: RuleModel, value: Option<Seq<char>>)
    ensures
        string_violations(name, rule, value).len() == 0 <==> keeps_string(rule, value),
{
    if let Some(v) = value {
        if let Some(allowed) = rule.enum_values {
            if allowed.contains(v) {
                let k = choose|k: int| 0 <= k < allowed.len() && allowed[k] == v;
                assert(allowed[k] == v);
            }
        }
    }
}

proof fn no_misses(name: Seq<char>, allowed: Seq<Seq<char>>, values: Seq<Seq<char>>)
    ensures
        enum_misses(name, allowed, values).len() == 0 <==> forall|i: int|
            0 <= i < values.len() ==> allowed.contains(#[trigger] values[i]),
    decreases values.len(),
{
    if values.len() > 0 {
        let rest = values.drop_last();
        no_misses(name, allowed, rest);
        assert(values.last() == values[values.len() - 1]);
        if forall|i: int| 0 <= i < values.len() ==> allowed.contains(#[trigger] values[i]) {
            assert forall|i: int| 0 <= i < rest.len() implies allowed.contains(
                #[trigger] rest[i],
            ) by {
                assert(rest[i] == values[i]);
            }
        } else if enum_misses(name, allowed, values).len() == 0 {
            assert forall|i: int| 0 <= i < values.len() implies allowed.contains(
                #[trigger] values[i],
            ) by {
                if i < rest.len() {
                    assert(rest[i] == values[i]);
                }
            }
        }
    }
}

proof fn no_tags_violations(name: Seq<char>, rule: RuleModel, tags: Seq<Seq<char>>)
    ensures
        tags_violations(name, rule, tags).len() == 0 <==> keeps_tags(rule, tags),
{
    if let Some(allowed) = rule.enum_values {
        no_misses(name, allowed, tags);
        assert forall|i: int| 0 <= i < tags.len() implies (allowed.contains(#[trigger] tags[i])
            <==> exists|k: int| 0 <= k < allowed.len() && allowed[k] == tags[i]) by {}
        if enum_misses(name, allowed, tags).len() == 0 {
            assert forall|i: int| 0 <= i < tags.len() implies exists|k: int|
                0 <= k < allowed.len() && allowed[k] == #[trigger] tags[i] by {
                assert(allowed.contains(tags[i]));
            }
        }
        if forall|i: int|
            0 <= i < tags.len() ==> exists|k: int|
                0 <= k < allowed.len() && allowed[k] == #[trigger] tags[i] {
            assert forall|i: int| 0 <= i < tags.len() implies allowed.contains(
                #[trigger] tags[i],
            ) by {
                let k = choose|k: int| 0 <= k < allowed.len() && allowed[k] == tags[i];
                assert(allowed[k] == tags[i]);
            }
        }
    }
}

/// Each violation of a string's rule is one that the value really has, and each that it has is
/// reported: with the field, the value and what the rule asks for. `matched` says whether the
/// value matches the pattern.
pub proof fn a_string_is_reported_for_what_it_breaks(
    name: Seq<char>,
    rule: RuleModel,
    value: Option<Seq<char>>,
    matched: bool,
    x: ViolationModel,
)
    ensures
        string_violations_given(name, rule, value, matched).contains(x) <==> {
            let fits = rule.field_type matches Some(kind) ==> kind is String;
            let absent = rule.required && (value matches Some(v) ==> v.len() == 0
                && !rule.allow_empty);
            match x {
                ViolationModel::TypeMismatch { field, expected, actual } => !fits && field == name
                    && expected == rule.field_type->0.name() && actual == "string"@,
                ViolationModel::MissingRequired { field } => fits && absent && field == name,
                ViolationModel::LengthOutOfRange { field, actual, min, max } => fits && !absent
                    && value is Some && field == name && actual == value->0.len() && min
                    == rule.min_length && max == rule.max_length && !keeps_length(
                    rule,
                    value->0.len(),
                ),
                ViolationModel::PatternMismatch { field, pattern, actual } => fits && !absent
                    && value == Some(actual) && field == name && rule.pattern == Some(pattern)
                    && !matched,
                ViolationModel::NotInEnum { field, actual, allowed } => fits && !absent && value
                    == Some(actual) && field == name && rule.enum_values == Some(allowed)
                    && forall|k: int| 0 <= k < allowed.len() ==> #[trigger] allowed[k] != actual,
            }
        },
{
    let all = string_violations_given(name, rule, value, matched);
    let fits = rule.field_type matches Some(kind) ==> kind is String;
    let absent = rule.required && (value matches Some(v) ==> v.len() == 0 && !rule.allow_empty);
    if !fits {
        assert(all[0] == all[0]);
        assert(all.contains(x) <==> x == all[0]);
    } else if absent {
        assert(all.contains(x) <==> x == all[0]) by {
            assert(all.len() == 1);
        }
    } else if let Some(v) = value {
        let a = length_violations(name, rule, v.len());
        let b: Seq<ViolationModel> = if rule.pattern is Some && !matched {
            seq![
                ViolationModel::PatternMismatch {
                    field: name,
                    pattern: rule.pattern->0,
                    actual: v,
                },
            ]
        } else {
            seq![]
        };
        let c: Seq<ViolationModel> = if rule.enum_values is Some && !rule.enum_values->0.contains(
            v,
        ) {
            seq![
                ViolationModel::NotInEnum {
                    field: name,
                    actual: v,
                    allowed: rule.enum_values->0,
                },
            ]
        } else {
            seq![]
        };
        assert(all == a + b + c);
        sum_contains(a + b, c, x);
        sum_contains(a, b, x);
        length_is_reported(name, rule, v.len(), x);
        assert(b.contains(x) <==> b.len() > 0 && x == b[0]);
        assert(c.contains(x) <==> c.len() > 0 && x == c[0]);
        if let Some(allowed) = rule.enum_values {
            if !allowed.contains(v) {
                assert forall|k: int| 0 <= k < allowed.len() implies #[trigger] allowed[k]
                    != v by {}
            } else {
                let k = choose|k: int| 0 <= k < allowed.len() && allowed[k] == v;
                assert(allowed[k] == v);
            }
        }
    }
}

proof fn sum_contains(a: Seq<ViolationModel>, b: Seq<ViolationModel>, x: ViolationModel)
    ensures
        (a + b).contains(x) <==> a.contains(x) || b.contains(x),
{
    if a.contains(x) {
        let i = choose|i: int| 0 <= i < a.len() && a[i] == x;
        assert((a + b)[i] == x);
    }
    if b.contains(x) {
        let i = choose|i: int| 0 <= i < b.len() && b[i] == x;
        assert((a + b)[a.len() + i] == x);
    }
    if (a + b).contains(x) {
        let i = choose|i: int| 0 <= i < (a + b).len() && (a + b)[i] == x;
        if i < a.len() {
            assert(a[i] == x);
        } else {
            assert(b[i - a.len()] == x);
        }
    }
}

proof fn length_is_reported(name: Seq<char>, rule: RuleModel, len: nat, x: ViolationModel)
    ensures
        length_violations(name, rule, len).contains(x) <==> x == (
        ViolationModel::LengthOutOfRange {
            field: name,
            actual: len,
            min: rule.min_length,
            max: rule.max_length,
        }) && !keeps_length(rule, len),
{
    let all = length_violations(name, rule, len);
    if !keeps_length(rule, len) {
        assert(all[0] == all[0]);
        assert(all.contains(all[0]));
    }
}

proof fn misses_are_reported(
    name: Seq<char>,
    allowed: Seq<Seq<char>>,
    values: Seq<Seq<char>>,
    x: ViolationModel,
)
    ensures
        enum_misses(name, allowed, values).contains(x) <==> exists|i: int|
            0 <= i < values.len() && !allowed.contains(#[trigger] values[i]) && x == (
            ViolationModel::NotInEnum { field: name, actual: values[i], allowed }),
    decreases values.len(),
{
    if values.len() > 0 {
        let first = values.drop_last();
        let rest = enum_misses(name, allowed, first);
        let all = enum_misses(name, allowed, values);
        misses_are_reported(name, allowed, first, x);
        assert(values.last() == values[values.len() - 1]);
        if rest.contains(x) {
            let i = choose|i: int|
                0 <= i < first.len() && !allowed.contains(#[trigger] first[i]) && x == (
                ViolationModel::NotInEnum { field: name, actual: first[i], allowed });
            assert(values[i] == first[i]);
            let j = choose|j: int| 0 <= j < rest.len() && rest[j] == x;
            assert(all[j] == x);
        }
        if all.contains(x) && !rest.contains(x) {
            let j = choose|j: int| 0 <= j < all.len() && all[j] == x;
            if j < rest.len() {
                assert(rest[j] == x);
            }
        }
        if exists|i: int|
            0 <= i < values.len() && !allowed.contains(#[trigger] values[i]) && x == (
            ViolationModel::NotInEnum { field: name, actual: values[i], allowed }) {
            let i = choose|i: int|
                0 <= i < values.len() && !allowed.contains(#[trigger] values[i]) && x == (
                ViolationModel::NotInEnum { field: name, actual: values[i], allowed });
            if i < first.len() {
                assert(first[i] == values[i]);
            } else {
                assert(all[rest.len() as int] == x);
            }
        }
    }
}

/// Each violation of the rule for tags is one that the tags really have, and each that they have
/// is reported: every tag that is not allowed by itself.
pub proof fn tags_are_reported_for_what_they_break(
    name: Seq<char>,
    rule: RuleModel,
    tags: Seq<Seq<char>>,
    x: ViolationModel,
)
    ensures
        tags_violations(name, rule, tags).contains(x) <==> {
            let fits = rule.field_type matches Some(kind) ==> kind is Array;
            let absent = rule.required && tags.len() == 0 && !rule.allow_empty;
            match x {
                ViolationModel::TypeMismatch { field, expected, actual } => !fits && field == name
                    && expected == rule.field_type->0.name() && actual == "array"@,
                ViolationModel::MissingRequired { field } => fits && absent && field == name,
                ViolationModel::LengthOutOfRange { field, actual, min, max } => fits && !absent
                    && field == name && actual == tags.len() && min == rule.min_length && max
                    == rule.max_length && !keeps_length(rule, tags.len()),
                ViolationModel::PatternMismatch { .. } => false,
                ViolationModel::NotInEnum { field, actual, allowed } => fits && !absent && field
                    == name && rule.enum_values == Some(allowed) && !allowed.contains(actual)
                    && tags.contains(actual),
            }
        },
{
    let all = tags_violations(name, rule, tags);
    let fits = rule.field_type matches Some(kind) ==> kind is Array;
    let absent = rule.required && tags.len() == 0 && !rule.allow_empty;
    if !fits || absent {
        assert(all.len() == 1);
        assert(all[0] == all[0]);
        assert(all.contains(x) <==> x == all[0]);
    } else {
        let a = length_violations(name, rule, tags.len());
        length_is_reported(name, rule, tags.len(), x);
        let b: Seq<ViolationModel> = if rule.enum_values is Some {
            enum_misses(name, rule.enum_values->0, tags)
        } else {
            seq![]
        };
        assert(all == a + b);
        sum_contains(a, b, x);
        if let Some(list) = rule.enum_values {
            misses_are_reported(name, list, tags, x);
            if b.contains(x) {
                let i = choose|i: int|
                    0 <= i < tags.len() && !list.contains(#[trigger] tags[i]) && x == (
                    ViolationModel::NotInEnum { field: name, actual: tags[i], allowed: list });
                assert(tags.contains(tags[i]));
            }
            if let ViolationModel::NotInEnum { field, actual, allowed } = x {
                if tags.contains(actual) {
                    let i = choose|i: int| 0 <= i < tags.len() && tags[i] == actual;
                    assert(tags[i] == actual);
                }
            }
        }
    }
}

/// A schema is judged field by field: what two lists of rules report together is what the first
/// reports and then what the second does, and a field's rule is held against that field.
pub proof fn fields_are_judged_one_by_one(
    fm: FrontmatterModel,
    first: Seq<(Seq<char>, RuleModel)>,
    second: Seq<(Seq<char>, RuleModel)>,
    rule: RuleModel,
)
    ensures
        validate_spec(fm, first + second) == validate_spec(fm, first) + validate_spec(fm, second),
        validate_spec(fm, seq![("title"@, rule)]) == string_violations("title"@, rule, fm.title),
        validate_spec(fm, seq![("date"@, rule)]) == string_violations("date"@, rule, fm.date),
        validate_spec(fm, seq![("topic"@, rule)]) == string_violations("topic"@, rule, fm.topic),
        validate_spec(fm, seq![("depth"@, rule)]) == string_violations("depth"@, rule, fm.depth),
        validate_spec(fm, seq![("tags"@, rule)]) == tags_violations("tags"@, rule, fm.tags),
    decreases second.len(),
{
    field_names_differ();
    one_field(fm, "title"@, rule);
    one_field(fm, "date"@, rule);
    one_field(fm, "topic"@, rule);
    one_field(fm, "depth"@, rule);
    one_field(fm, "tags"@, rule);
    if second.len() == 0 {
        assert(first + second =~= first);
        assert(validate_spec(fm, first) + validate_spec(fm, second) =~= validate_spec(fm, first));
    } else {
        fields_are_judged_one_by_one(fm, first, second.drop_last(), rule);
        assert((first + second).drop_last() =~= first + second.drop_last());
        assert(validate_spec(fm, first + second) =~= validate_spec(fm, first) + validate_spec(
            fm,
            second,
        ));
    }
}

proof fn one_field(fm: FrontmatterModel, name: Seq<char>, rule: RuleModel)
    ensures
        validate_spec(fm, seq![(name, rule)]) == field_violations(fm, name, rule),
{
    let one = seq![(name, rule)];
    assert(one.drop_last() =~= seq![]);
    assert(validate_spec(fm, one.drop_last()) =~= seq![]);
    assert(validate_spec(fm, one) =~= field_violations(fm, name, rule));
}

/// Which rules a schema may hold: for one of the fields that documents have, for a string or a
/// list, with a pattern only where no list is asked for, and one that is a regular expression.
pub proof fn which_rules_are_sound(
    name: Seq<char>,
    rule: RuleModel,
    compiled: Option<Result<(), Seq<char>>>,
)
    ensures
        ({
            let known = name == "title"@ || name == "date"@ || name == "topic"@ || name
                == "depth"@ || name == "tags"@;
            let misplaced = rule.field_type == Some(FieldType::Array) && rule.pattern is Some;
            let unsupported = rule.field_type == Some(FieldType::Integer) || rule.field_type
                == Some(FieldType::Date);
            let e = rule_error_given(name, rule, compiled);
            &&& e is None <==> known && !misplaced && !unsupported && !(compiled matches Some(
                Err(_),
            ))
            &&& (e is Some && e->0 is UnsupportedField) <==> !known
            &&& (e is Some && e->0 is PatternOnArray) <==> known && misplaced
            &&& (e is Some && e->0 is TypeNotImplemented) <==> known && unsupported
            &&& e matches Some(SchemaErrorModel::UnsupportedField { field }) ==> field == name
            &&& e matches Some(SchemaErrorModel::PatternOnArray { field }) ==> field == name
            &&& e matches Some(SchemaErrorModel::TypeNotImplemented { field, field_type })
                ==> field == name && rule.field_type == Some(field_type)
            &&& e matches Some(SchemaErrorModel::InvalidRegex { field, reason }) ==> field == name
                && compiled == Some(Err::<(), Seq<char>>(reason))
        }),
{
}

/// A document has no violations exactly when it breaks no field's rule.
pub proof fn no_violations_means_every_rule_is_kept(
    fm: FrontmatterModel,
    rules: Seq<(Seq<char>, RuleModel)>,
)
    ensures
        validate_spec(fm, rules).len() == 0 <==> forall|i: int|
            0 <= i < rules.len() ==> field_violations(
                fm,
                (#[trigger] rules[i]).0,
                rules[i].1,
            ).len() == 0,
    decreases rules.len(),
{
    if rules.len() > 0 {
        let rest = rules.drop_last();
        no_violations_means_every_rule_is_kept(fm, rest);
        let last = rules.len() - 1;
        if validate_spec(fm, rules).len() == 0 {
            assert forall|i: int| 0 <= i < rules.len() implies field_violations(
                fm,
                (#[trigger] rules[i]).0,
                rules[i].1,
            ).len() == 0 by {
                if i < last {
                    assert(rest[i] == rules[i]);
                }
            }
        } else if forall|i: int|
            0 <= i < rules.len() ==> field_violations(
                fm,
                (#[trigger] rules[i]).0,
                rules[i].1,
            ).len() == 0 {
            assert forall|i: int| 0 <= i < rest.len() implies field_violations(
                fm,
                (#[trigger] rest[i]).0,
                rest[i].1,
            ).len() == 0 by {
                assert(rest[i] == rules[i]);
            }
            assert(field_violations(fm, rules[last].0, rules[last].1).len() == 0);
        }
    }
}

proof fn misses_name_the_field(
    name: Seq<char>,
    allowed: Seq<Seq<char>>,
    values: Seq<Seq<char>>,
    i: int,
)
    requires
        0 <= i < enum_misses(name, allowed, values).len(),
    ensures
        enum_misses(name, allowed, values)[i].field() == name,
    decreases values.len(),
{
    let rest = enum_misses(name, allowed, values.drop_last());
    if i < rest.len() {
        misses_name_the_field(name, allowed, values.drop_last(), i);
    }
}

proof fn length_violations_name_the_field(name: Seq<char>, rule: RuleModel, len: nat)
    ensures
        forall|j: int|
            0 <= j < length_violations(name, rule, len).len() ==> (#[trigger] length_violations(
                name,
                rule,
                len,
            )[j]).field() == name,
{
}

proof fn string_violations_name_the_field(
    name: Seq<char>,
    rule: RuleModel,
    value: Option<Seq<char>>,
    j: int,
)
    requires
        0 <= j < string_violations(name, rule, value).len(),
    ensures
        string_violations(name, rule, value)[j].field() == name,
{
    if value is Some {
        let v = value->0;
        let lengths = length_violations(name, rule, v.len());
        length_violations_name_the_field(name, rule, v.len());
        if 0 <= j < lengths.len() {
            assert(lengths[j].field() == name);
        }
    }
}

proof fn tags_violations_name_the_field(
    name: Seq<char>,
    rule: RuleModel,
    tags: Seq<Seq<char>>,
    j: int,
)
    requires
        0 <= j < tags_violations(name, rule, tags).len(),
    ensures
        tags_violations(name, rule, tags)[j].field() == name,
{
    let lengths = length_violations(name, rule, tags.len());
    length_violations_name_the_field(name, rule, tags.len());
    if 0 <= j < lengths.len() {
        assert(lengths[j].field() == name);
    } else if rule.enum_values is Some && 0 <= j - lengths.len() < enum_misses(
        name,
        rule.enum_values->0,
        tags,
    ).len() {
        misses_name_the_field(name, rule.enum_values->0, tags, j - lengths.len());
    }
}

proof fn field_violations_name_the_field(
    fm: FrontmatterModel,
    name: Seq<char>,
    rule: RuleModel,
    j: int,
)
    requires
        0 <= j < field_violations(fm, name, rule).len(),
    ensures
        field_violations(fm, name, rule)[j].field() == name,
{
    if name == "title"@ {
        string_violations_name_the_field(name, rule, fm.title, j);
    } else if name == "date"@ {
        string_violations_name_the_field(name, rule, fm.date, j);
    } else if name == "topic"@ {
        string_violations_name_the_field(name, rule, fm.topic, j);
    } else if name == "depth"@ {
        string_violations_name_the_field(name, rule, fm.depth, j);
    } else if name == "tags"@ {
        tags_violations_name_the_field(name, rule, fm.tags, j);
    }
}

/// Every violation names a field that the schema has a rule for.
pub proof fn violations_name_schema_fields(
    fm: FrontmatterModel,
    rules: Seq<(Seq<char>, RuleModel)>,
    i: int,
)
    requires
        0 <= i < validate_spec(fm, rules).len(),
    ensures
        names(rules).contains(validate_spec(fm, rules)[i].field()),
    decreases rules.len(),
{
    let rest = validate_spec(fm, rules.drop_last());
    let name = rules.last().0;
    if i < rest.len() {
        violations_name_schema_fields(fm, rules.drop_last(), i);
        let before = names(rules.drop_last());
        let k = choose|k: int| 0 <= k < before.len() && before[k] == rest[i].field();
        assert(names(rules)[k] == rest[i].field());
    } else {
        field_violations_name_the_field(fm, name, rules.last().1, i - rest.len());
        assert(names(rules)[rules.len() - 1] == name);
    }
}

/// Giving a field a rule puts that rule in place of the one it had, if any; every other field
/// keeps its rule.
pub proof fn a_field_gets_its_rule(
    fields: Seq<(Seq<char>, RuleModel)>,
    after: Seq<(Seq<char>, RuleModel)>,
    name: Seq<char>,
    rule: RuleModel,
    k: int,
    other: (Seq<char>, RuleModel),
)
    requires
        inserted_at(fields, after, name, rule, k),
    ensures
        after.contains((name, rule)),
        other.0 != name ==> (fields.contains(other) <==> after.contains(other)),
        after.len() == fields.len() || after.len() == fields.len() + 1,
        (exists|i: int| 0 <= i < fields.len() && (#[trigger] fields[i]).0 == name) <==> after.len()
            == fields.len(),
{
    assert(after[k] == (name, rule));
    let replaced = k < fields.len() && fields[k].0 == name;
    if fields.contains(other) && other.0 != name {
        let i = choose|i: int| 0 <= i < fields.len() && fields[i] == other;
        if replaced || i < k {
            assert(after[i] == other);
        } else {
            assert(after[i + 1] == other);
        }
    }
    if after.contains(other) && other.0 != name {
        let i = choose|i: int| 0 <= i < after.len() && after[i] == other;
        if replaced || i < k {
            assert(fields[i] == other);
        } else {
            assert(fields[i - 1] == other);
        }
    }
    if !replaced {
        assert forall|i: int| 0 <= i < fields.len() implies (#[trigger] fields[i]).0 != name by {
            order::before_is_irreflexive(name);
        }
    }
}

/// A rule whose pattern cannot be compiled is refused with the reason, and only where nothing
/// else is wrong with it; one without a pattern never is for that.
pub proof fn a_pattern_has_to_compile(name: Seq<char>, rule: RuleModel)
    ensures
        ({
            let e = rule_error(name, rule);
            &&& e is Some && e->0 is InvalidRegex ==> rule.pattern is Some && regex_new(
                rule.pattern->0,
            ) == Err::<(), Seq<char>>(e->0->reason)
            &&& rule.pattern is Some && regex_new(rule.pattern->0) is Err ==> e is Some
            &&& rule.pattern is None ==> !(e is Some && e->0 is InvalidRegex)
        }),
{
}

/// What is said of a violation names the field first; then what was expected and what was found,
/// or the bounds.
pub proof fn a_violation_names_its_field(
    field: Seq<char>,
    x: Seq<char>,
    y: Seq<char>,
    allowed: Seq<Seq<char>>,
    n: nat,
    min: usize,
    max: usize,
)
    ensures
        ({
            let missing = ViolationModel::MissingRequired { field };
            let kind = ViolationModel::TypeMismatch { field, expected: x, actual: y };
            let pattern = ViolationModel::PatternMismatch { field, pattern: x, actual: y };
            let listed = ViolationModel::NotInEnum { field, actual: y, allowed };
            let long = |lo: Option<usize>, hi: Option<usize>|
                ViolationModel::LengthOutOfRange { field, actual: n, min: lo, max: hi };
            let length = field + " length "@ + text::decimal_spec(n) + " is out of range "@;
            &&& missing.field() == field && kind.field() == field && pattern.field() == field
            &&& listed.field() == field && long(None, None).field() == field
            &&& missing.words() == field + " is required but missing (or empty)"@
            &&& kind.words() == field + " expected "@ + x + " but got "@ + y
            &&& pattern.words() == field + " "@ + text::quoted_spec(y)
                + " does not match pattern "@ + x
            &&& listed.words() == field + " "@ + text::quoted_spec(y) + " is not in enum ["@
                + text::join_spec(allowed, ", "@) + "]"@
            &&& long(Some(min), Some(max)).words() == length + (text::decimal_spec(min as nat)
                + "..="@ + text::decimal_spec(max as nat))
            &&& long(Some(min), None).words() == length + (">= "@ + text::decimal_spec(min as nat))
            &&& long(None, Some(max)).words() == length + ("<= "@ + text::decimal_spec(max as nat))
        }),
{
}

/// A rule is known in full, compiled or not.
pub proof fn a_rule_is_known_in_full(raw: FieldRule, rule: CompiledRule)
    ensures
        raw@.required == raw.required && raw@.field_type == raw.field_type,
        raw@.min_length == raw.min_length && raw@.max_length == raw.max_length,
        raw@.allow_empty == raw.allow_empty,
        raw@.pattern is Some <==> raw.pattern is Some,
        raw.pattern is Some ==> raw@.pattern->0 == raw.pattern->0@,
        raw@.enum_values is Some <==> raw.enum_values is Some,
        raw.enum_values is Some ==> raw@.enum_values->0 == text::views(raw.enum_values->0@),
        rule@.required == rule.required && rule@.field_type == rule.field_type,
        rule@.min_length == rule.min_length && rule@.max_length == rule.max_length,
        rule@.allow_empty == rule.allow_empty,
        rule@.pattern is Some <==> rule.pattern is Some,
        rule.pattern is Some ==> rule@.pattern->0 == rule.pattern->0@,
        rule@.enum_values is Some <==> rule.enum_values is Some,
        rule.enum_values is Some ==> rule@.enum_values->0 == text::views(rule.enum_values->0@),
{
}

} // verus!
