//! Module schemas: their allowlists, the warnings they raise, their checks,
//! and the field descriptors they give a parsed entity.
use vstd::prelude::*;
use crate::text::{
    append, append_str, ascii_lowercase, ascii_lowercase_exec, chars_of, eq_str, join, join_exec,
    lowercase_chars, owned, replace_char, replace_char_exec, string_of, string_views, trim,
    trim_exec, unicode_lowercase, views,
};

verus! {

// ---------------------------------------------------------------------------
// Schema values and types
// ---------------------------------------------------------------------------

/// A JSON value of a schema, as the schema logic reads it: its kind, with
/// text and numbers as JSON writes them, and arrays and objects as JSON
/// text.
pub enum SchemaValue {
    Null,
    Bool(bool),
    Number(String),
    Text(String),
    Array { all_text: bool, json: String },
    Object { json: String },
}

/// A field of a module schema.
pub struct ModuleSchemaField {
    pub id: String,
    pub label: Option<String>,
    pub field_type: Option<String>,
    pub aliases: Vec<String>,
    pub renderer: Option<String>,
    pub required: bool,
    pub source: Option<String>,
    pub default_value: Option<SchemaValue>,
    pub options: Vec<String>,
    pub validation: Vec<(String, SchemaValue)>,
    pub extra: Vec<(String, SchemaValue)>,
}

/// A view definition of a module schema.
pub struct ModuleSchemaViewDefinition {
    pub id: String,
    pub label: Option<String>,
    pub default_sort: Option<String>,
    pub visible_fields: Vec<String>,
    pub empty_state: Option<String>,
    pub extra: Vec<(String, SchemaValue)>,
}

/// A view of a module schema: by ID or defined in full.
pub enum ModuleSchemaView {
    Id(String),
    Definition(ModuleSchemaViewDefinition),
}

/// A size of a dashboard widget, in grid cells.
#[derive(Debug, Clone, Copy, PartialEq, Eq, Structural)]
pub struct WidgetSizeDefinition {
    pub width: u32,
    pub height: u32,
}

/// A configuration field of a widget type.  `min_above_max` records whether
/// `min`, read as a floating-point number, is above `max`.
pub struct WidgetConfigFieldDefinition {
    pub label: Option<String>,
    pub field_type: String,
    pub default_value: Option<SchemaValue>,
    pub min: Option<SchemaValue>,
    pub max: Option<SchemaValue>,
    pub min_above_max: bool,
    pub options: Vec<String>,
    pub extra: Vec<(String, SchemaValue)>,
}

/// A widget type a module offers.
pub struct WidgetTypeDefinition {
    pub id: String,
    pub module_id: String,
    pub label: String,
    pub description: Option<String>,
    pub renderer_id: String,
    pub default_size: WidgetSizeDefinition,
    pub allowed_sizes: Vec<WidgetSizeDefinition>,
    pub config_schema: Vec<(String, WidgetConfigFieldDefinition)>,
    pub extra: Vec<(String, SchemaValue)>,
}

/// A module schema.  Maps of the schema are held as their entries in key
/// order.
pub struct ModuleSchema {
    pub schema_version: u32,
    pub module_id: String,
    pub display_name: Option<String>,
    pub kind: Option<String>,
    pub entity_type: String,
    pub data_path: Option<String>,
    pub index_path: Option<String>,
    pub default_view: Option<String>,
    pub enabled_by_default: Option<bool>,
    pub fields: Vec<ModuleSchemaField>,
    pub renderers: Vec<String>,
    pub validation: Vec<(String, SchemaValue)>,
    pub views: Vec<ModuleSchemaView>,
    pub widgets: Vec<WidgetTypeDefinition>,
    pub theme: Vec<(String, SchemaValue)>,
    pub migration_version: Option<u32>,
    pub extra: Vec<(String, SchemaValue)>,
}

/// A warning about a module schema.
pub struct ModuleSchemaDiagnostic {
    pub severity: String,
    pub code: String,
    pub message: String,
}

/// The keys of map entries.
pub open spec fn entry_keys<V>(e: Seq<(String, V)>) -> Seq<Seq<char>> {
    e.map_values(|p: (String, V)| p.0@)
}

/// The ID of a view.
pub open spec fn view_id(v: ModuleSchemaView) -> Seq<char> {
    match v {
        ModuleSchemaView::Id(id) => id@,
        ModuleSchemaView::Definition(d) => d.id@,
    }
}

fn view_id_exec(v: &ModuleSchemaView) -> (r: &str)
    ensures
        r@ == view_id(*v),
{
    match v {
        ModuleSchemaView::Id(id) => id.as_str(),
        ModuleSchemaView::Definition(d) => d.id.as_str(),
    }
}

// ---------------------------------------------------------------------------
// Allowlists
// ---------------------------------------------------------------------------

/// The renderers a field may name.
pub open spec fn renderer_ids() -> Seq<Seq<char>> {
    seq![
        "generic"@, "text"@, "textarea"@, "status"@, "date"@, "tags"@, "relation"@,
        "relationships"@, "checklist"@, "code"@, "image"@, "table"@, "markdown"@, "link"@, "list"@,
        "number"@, "attachment"@, "progress"@,
    ]
}

/// The views a schema may name.
pub open spec fn view_ids() -> Seq<Seq<char>> {
    seq!["cards"@, "list"@, "table"@, "focused_entity"@, "system"@]
}

/// The renderers a widget type may name.
pub open spec fn widget_renderer_ids() -> Seq<Seq<char>> {
    seq![
        "recent_notes"@, "pinned_notes"@, "notes_by_tag"@, "todo_list"@, "habit_checkin"@,
        "progress"@, "recent_contacts"@, "generic_widget"@,
    ]
}

/// The types a widget configuration field may have.
pub open spec fn widget_config_types() -> Seq<Seq<char>> {
    seq!["text"@, "number"@, "boolean"@, "enum"@, "tags"@, "date_range"@, "date range"@]
}

/// The keys that would make a widget load arbitrary code.
pub open spec fn runtime_keys() -> Seq<Seq<char>> {
    seq![
        "path"@, "component"@, "script"@, "stylesheet"@, "url"@, "html"@, "jsx"@, "tsx"@, "css"@,
        "css_selector"@,
    ]
}

/// The sources a field may be read from.
pub open spec fn plain_sources() -> Seq<Seq<char>> {
    seq!["h1"@, "heading"@, "field"@, "field_or_wikilink"@, "body"@, "section"@, "derived"@]
}

fn one_of(x: &str, v: &Vec<&'static str>) -> (r: bool)
    ensures
        r == v@.map_values(|s: &str| s@).contains(x@),
{
    let xc = chars_of(x);
    let n = v.len();
    let mut i: usize = 0;
    while i < n
        invariant
            n == v@.len(),
            xc@ == x@,
            i <= n,
            forall|j: int| 0 <= j < i ==> v@[j]@ != x@,
        decreases n - i,
    {
        if eq_str(xc.as_slice(), v[i]) {
            assert(v@.map_values(|s: &str| s@)[i as int] == x@);
            return true;
        }
        i = i + 1;
    }
    false
}

/// Whether a renderer is allowlisted.
pub fn allowed_renderer_id(value: &str) -> (r: bool)
    ensures
        r == renderer_ids().contains(value@),
{
    let v = vec![
        "generic", "text", "textarea", "status", "date", "tags", "relation", "relationships",
        "checklist", "code", "image", "table", "markdown", "link", "list", "number", "attachment",
        "progress",
    ];
    assert(v@.map_values(|s: &str| s@) =~= renderer_ids());
    one_of(value, &v)
}

/// Whether a view is allowlisted.
pub fn allowed_view_id(value: &str) -> (r: bool)
    ensures
        r == view_ids().contains(value@),
{
    let v = vec!["cards", "list", "table", "focused_entity", "system"];
    assert(v@.map_values(|s: &str| s@) =~= view_ids());
    one_of(value, &v)
}

/// Whether a widget renderer is allowlisted.
pub fn allowed_widget_renderer_id(value: &str) -> (r: bool)
    ensures
        r == widget_renderer_ids().contains(value@),
{
    let v = vec![
        "recent_notes", "pinned_notes", "notes_by_tag", "todo_list", "habit_checkin", "progress",
        "recent_contacts", "generic_widget",
    ];
    assert(v@.map_values(|s: &str| s@) =~= widget_renderer_ids());
    one_of(value, &v)
}

/// Whether a widget configuration type is allowlisted.
pub fn allowed_widget_config_type(value: &str) -> (r: bool)
    ensures
        r == widget_config_types().contains(value@),
{
    let v = vec!["text", "number", "boolean", "enum", "tags", "date_range", "date range"];
    assert(v@.map_values(|s: &str| s@) =~= widget_config_types());
    one_of(value, &v)
}

/// Whether a key is one that would make a widget load arbitrary code.
pub fn is_runtime_key(value: &str) -> (r: bool)
    ensures
        r == runtime_keys().contains(value@),
{
    let v = vec![
        "path", "component", "script", "stylesheet", "url", "html", "jsx", "tsx", "css",
        "css_selector",
    ];
    assert(v@.map_values(|s: &str| s@) =~= runtime_keys());
    one_of(value, &v)
}

/// Whether a theme token of a schema is allowlisted.
pub open spec fn allowed_theme_token(value: Seq<char>) -> bool {
    crate::theme::allowed_tokens().contains(value)
}

fn allowed_theme_token_exec(value: &str) -> (r: bool)
    ensures
        r == allowed_theme_token(value@),
{
    let v = vec![
        "--background", "--foreground", "--card", "--card-foreground", "--popover",
        "--popover-foreground", "--primary", "--primary-foreground", "--secondary",
        "--secondary-foreground", "--muted", "--muted-foreground", "--accent",
        "--accent-foreground", "--destructive", "--destructive-foreground", "--border", "--input",
        "--ring", "--sage", "--sage-foreground", "--soft-blue", "--soft-blue-foreground",
        "--amber-note", "--amber-note-foreground", "--shadow-soft", "--shadow-lifted",
        "--habit-progress-height", "--habit-streak-emphasis", "--habit-completed-state",
        "--todo-overdue-state", "--todo-priority-emphasis", "--todo-completed-state",
        "--contact-relationship-chip",
    ];
    assert(v@.map_values(|s: &str| s@) =~= crate::theme::allowed_tokens());
    one_of(value, &v)
}

/// Whether a field source is supported: a plain source or `section:...`.
pub open spec fn safe_source(value: Seq<char>) -> bool {
    plain_sources().contains(value) || crate::text::has_prefix(value, "section:"@)
}

fn safe_source_exec(value: &str) -> (r: bool)
    ensures
        r == safe_source(value@),
{
    let v = vec!["h1", "heading", "field", "field_or_wikilink", "body", "section", "derived"];
    assert(v@.map_values(|s: &str| s@) =~= plain_sources());
    let c = chars_of(value);
    one_of(value, &v) || crate::text::starts_with_str(c.as_slice(), "section:")
}

/// A lowercase identifier: ASCII lowercase letters, digits and `_`, not empty.
pub open spec fn safe_identifier(value: Seq<char>) -> bool {
    value.len() > 0 && forall|i: int| 0 <= i < value.len() ==> {
        let c = #[trigger] value[i];
        ('a' <= c && c <= 'z') || ('0' <= c && c <= '9') || c == '_'
    }
}

fn safe_identifier_exec(value: &str) -> (r: bool)
    ensures
        r == safe_identifier(value@),
{
    let v = chars_of(value);
    let n = v.len();
    if n == 0 {
        return false;
    }
    let mut i: usize = 0;
    while i < n
        invariant
            n == v@.len(),
            v@ == value@,
            i <= n,
            forall|j: int| 0 <= j < i ==> {
                let c = #[trigger] v@[j];
                ('a' <= c && c <= 'z') || ('0' <= c && c <= '9') || c == '_'
            },
        decreases n - i,
    {
        let c = v[i];
        if !(('a' <= c && c <= 'z') || ('0' <= c && c <= '9') || c == '_') {
            return false;
        }
        i = i + 1;
    }
    true
}

/// A safe field name: not blank, of ASCII letters, digits, `_`, `-` and
/// spaces.
pub open spec fn safe_field_name(value: Seq<char>) -> bool {
    trim(value).len() > 0 && forall|i: int| 0 <= i < value.len() ==> {
        let c = #[trigger] value[i];
        crate::text::is_ascii_alnum(c) || c == '_' || c == '-' || c == ' '
    }
}

fn safe_field_name_exec(value: &str) -> (r: bool)
    ensures
        r == safe_field_name(value@),
{
    let v = chars_of(value);
    let t = trim_exec(v.as_slice());
    if t.len() == 0 {
        return false;
    }
    let n = v.len();
    let mut i: usize = 0;
    while i < n
        invariant
            n == v@.len(),
            v@ == value@,
            i <= n,
            forall|j: int| 0 <= j < i ==> {
                let c = #[trigger] v@[j];
                crate::text::is_ascii_alnum(c) || c == '_' || c == '-' || c == ' '
            },
        decreases n - i,
    {
        let c = v[i];
        if !(crate::text::is_ascii_alnum_exec(c) || c == '_' || c == '-' || c == ' ') {
            return false;
        }
        i = i + 1;
    }
    true
}

/// A safe widget ID: not empty, no leading, trailing or doubled `.`, of ASCII
/// lowercase letters, digits, `_`, `-` and `.`.
pub open spec fn safe_widget_id(value: Seq<char>) -> bool {
    &&& value.len() > 0
    &&& !crate::text::has_prefix(value, "."@)
    &&& !crate::text::has_suffix(value, "."@)
    &&& !crate::text::contains(value, ".."@)
    &&& forall|i: int| 0 <= i < value.len() ==> {
        let c = #[trigger] value[i];
        ('a' <= c && c <= 'z') || ('0' <= c && c <= '9') || c == '_' || c == '-' || c == '.'
    }
}

pub(crate) fn safe_widget_id_exec(value: &str) -> (r: bool)
    ensures
        r == safe_widget_id(value@),
{
    let v = chars_of(value);
    let n = v.len();
    if n == 0 || crate::text::starts_with_str(v.as_slice(), ".") || crate::text::ends_with_str(
        v.as_slice(),
        ".",
    ) || crate::text::contains_str(v.as_slice(), "..") {
        return false;
    }
    let mut i: usize = 0;
    while i < n
        invariant
            n == v@.len(),
            v@ == value@,
            i <= n,
            forall|j: int| 0 <= j < i ==> {
                let c = #[trigger] v@[j];
                ('a' <= c && c <= 'z') || ('0' <= c && c <= '9') || c == '_' || c == '-' || c == '.'
            },
        decreases n - i,
    {
        let c = v[i];
        if !(('a' <= c && c <= 'z') || ('0' <= c && c <= '9') || c == '_' || c == '-' || c == '.') {
            return false;
        }
        i = i + 1;
    }
    true
}

// ---------------------------------------------------------------------------
// Field names, labels and values
// ---------------------------------------------------------------------------

/// A field name as it is compared: trimmed, lowercased, `_` read as a space.
pub open spec fn normalized_field(field: Seq<char>) -> Seq<char> {
    replace_char(unicode_lowercase(trim(field)), '_', ' ')
}

/// Normalises a field name.
pub fn normalize_field(field: &str) -> (r: String)
    ensures
        r@ == normalized_field(field@),
{
    let t = crate::text::trim_str(field);
    let l = lowercase_chars(t.as_slice());
    let r = replace_char_exec(l.as_slice(), '_', ' ');
    string_of(r.as_slice())
}

/// `_` and `-` read as spaces.
pub open spec fn dashes_as_spaces(s: Seq<char>) -> Seq<char> {
    replace_char(replace_char(s, '_', ' '), '-', ' ')
}

/// The ASCII uppercase form of a character.
pub open spec fn ascii_upper(c: char) -> char {
    if 'a' <= c && c <= 'z' {
        ((c as u32) - 32) as char
    } else {
        c
    }
}

fn ascii_upper_exec(c: char) -> (r: char)
    ensures
        r == ascii_upper(c),
{
    if 'a' <= c && c <= 'z' {
        let b: u8 = ((c as u32) - 32) as u8;
        b as char
    } else {
        c
    }
}

/// A word with its first character in ASCII uppercase.
pub open spec fn capitalized(w: Seq<char>) -> Seq<char> {
    if w.len() == 0 {
        w
    } else {
        seq![ascii_upper(w[0])] + w.skip(1)
    }
}

/// The label of a field named only by its ID: its words, `_` and `-` read as
/// spaces, each capitalised, or `Field` where there is none.
pub open spec fn field_label(field: Seq<char>) -> Seq<char> {
    let ws = crate::record_text::words(dashes_as_spaces(field));
    if ws.len() == 0 {
        "Field"@
    } else {
        join(ws.map_values(|w: Seq<char>| capitalized(w)), " "@)
    }
}

/// The label of a field named only by its ID.
pub fn field_label_exec(field: &str) -> (r: String)
    ensures
        r@ == field_label(field@),
{
    let v = chars_of(field);
    let a = replace_char_exec(v.as_slice(), '_', ' ');
    let b = replace_char_exec(a.as_slice(), '-', ' ');
    let ws = crate::record_text::words_exec(b.as_slice());
    if ws.len() == 0 {
        return owned("Field");
    }
    let mut caps: Vec<Vec<char>> = Vec::new();
    let n = ws.len();
    let mut i: usize = 0;
    while i < n
        invariant
            n == ws@.len(),
            i <= n,
            views(caps@) == views(ws@).take(i as int).map_values(|w: Seq<char>| capitalized(w)),
        decreases n - i,
    {
        let w = &ws[i];
        let mut c: Vec<char> = Vec::new();
        if w.len() > 0 {
            c.push(ascii_upper_exec(w[0]));
            let rest = crate::text::slice_vec(w.as_slice(), 1, w.len());
            append(&mut c, rest.as_slice());
            assert(c@ =~= seq![ascii_upper(w@[0])] + w@.skip(1));
        } else {
            assert(c@ =~= w@);
        }
        let ghost before = views(caps@);
        caps.push(c);
        assert(views(caps@) =~= before.push(capitalized(ws@[i as int]@)));
        assert(views(ws@).take(i + 1).map_values(|w: Seq<char>| capitalized(w)) =~= views(ws@).take(
            i as int,
        ).map_values(|w: Seq<char>| capitalized(w)).push(capitalized(ws@[i as int]@)));
        i = i + 1;
    }
    assert(views(ws@).take(n as int) =~= views(ws@));
    let sep = chars_of(" ");
    let j = join_exec(&caps, sep.as_slice());
    string_of(j.as_slice())
}

/// The renderer a field is shown with: its renderer, else its type, else
/// text; some names map to others, and a renderer off the allowlist falls
/// back to `generic`.
pub open spec fn renderer_for(renderer: Option<Seq<char>>, field_type: Option<Seq<char>>) -> Seq<char> {
    let base = match renderer {
        Some(r) => r,
        None => match field_type {
            Some(t) => t,
            None => "text"@,
        },
    };
    let resolved = if base == "relation"@ {
        "relationships"@
    } else if base == "enum"@ {
        "status"@
    } else if base == "attachment"@ || base == "progress"@ {
        "generic"@
    } else {
        base
    };
    if renderer_ids().contains(resolved) {
        resolved
    } else {
        "generic"@
    }
}

/// The renderer a field is shown with.
pub fn renderer_id(renderer: Option<&str>, field_type: Option<&str>) -> (r: String)
    ensures
        r@ == renderer_for(crate::theme::opt_view(renderer), crate::theme::opt_view(field_type)),
{
    let base = match renderer {
        Some(r) => r,
        None => match field_type {
            Some(t) => t,
            None => "text",
        },
    };
    let b = chars_of(base);
    let resolved: String = if eq_str(b.as_slice(), "relation") {
        owned("relationships")
    } else if eq_str(b.as_slice(), "enum") {
        owned("status")
    } else if eq_str(b.as_slice(), "attachment") || eq_str(b.as_slice(), "progress") {
        owned("generic")
    } else {
        owned(base)
    };
    if allowed_renderer_id(resolved.as_str()) {
        resolved
    } else {
        owned("generic")
    }
}

/// An enum value as it is compared: trimmed, lowercased, `_` and `-` read as
/// spaces, its words joined by single spaces.
pub open spec fn normalized_enum_value(value: Seq<char>) -> Seq<char> {
    join(
        crate::record_text::words(dashes_as_spaces(unicode_lowercase(trim(value)))),
        " "@,
    )
}

fn normalize_enum_value(value: &[char]) -> (r: Vec<char>)
    ensures
        r@ == normalized_enum_value(value@),
{
    let t = trim_exec(value);
    let l = lowercase_chars(t.as_slice());
    let a = replace_char_exec(l.as_slice(), '_', ' ');
    let b = replace_char_exec(a.as_slice(), '-', ' ');
    let ws = crate::record_text::words_exec(b.as_slice());
    let sep = chars_of(" ");
    join_exec(&ws, sep.as_slice())
}

/// Whether a value matches one of the options of an enum field.
pub open spec fn enum_option_matches(options: Seq<Seq<char>>, value: Seq<char>) -> bool {
    exists|i: int|
        0 <= i < options.len() && normalized_enum_value(#[trigger] options[i])
            == normalized_enum_value(value)
}

fn enum_option_matches_exec(options: &Vec<String>, value: &[char]) -> (r: bool)
    ensures
        r == enum_option_matches(string_views(options@), value@),
{
    let nv = normalize_enum_value(value);
    let n = options.len();
    let mut i: usize = 0;
    while i < n
        invariant
            n == options@.len(),
            nv@ == normalized_enum_value(value@),
            i <= n,
            forall|j: int| 0 <= j < i ==> normalized_enum_value(#[trigger] string_views(options@)[j])
                != normalized_enum_value(value@),
        decreases n - i,
    {
        let o = chars_of(options[i].as_str());
        assert(string_views(options@)[i as int] == o@);
        let no = normalize_enum_value(o.as_slice());
        if crate::text::seq_eq(no.as_slice(), nv.as_slice()) {
            return true;
        }
        i = i + 1;
    }
    false
}

/// Whether a field is an enum field (its type is `enum`, ASCII case aside).
pub open spec fn is_enum_field(field_type: Option<Seq<char>>) -> bool {
    match field_type {
        Some(t) => ascii_lowercase(t) == "enum"@,
        None => false,
    }
}

fn is_enum_field_exec(field: &ModuleSchemaField) -> (r: bool)
    ensures
        r == is_enum_field(crate::theme::opt_string_view(field.field_type)),
{
    match &field.field_type {
        Some(t) => {
            let c = chars_of(t.as_str());
            let l = ascii_lowercase_exec(c.as_slice());
            eq_str(l.as_slice(), "enum")
        },
        None => false,
    }
}

/// The default of a field as text: text and numbers as they are, booleans
/// as `true` or `false`; other values give none.
pub open spec fn default_text(v: Option<SchemaValue>) -> Option<Seq<char>> {
    match v {
        Some(SchemaValue::Text(t)) => Some(t@),
        Some(SchemaValue::Number(n)) => Some(n@),
        Some(SchemaValue::Bool(b)) => Some(
            if b {
                "true"@
            } else {
                "false"@
            },
        ),
        _ => None,
    }
}

/// The default of a field as text.
pub fn field_default_string(field: &ModuleSchemaField) -> (r: Option<String>)
    ensures
        crate::theme::opt_string_view(r) == default_text(field.default_value),
{
    match &field.default_value {
        Some(SchemaValue::Text(t)) => Some(t.clone()),
        Some(SchemaValue::Number(n)) => Some(n.clone()),
        Some(SchemaValue::Bool(b)) => Some(
            if *b {
                owned("true")
            } else {
                owned("false")
            },
        ),
        _ => None,
    }
}

// ---------------------------------------------------------------------------
// Diagnostics
// ---------------------------------------------------------------------------

/// A warning: its code and message.
pub type DiagnosticView = (Seq<char>, Seq<char>);

/// The warnings that each item gives, one after another.
pub open spec fn flat_map<T>(s: Seq<T>, f: spec_fn(T) -> Seq<DiagnosticView>) -> Seq<DiagnosticView>
    decreases s.len(),
{
    if s.len() == 0 {
        seq![]
    } else {
        flat_map(s.drop_last(), f) + f(s.last())
    }
}

/// The code and message of each diagnostic.
pub open spec fn diag_views(v: Seq<ModuleSchemaDiagnostic>) -> Seq<DiagnosticView> {
    v.map_values(|d: ModuleSchemaDiagnostic| (d.code@, d.message@))
}

/// Every diagnostic is a warning.
pub open spec fn all_warnings(v: Seq<ModuleSchemaDiagnostic>) -> bool {
    forall|i: int| 0 <= i < v.len() ==> (#[trigger] v[i]).severity@ == "warning"@
}

impl ModuleSchemaDiagnostic {
    /// A warning with a code and a message.
    pub fn warning(code: &str, message: String) -> (r: Self)
        ensures
            r.severity@ == "warning"@,
            r.code@ == code@,
            r.message == message,
    {
        ModuleSchemaDiagnostic { severity: owned("warning"), code: owned(code), message }
    }
}

fn push_warning(out: &mut Vec<ModuleSchemaDiagnostic>, code: &str, message: String)
    requires
        all_warnings(old(out)@),
    ensures
        all_warnings(final(out)@),
        diag_views(final(out)@) == diag_views(old(out)@).push((code@, message@)),
{
    let ghost before = diag_views(out@);
    out.push(ModuleSchemaDiagnostic::warning(code, message));
    assert(diag_views(out@) =~= before.push((code@, message@)));
}

fn text3(a: &str, b: &str, c: &str) -> (r: String)
    ensures
        r@ == a@ + b@ + c@,
{
    let mut v = chars_of(a);
    append_str(&mut v, b);
    append_str(&mut v, c);
    string_of(v.as_slice())
}

fn text5(a: &str, b: &str, c: &str, d: &str, e: &str) -> (r: String)
    ensures
        r@ == a@ + b@ + c@ + d@ + e@,
{
    let mut v = chars_of(a);
    append_str(&mut v, b);
    append_str(&mut v, c);
    append_str(&mut v, d);
    append_str(&mut v, e);
    string_of(v.as_slice())
}

fn text7(a: &str, b: &str, c: &str, d: &str, e: &str, f: &str, g: &str) -> (r: String)
    ensures
        r@ == a@ + b@ + c@ + d@ + e@ + f@ + g@,
{
    let mut v = chars_of(a);
    append_str(&mut v, b);
    append_str(&mut v, c);
    append_str(&mut v, d);
    append_str(&mut v, e);
    append_str(&mut v, f);
    append_str(&mut v, g);
    string_of(v.as_slice())
}

/// The warnings of unknown top-level keys.
pub open spec fn schema_key_diags(k: Seq<char>) -> Seq<DiagnosticView> {
    seq![("unknown_schema_key"@, "Unknown module schema key '"@ + k + "' is ignored and preserved."@)]
}

/// The warnings of a field: its unknown keys, then an unknown renderer.
pub open spec fn field_diags(f: ModuleSchemaField) -> Seq<DiagnosticView> {
    flat_map(
        entry_keys(f.extra@),
        |k: Seq<char>|
            seq![
                (
                    "unknown_field_schema_key"@,
                    "Unknown schema key '"@ + k + "' on field '"@ + f.id@ + "' is ignored and preserved."@,
                ),
            ],
    ) + match f.renderer {
        Some(r) => if renderer_ids().contains(r@) {
            seq![]
        } else {
            seq![
                (
                    "unknown_renderer_id"@,
                    "Renderer '"@ + r@ + "' on field '"@ + f.id@
                        + "' is not allowlisted and will use the generic fallback."@,
                ),
            ]
        },
        None => seq![],
    }
}

/// The warning of a schema-level renderer off the allowlist.
pub open spec fn renderer_diags(r: Seq<char>) -> Seq<DiagnosticView> {
    if renderer_ids().contains(r) {
        seq![]
    } else {
        seq![
            (
                "unknown_renderer_id"@,
                "Renderer '"@ + r + "' is not allowlisted and will use the generic fallback."@,
            ),
        ]
    }
}

/// The warning of a view off the allowlist.
pub open spec fn view_diags(v: ModuleSchemaView) -> Seq<DiagnosticView> {
    if view_ids().contains(view_id(v)) {
        seq![]
    } else {
        seq![
            (
                "unknown_view_id"@,
                "View '"@ + view_id(v) + "' is not allowlisted and will be ignored."@,
            ),
        ]
    }
}

/// The warning of a theme token off the allowlist.
pub open spec fn theme_diags(k: Seq<char>) -> Seq<DiagnosticView> {
    if allowed_theme_token(k) {
        seq![]
    } else {
        seq![
            (
                "unknown_theme_token"@,
                "Theme token '"@ + k + "' is not allowlisted and will be ignored."@,
            ),
        ]
    }
}

/// The warnings of a widget configuration field's unknown keys.
pub open spec fn config_diags(w: Seq<char>, c: (String, WidgetConfigFieldDefinition)) -> Seq<DiagnosticView> {
    flat_map(
        entry_keys(c.1.extra@),
        |k: Seq<char>|
            seq![
                (
                    "unknown_widget_config_schema_key"@,
                    "Unknown schema key '"@ + k + "' on widget '"@ + w + "' config field '"@ + c.0@
                        + "' is ignored and preserved."@,
                ),
            ],
    )
}

/// The warnings of a widget: its unknown keys, then those of its
/// configuration fields.
pub open spec fn widget_diags(w: WidgetTypeDefinition) -> Seq<DiagnosticView> {
    flat_map(
        entry_keys(w.extra@),
        |k: Seq<char>|
            seq![
                (
                    "unknown_widget_schema_key"@,
                    "Unknown schema key '"@ + k + "' on widget '"@ + w.id@ + "' is ignored and preserved."@,
                ),
            ],
    ) + flat_map(w.config_schema@, |c: (String, WidgetConfigFieldDefinition)| config_diags(w.id@, c))
}

/// The warnings of a schema, in order: unknown keys, fields, renderers,
/// views, theme tokens and widgets.
pub open spec fn schema_diagnostics(s: ModuleSchema) -> Seq<DiagnosticView> {
    flat_map(entry_keys(s.extra@), |k: Seq<char>| schema_key_diags(k)) + flat_map(
        s.fields@,
        |f: ModuleSchemaField| field_diags(f),
    ) + flat_map(string_views(s.renderers@), |r: Seq<char>| renderer_diags(r)) + flat_map(
        s.views@,
        |v: ModuleSchemaView| view_diags(v),
    ) + flat_map(entry_keys(s.theme@), |k: Seq<char>| theme_diags(k)) + flat_map(
        s.widgets@,
        |w: WidgetTypeDefinition| widget_diags(w),
    )
}

proof fn lemma_flat_map_step<T>(s: Seq<T>, i: int, f: spec_fn(T) -> Seq<DiagnosticView>)
    requires
        0 <= i < s.len(),
    ensures
        flat_map(s.take(i + 1), f) == flat_map(s.take(i), f) + f(s[i]),
{
    assert(s.take(i + 1).drop_last() =~= s.take(i));
    assert(s.take(i + 1).last() == s[i]);
}

fn key_warnings(
    out: &mut Vec<ModuleSchemaDiagnostic>,
    keys: &Vec<(String, SchemaValue)>,
    code: &str,
    before_key: &str,
    after_key: &str,
)
    requires
        all_warnings(old(out)@),
    ensures
        all_warnings(final(out)@),
        diag_views(final(out)@) == diag_views(old(out)@) + flat_map(
            entry_keys(keys@),
            |k: Seq<char>| seq![(code@, before_key@ + k + after_key@)],
        ),
{
    let ghost start = diag_views(out@);
    let ghost f = |k: Seq<char>| seq![(code@, before_key@ + k + after_key@)];
    let ghost ks = entry_keys(keys@);
    let n = keys.len();
    let mut i: usize = 0;
    assert(ks.take(0) =~= Seq::<Seq<char>>::empty());
    assert(start + flat_map(ks.take(0), f) =~= start);
    while i < n
        invariant
            n == keys@.len(),
            ks == entry_keys(keys@),
            i <= n,
            all_warnings(out@),
            diag_views(out@) == start + flat_map(ks.take(i as int), f),
            f == (|k: Seq<char>| seq![(code@, before_key@ + k + after_key@)]),
        decreases n - i,
    {
        proof {
            lemma_flat_map_step(ks, i as int, f);
        }
        let m = text3(before_key, keys[i].0.as_str(), after_key);
        let ghost prev = diag_views(out@);
        push_warning(out, code, m);
        assert(diag_views(out@) =~= start + flat_map(ks.take(i + 1), f));
        i = i + 1;
    }
    assert(ks.take(n as int) =~= ks);
}

fn field_warnings(out: &mut Vec<ModuleSchemaDiagnostic>, f: &ModuleSchemaField)
    requires
        all_warnings(old(out)@),
    ensures
        all_warnings(final(out)@),
        diag_views(final(out)@) == diag_views(old(out)@) + field_diags(*f),
{
    let ghost start = diag_views(out@);
    let after = text3("' on field '", f.id.as_str(), "' is ignored and preserved.");
    key_warnings(out, &f.extra, "unknown_field_schema_key", "Unknown schema key '", after.as_str());
    let ghost g1 = |k: Seq<char>| seq![("unknown_field_schema_key"@, "Unknown schema key '"@ + k + after@)];
    let ghost g2 = |k: Seq<char>|
        seq![
            (
                "unknown_field_schema_key"@,
                "Unknown schema key '"@ + k + "' on field '"@ + f.id@ + "' is ignored and preserved."@,
            ),
        ];
    assert forall|k: Seq<char>| #[trigger] g1(k) == g2(k) by {
        assert("Unknown schema key '"@ + k + after@ =~= "Unknown schema key '"@ + k + "' on field '"@
            + f.id@ + "' is ignored and preserved."@);
    }
    assert(g1 =~= g2);
    let ghost mid = diag_views(out@);
    match &f.renderer {
        Some(r) => {
            if !allowed_renderer_id(r.as_str()) {
                let m = text5(
                    "Renderer '",
                    r.as_str(),
                    "' on field '",
                    f.id.as_str(),
                    "' is not allowlisted and will use the generic fallback.",
                );
                push_warning(out, "unknown_renderer_id", m);
            } else {
                assert(mid + Seq::<DiagnosticView>::empty() =~= mid);
            }
        },
        None => {
            assert(mid + Seq::<DiagnosticView>::empty() =~= mid);
        },
    }
    assert(diag_views(out@) =~= start + field_diags(*f));
}

fn widget_warnings(out: &mut Vec<ModuleSchemaDiagnostic>, w: &WidgetTypeDefinition)
    requires
        all_warnings(old(out)@),
    ensures
        all_warnings(final(out)@),
        diag_views(final(out)@) == diag_views(old(out)@) + widget_diags(*w),
{
    let ghost start = diag_views(out@);
    let after = text3("' on widget '", w.id.as_str(), "' is ignored and preserved.");
    key_warnings(out, &w.extra, "unknown_widget_schema_key", "Unknown schema key '", after.as_str());
    let ghost g1 = |k: Seq<char>| seq![("unknown_widget_schema_key"@, "Unknown schema key '"@ + k + after@)];
    let ghost g2 = |k: Seq<char>|
        seq![
            (
                "unknown_widget_schema_key"@,
                "Unknown schema key '"@ + k + "' on widget '"@ + w.id@ + "' is ignored and preserved."@,
            ),
        ];
    assert forall|k: Seq<char>| #[trigger] g1(k) == g2(k) by {
        assert("Unknown schema key '"@ + k + after@ =~= "Unknown schema key '"@ + k + "' on widget '"@
            + w.id@ + "' is ignored and preserved."@);
    }
    assert(g1 =~= g2);
    let ghost mid = diag_views(out@);
    let ghost cf = |c: (String, WidgetConfigFieldDefinition)| config_diags(w.id@, c);
    let ghost cs = w.config_schema@;
    let n = w.config_schema.len();
    let mut i: usize = 0;
    assert(mid + flat_map(cs.take(0), cf) =~= mid);
    while i < n
        invariant
            n == cs.len(),
            cs == w.config_schema@,
            i <= n,
            all_warnings(out@),
            diag_views(out@) == mid + flat_map(cs.take(i as int), cf),
            cf == (|c: (String, WidgetConfigFieldDefinition)| config_diags(w.id@, c)),
        decreases n - i,
    {
        proof {
            lemma_flat_map_step(cs, i as int, cf);
        }
        let ghost before = diag_views(out@);
        let after = text5(
            "' on widget '",
            w.id.as_str(),
            "' config field '",
            w.config_schema[i].0.as_str(),
            "' is ignored and preserved.",
        );
        key_warnings(
            out,
            &w.config_schema[i].1.extra,
            "unknown_widget_config_schema_key",
            "Unknown schema key '",
            after.as_str(),
        );
        let ghost c = cs[i as int];
        let ghost h1 = |k: Seq<char>| seq![("unknown_widget_config_schema_key"@, "Unknown schema key '"@ + k + after@)];
        let ghost h2 = |k: Seq<char>|
            seq![
                (
                    "unknown_widget_config_schema_key"@,
                    "Unknown schema key '"@ + k + "' on widget '"@ + w.id@ + "' config field '"@ + c.0@
                        + "' is ignored and preserved."@,
                ),
            ];
        assert forall|k: Seq<char>| #[trigger] h1(k) == h2(k) by {
            assert("Unknown schema key '"@ + k + after@ =~= "Unknown schema key '"@ + k + "' on widget '"@
                + w.id@ + "' config field '"@ + c.0@ + "' is ignored and preserved."@);
        }
        assert(h1 =~= h2);
        assert(diag_views(out@) =~= before + cf(c));
        assert(diag_views(out@) =~= mid + flat_map(cs.take(i + 1), cf));
        i = i + 1;
    }
    assert(cs.take(n as int) =~= cs);
}

impl ModuleSchema {
    /// The warnings of a schema, in order: unknown keys, fields, renderers,
    /// views, theme tokens and widgets.
    pub fn diagnostics(&self) -> (r: Vec<ModuleSchemaDiagnostic>)
        ensures
            all_warnings(r@),
            diag_views(r@) == schema_diagnostics(*self),
    {
        let mut out: Vec<ModuleSchemaDiagnostic> = Vec::new();
        assert(diag_views(out@) =~= Seq::<DiagnosticView>::empty());
        key_warnings(
            &mut out,
            &self.extra,
            "unknown_schema_key",
            "Unknown module schema key '",
            "' is ignored and preserved.",
        );
        let ghost g1 = |k: Seq<char>|
            seq![("unknown_schema_key"@, "Unknown module schema key '"@ + k + "' is ignored and preserved."@)];
        let ghost g2 = |k: Seq<char>| schema_key_diags(k);
        assert(g1 =~= g2);
        let ghost a = diag_views(out@);
        let ghost ff = |f: ModuleSchemaField| field_diags(f);
        let n = self.fields.len();
        let mut i: usize = 0;
        assert(a + flat_map(self.fields@.take(0), ff) =~= a);
        while i < n
            invariant
                n == self.fields@.len(),
                i <= n,
                all_warnings(out@),
                diag_views(out@) == a + flat_map(self.fields@.take(i as int), ff),
                ff == (|f: ModuleSchemaField| field_diags(f)),
            decreases n - i,
        {
            proof {
                lemma_flat_map_step(self.fields@, i as int, ff);
            }
            field_warnings(&mut out, &self.fields[i]);
            assert(diag_views(out@) =~= a + flat_map(self.fields@.take(i + 1), ff));
            i = i + 1;
        }
        assert(self.fields@.take(n as int) =~= self.fields@);
        let ghost b = diag_views(out@);
        let ghost rf = |r: Seq<char>| renderer_diags(r);
        let ghost rs = string_views(self.renderers@);
        let n = self.renderers.len();
        let mut i: usize = 0;
        assert(b + flat_map(rs.take(0), rf) =~= b);
        while i < n
            invariant
                n == self.renderers@.len(),
                rs == string_views(self.renderers@),
                i <= n,
                all_warnings(out@),
                diag_views(out@) == b + flat_map(rs.take(i as int), rf),
                rf == (|r: Seq<char>| renderer_diags(r)),
            decreases n - i,
        {
            proof {
                lemma_flat_map_step(rs, i as int, rf);
            }
            let ghost before = diag_views(out@);
            let r = self.renderers[i].as_str();
            if !allowed_renderer_id(r) {
                let m = text3("Renderer '", r, "' is not allowlisted and will use the generic fallback.");
                push_warning(&mut out, "unknown_renderer_id", m);
            } else {
                assert(before + Seq::<DiagnosticView>::empty() =~= before);
            }
            assert(diag_views(out@) =~= b + flat_map(rs.take(i + 1), rf));
            i = i + 1;
        }
        assert(rs.take(n as int) =~= rs);
        let ghost c = diag_views(out@);
        let ghost vf = |v: ModuleSchemaView| view_diags(v);
        let n = self.views.len();
        let mut i: usize = 0;
        assert(c + flat_map(self.views@.take(0), vf) =~= c);
        while i < n
            invariant
                n == self.views@.len(),
                i <= n,
                all_warnings(out@),
                diag_views(out@) == c + flat_map(self.views@.take(i as int), vf),
                vf == (|v: ModuleSchemaView| view_diags(v)),
            decreases n - i,
        {
            proof {
                lemma_flat_map_step(self.views@, i as int, vf);
            }
            let ghost before = diag_views(out@);
            let id = view_id_exec(&self.views[i]);
            if !allowed_view_id(id) {
                let m = text3("View '", id, "' is not allowlisted and will be ignored.");
                push_warning(&mut out, "unknown_view_id", m);
            } else {
                assert(before + Seq::<DiagnosticView>::empty() =~= before);
            }
            assert(diag_views(out@) =~= c + flat_map(self.views@.take(i + 1), vf));
            i = i + 1;
        }
        assert(self.views@.take(n as int) =~= self.views@);
        let ghost d = diag_views(out@);
        let ghost tf = |k: Seq<char>| theme_diags(k);
        let ghost ts = entry_keys(self.theme@);
        let n = self.theme.len();
        let mut i: usize = 0;
        assert(d + flat_map(ts.take(0), tf) =~= d);
        while i < n
            invariant
                n == self.theme@.len(),
                ts == entry_keys(self.theme@),
                i <= n,
                all_warnings(out@),
                diag_views(out@) == d + flat_map(ts.take(i as int), tf),
                tf == (|k: Seq<char>| theme_diags(k)),
            decreases n - i,
        {
            proof {
                lemma_flat_map_step(ts, i as int, tf);
            }
            let ghost before = diag_views(out@);
            let k = self.theme[i].0.as_str();
            if !allowed_theme_token_exec(k) {
                let m = text3("Theme token '", k, "' is not allowlisted and will be ignored.");
                push_warning(&mut out, "unknown_theme_token", m);
            } else {
                assert(before + Seq::<DiagnosticView>::empty() =~= before);
            }
            assert(diag_views(out@) =~= d + flat_map(ts.take(i + 1), tf));
            i = i + 1;
        }
        assert(ts.take(n as int) =~= ts);
        let ghost e = diag_views(out@);
        let ghost wf = |w: WidgetTypeDefinition| widget_diags(w);
        let n = self.widgets.len();
        let mut i: usize = 0;
        assert(e + flat_map(self.widgets@.take(0), wf) =~= e);
        while i < n
            invariant
                n == self.widgets@.len(),
                i <= n,
                all_warnings(out@),
                diag_views(out@) == e + flat_map(self.widgets@.take(i as int), wf),
                wf == (|w: WidgetTypeDefinition| widget_diags(w)),
            decreases n - i,
        {
            proof {
                lemma_flat_map_step(self.widgets@, i as int, wf);
            }
            widget_warnings(&mut out, &self.widgets[i]);
            assert(diag_views(out@) =~= e + flat_map(self.widgets@.take(i + 1), wf));
            i = i + 1;
        }
        assert(self.widgets@.take(n as int) =~= self.widgets@);
        out
    }
}

// ---------------------------------------------------------------------------
// Checks
// ---------------------------------------------------------------------------

/// The first key, in order, that would make a widget load arbitrary code.
pub open spec fn first_runtime_key(keys: Seq<Seq<char>>) -> Option<Seq<char>>
    decreases keys.len(),
{
    if keys.len() == 0 {
        None
    } else if runtime_keys().contains(keys[0]) {
        Some(keys[0])
    } else {
        first_runtime_key(keys.drop_first())
    }
}

/// Why the keys of a part are refused, if they are.
pub open spec fn runtime_key_error(keys: Seq<Seq<char>>, context: Seq<char>) -> Option<Seq<char>> {
    match first_runtime_key(keys) {
        Some(k) => Some("Module schema "@ + context + " may not reference arbitrary '"@ + k + "'."@),
        None => None,
    }
}

fn reject_runtime_keys(extra: &Vec<(String, SchemaValue)>, context: &str) -> (r: Result<(), String>)
    ensures
        match runtime_key_error(entry_keys(extra@), context@) {
            Some(e) => r matches Err(x) && x@ == e,
            None => r is Ok,
        },
{
    let ghost ks = entry_keys(extra@);
    let n = extra.len();
    let mut i: usize = 0;
    assert(ks.skip(0) =~= ks);
    while i < n
        invariant
            n == extra@.len(),
            ks == entry_keys(extra@),
            i <= n,
            first_runtime_key(ks) == first_runtime_key(ks.skip(i as int)),
        decreases n - i,
    {
        assert(ks.skip(i as int)[0] == extra@[i as int].0@);
        assert(ks.skip(i as int).drop_first() =~= ks.skip(i + 1));
        let k = extra[i].0.as_str();
        if is_runtime_key(k) {
            return Err(text5("Module schema ", context, " may not reference arbitrary '", k, "'."));
        }
        i = i + 1;
    }
    assert(ks.skip(n as int) =~= Seq::<Seq<char>>::empty());
    Ok(())
}

/// Why a widget size is refused, if it is.
pub open spec fn size_error(z: WidgetSizeDefinition, widget_id: Seq<char>) -> Option<Seq<char>> {
    if z.width == 0 || z.height == 0 || z.width > 7 || z.height > 3 {
        Some("Widget type '"@ + widget_id + "' size must fit the 1..7 by 1..3 dashboard grid."@)
    } else {
        None
    }
}

impl WidgetSizeDefinition {
    /// Checks that a size fits the dashboard grid.
    pub fn validate(&self, widget_id: &str) -> (r: Result<(), String>)
        ensures
            match size_error(*self, widget_id@) {
                Some(e) => r matches Err(x) && x@ == e,
                None => r is Ok,
            },
    {
        if self.width == 0 || self.height == 0 || self.width > 7 || self.height > 3 {
            return Err(text3("Widget type '", widget_id, "' size must fit the 1..7 by 1..3 dashboard grid."));
        }
        Ok(())
    }
}

/// Whether a default value points at a remote URL.
pub open spec fn looks_like_remote_url(v: Seq<char>) -> bool {
    let l = ascii_lowercase(trim(v));
    crate::text::has_prefix(l, "http://"@) || crate::text::has_prefix(l, "https://"@)
}

/// Whether a default value has the kind its configuration type asks for.
pub open spec fn default_fits(field_type: Seq<char>, v: SchemaValue) -> bool {
    if field_type == "text"@ || field_type == "date_range"@ || field_type == "date range"@ || field_type == "enum"@ {
        v is Text
    } else if field_type == "number"@ {
        v is Number
    } else if field_type == "boolean"@ {
        v is Bool
    } else if field_type == "tags"@ {
        v matches SchemaValue::Array { all_text, .. } && all_text
    } else {
        false
    }
}

/// Why the default of a configuration field is refused, if it is.
pub open spec fn config_default_error(
    widget_id: Seq<char>,
    field_id: Seq<char>,
    field_type: Seq<char>,
    v: SchemaValue,
) -> Option<Seq<char>> {
    if !default_fits(field_type, v) {
        Some(
            "Widget type '"@ + widget_id + "' config field '"@ + field_id + "' default does not match type '"@
                + field_type + "'."@,
        )
    } else if v matches SchemaValue::Text(t) && looks_like_remote_url(t@) {
        Some(
            "Widget type '"@ + widget_id + "' config field '"@ + field_id
                + "' default may not reference a remote URL."@,
        )
    } else {
        None
    }
}

fn validate_config_default(widget_id: &str, field_id: &str, field_type: &str, value: &SchemaValue) -> (r:
    Result<(), String>)
    ensures
        match config_default_error(widget_id@, field_id@, field_type@, *value) {
            Some(e) => r matches Err(x) && x@ == e,
            None => r is Ok,
        },
{
    let t = chars_of(field_type);
    let valid = if eq_str(t.as_slice(), "text") || eq_str(t.as_slice(), "date_range") || eq_str(
        t.as_slice(),
        "date range",
    ) || eq_str(t.as_slice(), "enum") {
        matches!(value, SchemaValue::Text(_))
    } else if eq_str(t.as_slice(), "number") {
        matches!(value, SchemaValue::Number(_))
    } else if eq_str(t.as_slice(), "boolean") {
        matches!(value, SchemaValue::Bool(_))
    } else if eq_str(t.as_slice(), "tags") {
        match value {
            SchemaValue::Array { all_text, .. } => *all_text,
            _ => false,
        }
    } else {
        false
    };
    if !valid {
        let mut m = chars_of("Widget type '");
        append_str(&mut m, widget_id);
        append_str(&mut m, "' config field '");
        append_str(&mut m, field_id);
        append_str(&mut m, "' default does not match type '");
        append_str(&mut m, field_type);
        append_str(&mut m, "'.");
        return Err(string_of(m.as_slice()));
    }
    match value {
        SchemaValue::Text(s) => {
            let c = chars_of(s.as_str());
            let l = ascii_lowercase_exec(trim_exec(c.as_slice()).as_slice());
            if crate::text::starts_with_str(l.as_slice(), "http://") || crate::text::starts_with_str(
                l.as_slice(),
                "https://",
            ) {
                return Err(text5(
                    "Widget type '",
                    widget_id,
                    "' config field '",
                    field_id,
                    "' default may not reference a remote URL.",
                ));
            }
        },
        _ => {},
    }
    Ok(())
}

/// Why a configuration field of a widget is refused, if it is.
pub open spec fn config_field_error(
    widget_id: Seq<char>,
    field_id: Seq<char>,
    c: WidgetConfigFieldDefinition,
) -> Option<Seq<char>> {
    let prefix = "Widget type '"@ + widget_id + "' config field '"@ + field_id;
    if !widget_config_types().contains(c.field_type@) {
        Some(prefix + "' uses unsupported type '"@ + c.field_type@ + "'."@)
    } else if c.field_type@ == "enum"@ && c.options@.len() == 0 {
        Some("Widget type '"@ + widget_id + "' enum config field '"@ + field_id + "' must declare options."@)
    } else if c.default_value matches Some(v) && config_default_error(widget_id, field_id, c.field_type@, v) is Some {
        config_default_error(widget_id, field_id, c.field_type@, c.default_value->0)
    } else if c.min matches Some(v) && !(v is Number) {
        Some(prefix + "' min must be numeric."@)
    } else if c.max matches Some(v) && !(v is Number) {
        Some(prefix + "' max must be numeric."@)
    } else if c.min is Some && c.max is Some && c.min_above_max {
        Some(prefix + "' min must not exceed max."@)
    } else {
        runtime_key_error(
            entry_keys(c.extra@),
            "widget type '"@ + widget_id + "' config field '"@ + field_id + "'"@,
        )
    }
}

impl WidgetConfigFieldDefinition {
    /// Checks a configuration field of a widget type.
    pub fn validate(&self, widget_id: &str, field_id: &str) -> (r: Result<(), String>)
        ensures
            match config_field_error(widget_id@, field_id@, *self) {
                Some(e) => r matches Err(x) && x@ == e,
                None => r is Ok,
            },
    {
        let prefix = text3("Widget type '", widget_id, "' config field '");
        let mut pf = chars_of(prefix.as_str());
        append_str(&mut pf, field_id);
        let ft = chars_of(self.field_type.as_str());
        if !allowed_widget_config_type(self.field_type.as_str()) {
            let mut m = pf;
            append_str(&mut m, "' uses unsupported type '");
            append_str(&mut m, self.field_type.as_str());
            append_str(&mut m, "'.");
            return Err(string_of(m.as_slice()));
        }
        if eq_str(ft.as_slice(), "enum") && self.options.len() == 0 {
            return Err(text5(
                "Widget type '",
                widget_id,
                "' enum config field '",
                field_id,
                "' must declare options.",
            ));
        }
        match &self.default_value {
            Some(v) => {
                match validate_config_default(widget_id, field_id, self.field_type.as_str(), v) {
                    Err(e) => {
                        return Err(e);
                    },
                    Ok(()) => {},
                }
            },
            None => {},
        }
        match &self.min {
            Some(SchemaValue::Number(_)) => {},
            Some(_) => {
                let mut m = pf;
                append_str(&mut m, "' min must be numeric.");
                return Err(string_of(m.as_slice()));
            },
            None => {},
        }
        match &self.max {
            Some(SchemaValue::Number(_)) => {},
            Some(_) => {
                let mut m = pf;
                append_str(&mut m, "' max must be numeric.");
                return Err(string_of(m.as_slice()));
            },
            None => {},
        }
        if self.min.is_some() && self.max.is_some() && self.min_above_max {
            let mut m = pf;
            append_str(&mut m, "' min must not exceed max.");
            return Err(string_of(m.as_slice()));
        }
        let context = text5("widget type '", widget_id, "' config field '", field_id, "'");
        reject_runtime_keys(&self.extra, context.as_str())
    }
}

use crate::theme::{first_some, lemma_first_some_step};

/// Why a configuration field entry of a widget is refused, if it is.
pub open spec fn config_entry_error(widget_id: Seq<char>, e: (String, WidgetConfigFieldDefinition)) -> Option<Seq<char>> {
    if !safe_field_name(e.0@) {
        Some("Widget type '"@ + widget_id + "' config field '"@ + e.0@ + "' is not safe."@)
    } else {
        config_field_error(widget_id, e.0@, e.1)
    }
}

/// Why a widget type of a module is refused, if it is.
pub open spec fn widget_error(w: WidgetTypeDefinition, module_id: Seq<char>) -> Option<Seq<char>> {
    let id = w.id@;
    let pre = "Widget type '"@ + id;
    if !safe_widget_id(id) {
        Some(pre + "' is not safe."@)
    } else if w.module_id@ != module_id {
        Some(pre + "' must be owned by module '"@ + module_id + "'."@)
    } else if !crate::text::has_prefix(id, module_id + "."@) {
        Some(pre + "' must be prefixed with '"@ + module_id + "."@ + "'."@)
    } else if trim(w.label@).len() == 0 {
        Some(pre + "' must include a label."@)
    } else if !widget_renderer_ids().contains(w.renderer_id@) {
        Some(pre + "' uses unsupported renderer '"@ + w.renderer_id@ + "'."@)
    } else if size_error(w.default_size, id) is Some {
        size_error(w.default_size, id)
    } else if w.allowed_sizes@.len() == 0 {
        Some(pre + "' must declare at least one allowed size."@)
    } else if !w.allowed_sizes@.contains(w.default_size) {
        Some(pre + "' default size must be included in allowed sizes."@)
    } else if first_some(w.allowed_sizes@.map_values(|z: WidgetSizeDefinition| size_error(z, id))) is Some {
        first_some(w.allowed_sizes@.map_values(|z: WidgetSizeDefinition| size_error(z, id)))
    } else if runtime_key_error(entry_keys(w.extra@), "widget type '"@ + id + "'"@) is Some {
        runtime_key_error(entry_keys(w.extra@), "widget type '"@ + id + "'"@)
    } else {
        first_some(
            w.config_schema@.map_values(|e: (String, WidgetConfigFieldDefinition)| config_entry_error(id, e)),
        )
    }
}

fn check_sizes(sizes: &Vec<WidgetSizeDefinition>, id: &str) -> (r: Result<(), String>)
    ensures
        match first_some(sizes@.map_values(|z: WidgetSizeDefinition| size_error(z, id@))) {
            Some(e) => r matches Err(x) && x@ == e,
            None => r is Ok,
        },
{
    let ghost es = sizes@.map_values(|z: WidgetSizeDefinition| size_error(z, id@));
    let n = sizes.len();
    let mut i: usize = 0;
    assert(es.skip(0) =~= es);
    while i < n
        invariant
            n == sizes@.len(),
            es == sizes@.map_values(|z: WidgetSizeDefinition| size_error(z, id@)),
            i <= n,
            first_some(es) == first_some(es.skip(i as int)),
        decreases n - i,
    {
        assert(es.skip(i as int)[0] == es[i as int]);
        match sizes[i].validate(id) {
            Err(e) => {
                return Err(e);
            },
            Ok(()) => {},
        }
        proof {
            lemma_first_some_step(es, i as int);
        }
        i = i + 1;
    }
    assert(es.skip(n as int) =~= Seq::<Option<Seq<char>>>::empty());
    Ok(())
}

fn check_config_fields(fields: &Vec<(String, WidgetConfigFieldDefinition)>, id: &str) -> (r: Result<(), String>)
    ensures
        match first_some(fields@.map_values(|e: (String, WidgetConfigFieldDefinition)| config_entry_error(id@, e))) {
            Some(e) => r matches Err(x) && x@ == e,
            None => r is Ok,
        },
{
    let ghost es = fields@.map_values(|e: (String, WidgetConfigFieldDefinition)| config_entry_error(id@, e));
    let n = fields.len();
    let mut i: usize = 0;
    assert(es.skip(0) =~= es);
    while i < n
        invariant
            n == fields@.len(),
            es == fields@.map_values(|e: (String, WidgetConfigFieldDefinition)| config_entry_error(id@, e)),
            i <= n,
            first_some(es) == first_some(es.skip(i as int)),
        decreases n - i,
    {
        assert(es.skip(i as int)[0] == es[i as int]);
        let fid = fields[i].0.as_str();
        if !safe_field_name_exec(fid) {
            return Err(text5("Widget type '", id, "' config field '", fid, "' is not safe."));
        }
        match fields[i].1.validate(id, fid) {
            Err(e) => {
                return Err(e);
            },
            Ok(()) => {},
        }
        proof {
            lemma_first_some_step(es, i as int);
        }
        i = i + 1;
    }
    assert(es.skip(n as int) =~= Seq::<Option<Seq<char>>>::empty());
    Ok(())
}

fn sizes_contain(sizes: &Vec<WidgetSizeDefinition>, z: WidgetSizeDefinition) -> (r: bool)
    ensures
        r == sizes@.contains(z),
{
    let n = sizes.len();
    let mut i: usize = 0;
    while i < n
        invariant
            n == sizes@.len(),
            i <= n,
            forall|j: int| 0 <= j < i ==> sizes@[j] != z,
        decreases n - i,
    {
        if sizes[i].width == z.width && sizes[i].height == z.height {
            assert(sizes@[i as int] == z);
            return true;
        }
        i = i + 1;
    }
    false
}

impl WidgetTypeDefinition {
    /// Checks a widget type of a module: its ID, owner, label, renderer,
    /// sizes, keys and configuration fields.
    pub fn validate(&self, module_id: &str) -> (r: Result<(), String>)
        ensures
            match widget_error(*self, module_id@) {
                Some(e) => r matches Err(x) && x@ == e,
                None => r is Ok,
            },
    {
        let id = self.id.as_str();
        if !safe_widget_id_exec(id) {
            return Err(text3("Widget type '", id, "' is not safe."));
        }
        let mc = chars_of(self.module_id.as_str());
        if !eq_str(mc.as_slice(), module_id) {
            return Err(text5("Widget type '", id, "' must be owned by module '", module_id, "'."));
        }
        let mut prefix = chars_of(module_id);
        append_str(&mut prefix, ".");
        let idc = chars_of(id);
        if !crate::text::starts_with(idc.as_slice(), prefix.as_slice()) {
            return Err(text5("Widget type '", id, "' must be prefixed with '", string_of(prefix.as_slice()).as_str(), "'."));
        }
        let lc = chars_of(self.label.as_str());
        if trim_exec(lc.as_slice()).len() == 0 {
            return Err(text3("Widget type '", id, "' must include a label."));
        }
        if !allowed_widget_renderer_id(self.renderer_id.as_str()) {
            return Err(text5("Widget type '", id, "' uses unsupported renderer '", self.renderer_id.as_str(), "'."));
        }
        match self.default_size.validate(id) {
            Err(e) => {
                return Err(e);
            },
            Ok(()) => {},
        }
        if self.allowed_sizes.len() == 0 {
            return Err(text3("Widget type '", id, "' must declare at least one allowed size."));
        }
        if !sizes_contain(&self.allowed_sizes, self.default_size) {
            return Err(text3("Widget type '", id, "' default size must be included in allowed sizes."));
        }
        match check_sizes(&self.allowed_sizes, id) {
            Err(e) => {
                return Err(e);
            },
            Ok(()) => {},
        }
        let context = text3("widget type '", id, "'");
        match reject_runtime_keys(&self.extra, context.as_str()) {
            Err(e) => {
                return Err(e);
            },
            Ok(()) => {},
        }
        check_config_fields(&self.config_schema, id)
    }
}

/// Why a path of a schema is refused, if it is.
pub open spec fn path_error(label: Seq<char>, value: Seq<char>) -> Option<Seq<char>> {
    if trim(value).len() == 0 || crate::text::contains(value, ".."@) || crate::text::has_prefix(value, "/"@)
        || crate::text::has_prefix(value, "\\"@) || crate::text::contains(value, ":"@) {
        Some("Module schema "@ + label + " '"@ + value + "' is not vault-relative and safe."@)
    } else {
        None
    }
}

fn validate_vault_relative_path(label: &str, value: &str) -> (r: Result<(), String>)
    ensures
        match path_error(label@, value@) {
            Some(e) => r matches Err(x) && x@ == e,
            None => r is Ok,
        },
{
    let v = chars_of(value);
    if trim_exec(v.as_slice()).len() == 0 || crate::text::contains_str(v.as_slice(), "..")
        || crate::text::starts_with_str(v.as_slice(), "/") || crate::text::starts_with_str(
        v.as_slice(),
        "\\",
    ) || crate::text::contains_str(v.as_slice(), ":") {
        return Err(text5("Module schema ", label, " '", value, "' is not vault-relative and safe."));
    }
    Ok(())
}

/// Why an alias of a field is refused, if it is.
pub open spec fn alias_error(a: Seq<char>) -> Option<Seq<char>> {
    if !safe_field_name(a) {
        Some("Module schema alias '"@ + a + "' is not safe."@)
    } else {
        None
    }
}

/// Why a field of a schema is refused, if it is.
pub open spec fn schema_field_error(f: ModuleSchemaField) -> Option<Seq<char>> {
    let id = f.id@;
    if !safe_field_name(id) {
        Some("Module schema field '"@ + id + "' is not safe."@)
    } else if first_some(string_views(f.aliases@).map_values(|a: Seq<char>| alias_error(a))) is Some {
        first_some(string_views(f.aliases@).map_values(|a: Seq<char>| alias_error(a)))
    } else if f.source matches Some(src) && !safe_source(src@) {
        Some("Module schema field '"@ + id + "' uses unsupported source '"@ + f.source->0@ + "'."@)
    } else if is_enum_field(crate::theme::opt_string_view(f.field_type)) && f.options@.len() == 0 {
        Some("Enum module schema field '"@ + id + "' must declare options."@)
    } else if is_enum_field(crate::theme::opt_string_view(f.field_type)) && (default_text(
        f.default_value,
    ) matches Some(d) && !enum_option_matches(string_views(f.options@), d)) {
        Some(
            "Default value '"@ + default_text(f.default_value)->0 + "' for enum field '"@ + id
                + "' must match an option."@,
        )
    } else {
        None
    }
}

/// The kinds a module may be.
pub open spec fn module_kinds() -> Seq<Seq<char>> {
    seq!["system"@, "starter"@, "optional"@]
}

/// Why a view of a schema is refused, if it is.
pub open spec fn schema_view_error(v: ModuleSchemaView) -> Option<Seq<char>> {
    if view_ids().contains(view_id(v)) {
        None
    } else {
        Some("Module schema view '"@ + view_id(v) + "' is not allowlisted."@)
    }
}

/// Why the top-level entries of a module schema are refused, if they are:
/// its version, IDs, kind, paths and default view, in that order.
pub open spec fn schema_head_error(s: ModuleSchema) -> Option<Seq<char>> {
    if s.schema_version == 0 {
        Some("Module schema version must be greater than zero."@)
    } else if !safe_identifier(s.module_id@) || !safe_identifier(s.entity_type@) {
        Some("Module schema IDs must be lowercase safe identifiers."@)
    } else if s.kind matches Some(k) && !module_kinds().contains(k@) {
        Some("Invalid module schema kind '"@ + s.kind->0@ + "'."@)
    } else if s.data_path matches Some(p) && path_error("data_path"@, p@) is Some {
        path_error("data_path"@, s.data_path->0@)
    } else if s.index_path matches Some(p) && path_error("index_path"@, p@) is Some {
        path_error("index_path"@, s.index_path->0@)
    } else if s.default_view matches Some(v) && !view_ids().contains(v@) {
        Some("Default view '"@ + s.default_view->0@ + "' is not allowlisted."@)
    } else {
        None
    }
}

/// Why a module schema is refused, if it is: its top-level entries, then its
/// fields, views and widgets, in that order.
pub open spec fn schema_error(s: ModuleSchema) -> Option<Seq<char>> {
    match schema_head_error(s) {
        Some(e) => Some(e),
        None => match first_some(s.fields@.map_values(|f: ModuleSchemaField| schema_field_error(f))) {
            Some(e) => Some(e),
            None => match first_some(s.views@.map_values(|v: ModuleSchemaView| schema_view_error(v))) {
                Some(e) => Some(e),
                None => first_some(
                    s.widgets@.map_values(|w: WidgetTypeDefinition| widget_error(w, s.module_id@)),
                ),
            },
        },
    }
}

fn check_aliases(aliases: &Vec<String>) -> (r: Result<(), String>)
    ensures
        match first_some(string_views(aliases@).map_values(|a: Seq<char>| alias_error(a))) {
            Some(e) => r matches Err(x) && x@ == e,
            None => r is Ok,
        },
{
    let ghost es = string_views(aliases@).map_values(|a: Seq<char>| alias_error(a));
    let n = aliases.len();
    let mut i: usize = 0;
    assert(es.skip(0) =~= es);
    while i < n
        invariant
            n == aliases@.len(),
            es == string_views(aliases@).map_values(|a: Seq<char>| alias_error(a)),
            i <= n,
            first_some(es) == first_some(es.skip(i as int)),
        decreases n - i,
    {
        assert(es.skip(i as int)[0] == es[i as int]);
        let a = aliases[i].as_str();
        if !safe_field_name_exec(a) {
            return Err(text3("Module schema alias '", a, "' is not safe."));
        }
        proof {
            lemma_first_some_step(es, i as int);
        }
        i = i + 1;
    }
    assert(es.skip(n as int) =~= Seq::<Option<Seq<char>>>::empty());
    Ok(())
}

fn check_schema_field(f: &ModuleSchemaField) -> (r: Result<(), String>)
    ensures
        match schema_field_error(*f) {
            Some(e) => r matches Err(x) && x@ == e,
            None => r is Ok,
        },
{
    let id = f.id.as_str();
    if !safe_field_name_exec(id) {
        return Err(text3("Module schema field '", id, "' is not safe."));
    }
    match check_aliases(&f.aliases) {
        Err(e) => {
            return Err(e);
        },
        Ok(()) => {},
    }
    match &f.source {
        Some(src) => {
            if !safe_source_exec(src.as_str()) {
                return Err(text5("Module schema field '", id, "' uses unsupported source '", src.as_str(), "'."));
            }
        },
        None => {},
    }
    if is_enum_field_exec(f) {
        if f.options.len() == 0 {
            return Err(text3("Enum module schema field '", id, "' must declare options."));
        }
        match field_default_string(f) {
            Some(d) => {
                let dc = chars_of(d.as_str());
                if !enum_option_matches_exec(&f.options, dc.as_slice()) {
                    return Err(text5("Default value '", d.as_str(), "' for enum field '", id, "' must match an option."));
                }
            },
            None => {},
        }
    }
    Ok(())
}

impl ModuleSchema {
    /// Checks a module schema.
    pub fn validate(&self) -> (r: Result<(), String>)
        ensures
            match schema_error(*self) {
                Some(e) => r matches Err(x) && x@ == e,
                None => r is Ok,
            },
    {
        if self.schema_version == 0 {
            return Err(owned("Module schema version must be greater than zero."));
        }
        if !safe_identifier_exec(self.module_id.as_str()) || !safe_identifier_exec(self.entity_type.as_str()) {
            return Err(owned("Module schema IDs must be lowercase safe identifiers."));
        }
        match &self.kind {
            Some(k) => {
                let kinds = vec!["system", "starter", "optional"];
                assert(kinds@.map_values(|s: &str| s@) =~= module_kinds());
                if !one_of(k.as_str(), &kinds) {
                    return Err(text3("Invalid module schema kind '", k.as_str(), "'."));
                }
            },
            None => {},
        }
        match &self.data_path {
            Some(p) => {
                match validate_vault_relative_path("data_path", p.as_str()) {
                    Err(e) => {
                        return Err(e);
                    },
                    Ok(()) => {},
                }
            },
            None => {},
        }
        match &self.index_path {
            Some(p) => {
                match validate_vault_relative_path("index_path", p.as_str()) {
                    Err(e) => {
                        return Err(e);
                    },
                    Ok(()) => {},
                }
            },
            None => {},
        }
        match &self.default_view {
            Some(v) => {
                if !allowed_view_id(v.as_str()) {
                    return Err(text3("Default view '", v.as_str(), "' is not allowlisted."));
                }
            },
            None => {},
        }
        let ghost fe = self.fields@.map_values(|f: ModuleSchemaField| schema_field_error(f));
        let n = self.fields.len();
        let mut i: usize = 0;
        assert(fe.skip(0) =~= fe);
        while i < n
            invariant
                n == self.fields@.len(),
                fe == self.fields@.map_values(|f: ModuleSchemaField| schema_field_error(f)),
                schema_head_error(*self) is None,
                i <= n,
                first_some(fe) == first_some(fe.skip(i as int)),
            decreases n - i,
        {
            assert(fe.skip(i as int)[0] == fe[i as int]);
            match check_schema_field(&self.fields[i]) {
                Err(e) => {
                    return Err(e);
                },
                Ok(()) => {},
            }
            proof {
                lemma_first_some_step(fe, i as int);
            }
            i = i + 1;
        }
        assert(fe.skip(n as int) =~= Seq::<Option<Seq<char>>>::empty());
        let ghost ve = self.views@.map_values(|v: ModuleSchemaView| schema_view_error(v));
        let n = self.views.len();
        let mut i: usize = 0;
        assert(ve.skip(0) =~= ve);
        while i < n
            invariant
                n == self.views@.len(),
                ve == self.views@.map_values(|v: ModuleSchemaView| schema_view_error(v)),
                schema_head_error(*self) is None,
                first_some(self.fields@.map_values(|f: ModuleSchemaField| schema_field_error(f))) is None,
                i <= n,
                first_some(ve) == first_some(ve.skip(i as int)),
            decreases n - i,
        {
            assert(ve.skip(i as int)[0] == ve[i as int]);
            let id = view_id_exec(&self.views[i]);
            if !allowed_view_id(id) {
                return Err(text3("Module schema view '", id, "' is not allowlisted."));
            }
            proof {
                lemma_first_some_step(ve, i as int);
            }
            i = i + 1;
        }
        assert(ve.skip(n as int) =~= Seq::<Option<Seq<char>>>::empty());
        let ghost we = self.widgets@.map_values(|w: WidgetTypeDefinition| widget_error(w, self.module_id@));
        let n = self.widgets.len();
        let mut i: usize = 0;
        assert(we.skip(0) =~= we);
        while i < n
            invariant
                n == self.widgets@.len(),
                we == self.widgets@.map_values(|w: WidgetTypeDefinition| widget_error(w, self.module_id@)),
                schema_head_error(*self) is None,
                first_some(self.fields@.map_values(|f: ModuleSchemaField| schema_field_error(f))) is None,
                first_some(self.views@.map_values(|v: ModuleSchemaView| schema_view_error(v))) is None,
                i <= n,
                first_some(we) == first_some(we.skip(i as int)),
            decreases n - i,
        {
            assert(we.skip(i as int)[0] == we[i as int]);
            match self.widgets[i].validate(self.module_id.as_str()) {
                Err(e) => {
                    return Err(e);
                },
                Ok(()) => {},
            }
            proof {
                lemma_first_some_step(we, i as int);
            }
            i = i + 1;
        }
        assert(we.skip(n as int) =~= Seq::<Option<Seq<char>>>::empty());
        Ok(())
    }
}

// ---------------------------------------------------------------------------
// Field values and descriptors
// ---------------------------------------------------------------------------

use crate::markdown_parser::{ParsedEntityContract, ParsedFieldDescriptor};

/// The value of the first entry, in order, whose key normalises like `c`.
pub open spec fn normalized_lookup(fields: Seq<(String, String)>, c: Seq<char>) -> Option<Seq<char>>
    decreases fields.len(),
{
    if fields.len() == 0 {
        None
    } else if normalized_field(fields[0].0@) == normalized_field(c) {
        Some(fields[0].1@)
    } else {
        normalized_lookup(fields.drop_first(), c)
    }
}

/// The value of a candidate name: its own entry, else one whose key
/// normalises like it.
pub open spec fn candidate_value(fields: Seq<(String, String)>, c: Seq<char>) -> Option<Seq<char>> {
    let m = crate::keyed::text_map(fields);
    if m.dom().contains(c) {
        Some(m[c])
    } else {
        normalized_lookup(fields, c)
    }
}

/// The value of the first candidate that has one.
pub open spec fn first_candidate_value(fields: Seq<(String, String)>, cs: Seq<Seq<char>>) -> Option<Seq<char>>
    decreases cs.len(),
{
    if cs.len() == 0 {
        None
    } else if candidate_value(fields, cs[0]) is Some {
        candidate_value(fields, cs[0])
    } else {
        first_candidate_value(fields, cs.drop_first())
    }
}

/// The value a schema field has in a parsed entity: tags and relationships
/// joined, nothing for the body and notes, else the value of its ID or of
/// its first alias that has one.
pub open spec fn field_value_of(e: ParsedEntityContract, field_id: Seq<char>, aliases: Seq<Seq<char>>) -> Seq<char> {
    let n = normalized_field(field_id);
    if n == "tags"@ {
        join(string_views(e.tags@), ", "@)
    } else if n == "relationships"@ || n == "related"@ {
        join(string_views(e.relationships@), ", "@)
    } else if n == "body"@ || n == "notes"@ {
        seq![]
    } else {
        match first_candidate_value(e.fields@, seq![field_id] + aliases) {
            Some(v) => v,
            None => seq![],
        }
    }
}

fn normalized_lookup_exec(fields: &Vec<(String, String)>, c: &str) -> (r: Option<String>)
    ensures
        crate::theme::opt_string_view(r) == normalized_lookup(fields@, c@),
{
    let nc = normalize_field(c);
    let n = fields.len();
    let mut i: usize = 0;
    assert(fields@.skip(0) =~= fields@);
    while i < n
        invariant
            n == fields@.len(),
            nc@ == normalized_field(c@),
            i <= n,
            normalized_lookup(fields@, c@) == normalized_lookup(fields@.skip(i as int), c@),
        decreases n - i,
    {
        assert(fields@.skip(i as int)[0] == fields@[i as int]);
        assert(fields@.skip(i as int).drop_first() =~= fields@.skip(i + 1));
        let nk = normalize_field(fields[i].0.as_str());
        if crate::text::eq_str_string(&nk, &nc) {
            return Some(fields[i].1.clone());
        }
        i = i + 1;
    }
    None
}

fn strings_joined(v: &Vec<String>, sep: &str) -> (r: String)
    ensures
        r@ == join(string_views(v@), sep@),
{
    let mut parts: Vec<Vec<char>> = Vec::new();
    let n = v.len();
    let mut i: usize = 0;
    while i < n
        invariant
            n == v@.len(),
            i <= n,
            views(parts@) == string_views(v@).take(i as int),
        decreases n - i,
    {
        let c = chars_of(v[i].as_str());
        let ghost before = views(parts@);
        parts.push(c);
        assert(views(parts@) =~= before.push(v@[i as int]@));
        assert(string_views(v@).take(i + 1) =~= string_views(v@).take(i as int).push(v@[i as int]@));
        i = i + 1;
    }
    assert(string_views(v@).take(n as int) =~= string_views(v@));
    let s = chars_of(sep);
    let j = join_exec(&parts, s.as_slice());
    string_of(j.as_slice())
}

/// The value a schema field has in a parsed entity.
pub fn field_value(e: &ParsedEntityContract, field_id: &str, aliases: &Vec<String>) -> (r: String)
    ensures
        r@ == field_value_of(*e, field_id@, string_views(aliases@)),
{
    let n = normalize_field(field_id);
    let nc = chars_of(n.as_str());
    if eq_str(nc.as_slice(), "tags") {
        return strings_joined(&e.tags, ", ");
    }
    if eq_str(nc.as_slice(), "relationships") || eq_str(nc.as_slice(), "related") {
        return strings_joined(&e.relationships, ", ");
    }
    if eq_str(nc.as_slice(), "body") || eq_str(nc.as_slice(), "notes") {
        return String::new();
    }
    match first_candidate_exec(&e.fields, field_id, aliases) {
        Some(v) => v,
        None => String::new(),
    }
}

fn candidate_value_exec(fields: &Vec<(String, String)>, c: &str) -> (r: Option<String>)
    ensures
        crate::theme::opt_string_view(r) == candidate_value(fields@, c@),
{
    match crate::keyed::lookup(fields, c) {
        Some(v) => Some(v),
        None => normalized_lookup_exec(fields, c),
    }
}

fn first_candidate_exec(fields: &Vec<(String, String)>, field_id: &str, aliases: &Vec<String>) -> (r:
    Option<String>)
    ensures
        crate::theme::opt_string_view(r) == first_candidate_value(
            fields@,
            seq![field_id@] + string_views(aliases@),
        ),
{
    let ghost cs = seq![field_id@] + string_views(aliases@);
    assert(cs[0] == field_id@);
    assert(cs.drop_first() =~= string_views(aliases@));
    match candidate_value_exec(fields, field_id) {
        Some(v) => {
            return Some(v);
        },
        None => {},
    }
    let ghost rest = string_views(aliases@);
    let m = aliases.len();
    let mut i: usize = 0;
    assert(rest.skip(0) =~= rest);
    while i < m
        invariant
            m == aliases@.len(),
            rest == string_views(aliases@),
            i <= m,
            first_candidate_value(fields@, seq![field_id@] + string_views(aliases@))
                == first_candidate_value(fields@, rest),
            first_candidate_value(fields@, rest) == first_candidate_value(fields@, rest.skip(i as int)),
        decreases m - i,
    {
        assert(rest.skip(i as int)[0] == aliases@[i as int]@);
        assert(rest.skip(i as int).drop_first() =~= rest.skip(i + 1));
        match candidate_value_exec(fields, aliases[i].as_str()) {
            Some(v) => {
                return Some(v);
            },
            None => {},
        }
        i = i + 1;
    }
    assert(rest.skip(m as int) =~= Seq::<Seq<char>>::empty());
    None
}

/// A descriptor as plain values.
pub struct DescriptorView {
    pub id: Seq<char>,
    pub label: Seq<char>,
    pub field_type: Seq<char>,
    pub renderer_id: Seq<char>,
    pub value: Seq<char>,
    pub editable: bool,
    pub aliases: Seq<Seq<char>>,
    pub options: Seq<Seq<char>>,
    pub default_value: Option<Seq<char>>,
    pub warnings: Seq<Seq<char>>,
}

/// The view of a descriptor.
pub open spec fn descriptor_view(d: ParsedFieldDescriptor) -> DescriptorView {
    DescriptorView {
        id: d.id@,
        label: d.label@,
        field_type: d.field_type@,
        renderer_id: d.renderer_id@,
        value: d.value@,
        editable: d.editable,
        aliases: string_views(d.aliases@),
        options: string_views(d.options@),
        default_value: crate::theme::opt_string_view(d.default_value),
        warnings: string_views(d.warnings@),
    }
}

/// The descriptor of a schema field for a parsed entity: its value (or its
/// default where the value is blank), its label, type and renderer, and a
/// warning where an enum value is outside the options.
pub open spec fn schema_descriptor(f: ModuleSchemaField, e: ParsedEntityContract) -> DescriptorView {
    let raw = field_value_of(e, f.id@, string_views(f.aliases@));
    let value = if trim(raw).len() == 0 {
        match default_text(f.default_value) {
            Some(d) => d,
            None => seq![],
        }
    } else {
        raw
    };
    DescriptorView {
        id: f.id@,
        label: match f.label {
            Some(l) => l@,
            None => field_label(f.id@),
        },
        field_type: match f.field_type {
            Some(t) => t@,
            None => "text"@,
        },
        renderer_id: renderer_for(
            crate::theme::opt_string_view(f.renderer),
            crate::theme::opt_string_view(f.field_type),
        ),
        value,
        editable: false,
        aliases: string_views(f.aliases@),
        options: string_views(f.options@),
        default_value: default_text(f.default_value),
        warnings: if is_enum_field(crate::theme::opt_string_view(f.field_type)) && trim(value).len() != 0
            && !enum_option_matches(string_views(f.options@), value) {
            seq![
                "Value '"@ + value + "' is outside the approved options for field '"@ + f.id@
                    + "' and is preserved."@,
            ]
        } else {
            seq![]
        },
    }
}

/// The descriptor of an entity field no schema field covers.
pub open spec fn unknown_descriptor(key: Seq<char>, value: Seq<char>) -> DescriptorView {
    DescriptorView {
        id: key,
        label: field_label(key),
        field_type: "unknown"@,
        renderer_id: "generic"@,
        value,
        editable: false,
        aliases: seq![],
        options: seq![],
        default_value: None,
        warnings: seq!["Unknown field '"@ + key + "' is preserved as fallback content."@],
    }
}

/// The normalised names of a schema field: its ID, then its aliases.
pub open spec fn field_names(f: ModuleSchemaField) -> Seq<Seq<char>> {
    seq![normalized_field(f.id@)] + string_views(f.aliases@).map_values(|a: Seq<char>| normalized_field(a))
}

/// The normalised names a schema's fields cover, in order.
pub open spec fn covered_names(fields: Seq<ModuleSchemaField>) -> Seq<Seq<char>>
    decreases fields.len(),
{
    if fields.len() == 0 {
        seq![]
    } else {
        covered_names(fields.drop_last()) + field_names(fields.last())
    }
}

/// The descriptors of the entity fields no schema field covers, in order.
pub open spec fn unknown_descriptors(entries: Seq<(String, String)>, covered: Seq<Seq<char>>) -> Seq<DescriptorView>
    decreases entries.len(),
{
    if entries.len() == 0 {
        seq![]
    } else {
        let rest = unknown_descriptors(entries.drop_last(), covered);
        let e = entries.last();
        if covered.contains(normalized_field(e.0@)) {
            rest
        } else {
            rest.push(unknown_descriptor(e.0@, e.1@))
        }
    }
}

/// The views of descriptors.
pub open spec fn descriptor_views(v: Seq<ParsedFieldDescriptor>) -> Seq<DescriptorView> {
    v.map_values(|d: ParsedFieldDescriptor| descriptor_view(d))
}

fn copy_strings(v: &Vec<String>) -> (r: Vec<String>)
    ensures
        string_views(r@) == string_views(v@),
{
    let mut r: Vec<String> = Vec::new();
    let n = v.len();
    let mut i: usize = 0;
    while i < n
        invariant
            n == v@.len(),
            i <= n,
            string_views(r@) == string_views(v@).take(i as int),
        decreases n - i,
    {
        let ghost before = string_views(r@);
        r.push(v[i].clone());
        assert(string_views(r@) =~= before.push(v@[i as int]@));
        assert(string_views(v@).take(i + 1) =~= string_views(v@).take(i as int).push(v@[i as int]@));
        i = i + 1;
    }
    assert(string_views(v@).take(n as int) =~= string_views(v@));
    r
}

fn push_field_names(cov: &mut Vec<String>, f: &ModuleSchemaField)
    ensures
        string_views(final(cov)@) == string_views(old(cov)@) + field_names(*f),
{
    let ghost start = string_views(cov@);
    cov.push(normalize_field(f.id.as_str()));
    let ghost mid = string_views(cov@);
    assert(mid =~= start + seq![normalized_field(f.id@)]);
    let ghost al = string_views(f.aliases@).map_values(|a: Seq<char>| normalized_field(a));
    let n = f.aliases.len();
    let mut i: usize = 0;
    while i < n
        invariant
            n == f.aliases@.len(),
            al == string_views(f.aliases@).map_values(|a: Seq<char>| normalized_field(a)),
            i <= n,
            string_views(cov@) == mid + al.take(i as int),
        decreases n - i,
    {
        let ghost before = string_views(cov@);
        let x = normalize_field(f.aliases[i].as_str());
        cov.push(x);
        assert(string_views(cov@) =~= before.push(x@));
        assert(al.take(i + 1) =~= al.take(i as int).push(al[i as int]));
        i = i + 1;
    }
    assert(al.take(n as int) =~= al);
    assert(string_views(cov@) =~= start + field_names(*f));
}

fn covered_names_exec(fields: &Vec<ModuleSchemaField>) -> (r: Vec<String>)
    ensures
        string_views(r@) == covered_names(fields@),
{
    let mut cov: Vec<String> = Vec::new();
    let n = fields.len();
    let mut i: usize = 0;
    assert(string_views(cov@) =~= covered_names(fields@.take(0)));
    while i < n
        invariant
            n == fields@.len(),
            i <= n,
            string_views(cov@) == covered_names(fields@.take(i as int)),
        decreases n - i,
    {
        assert(fields@.take(i + 1).drop_last() =~= fields@.take(i as int));
        push_field_names(&mut cov, &fields[i]);
        i = i + 1;
    }
    assert(fields@.take(n as int) =~= fields@);
    cov
}

pub(crate) fn contains_text(v: &Vec<String>, x: &String) -> (r: bool)
    ensures
        r == string_views(v@).contains(x@),
{
    let n = v.len();
    let mut i: usize = 0;
    while i < n
        invariant
            n == v@.len(),
            i <= n,
            forall|j: int| 0 <= j < i ==> v@[j]@ != x@,
        decreases n - i,
    {
        if crate::text::eq_str_string(&v[i], x) {
            assert(string_views(v@)[i as int] == x@);
            return true;
        }
        i = i + 1;
    }
    false
}

fn schema_descriptor_exec(f: &ModuleSchemaField, e: &ParsedEntityContract) -> (r: ParsedFieldDescriptor)
    ensures
        descriptor_view(r) == schema_descriptor(*f, *e),
{
    let raw = field_value(e, f.id.as_str(), &f.aliases);
    let rc = chars_of(raw.as_str());
    let value = if trim_exec(rc.as_slice()).len() == 0 {
        match field_default_string(f) {
            Some(d) => d,
            None => String::new(),
        }
    } else {
        raw
    };
    let vc = chars_of(value.as_str());
    let mut warnings: Vec<String> = Vec::new();
    if is_enum_field_exec(f) && trim_exec(vc.as_slice()).len() != 0 && !enum_option_matches_exec(
        &f.options,
        vc.as_slice(),
    ) {
        warnings.push(text5(
            "Value '",
            value.as_str(),
            "' is outside the approved options for field '",
            f.id.as_str(),
            "' and is preserved.",
        ));
    }
    let ghost w = string_views(warnings@);
    assert(w =~= schema_descriptor(*f, *e).warnings);
    let label = match &f.label {
        Some(l) => l.clone(),
        None => field_label_exec(f.id.as_str()),
    };
    let field_type = match &f.field_type {
        Some(t) => t.clone(),
        None => owned("text"),
    };
    let renderer: Option<&str> = match &f.renderer {
        Some(r) => Some(r.as_str()),
        None => None,
    };
    let ftype: Option<&str> = match &f.field_type {
        Some(t) => Some(t.as_str()),
        None => None,
    };
    assert(crate::theme::opt_view(renderer) == crate::theme::opt_string_view(f.renderer));
    assert(crate::theme::opt_view(ftype) == crate::theme::opt_string_view(f.field_type));
    let d = ParsedFieldDescriptor {
        id: f.id.clone(),
        label,
        field_type,
        renderer_id: renderer_id(renderer, ftype),
        value,
        editable: false,
        aliases: copy_strings(&f.aliases),
        options: copy_strings(&f.options),
        default_value: field_default_string(f),
        warnings,
    };
    assert(descriptor_view(d) =~= schema_descriptor(*f, *e));
    d
}

fn unknown_descriptor_exec(key: &String, value: &String) -> (r: ParsedFieldDescriptor)
    ensures
        descriptor_view(r) == unknown_descriptor(key@, value@),
{
    let mut warnings: Vec<String> = Vec::new();
    warnings.push(text3("Unknown field '", key.as_str(), "' is preserved as fallback content."));
    let d = ParsedFieldDescriptor {
        id: key.clone(),
        label: field_label_exec(key.as_str()),
        field_type: owned("unknown"),
        renderer_id: owned("generic"),
        value: value.clone(),
        editable: false,
        aliases: Vec::new(),
        options: Vec::new(),
        default_value: None,
        warnings,
    };
    assert(string_views(d.aliases@) =~= Seq::<Seq<char>>::empty());
    assert(string_views(d.options@) =~= Seq::<Seq<char>>::empty());
    assert(string_views(d.warnings@) =~= seq![
        "Unknown field '"@ + key@ + "' is preserved as fallback content."@
    ]);
    d
}

impl ModuleSchema {
    /// The descriptors of a parsed entity's fields: one per schema field, then
    /// one per entity field that no schema field covers.
    pub fn field_descriptors(&self, entity: &ParsedEntityContract) -> (r: Vec<ParsedFieldDescriptor>)
        ensures
            descriptor_views(r@) == self.fields@.map_values(
                |f: ModuleSchemaField| schema_descriptor(f, *entity),
            ) + unknown_descriptors(entity.fields@, covered_names(self.fields@)),
    {
        let mut out: Vec<ParsedFieldDescriptor> = Vec::new();
        let ghost sd = self.fields@.map_values(|f: ModuleSchemaField| schema_descriptor(f, *entity));
        let n = self.fields.len();
        let mut i: usize = 0;
        while i < n
            invariant
                n == self.fields@.len(),
                sd == self.fields@.map_values(|f: ModuleSchemaField| schema_descriptor(f, *entity)),
                i <= n,
                descriptor_views(out@) == sd.take(i as int),
            decreases n - i,
        {
            let d = schema_descriptor_exec(&self.fields[i], entity);
            let ghost before = descriptor_views(out@);
            out.push(d);
            assert(descriptor_views(out@) =~= before.push(descriptor_view(d)));
            assert(sd.take(i + 1) =~= sd.take(i as int).push(sd[i as int]));
            i = i + 1;
        }
        assert(sd.take(n as int) =~= sd);
        let cov = covered_names_exec(&self.fields);
        let ghost cv = covered_names(self.fields@);
        let m = entity.fields.len();
        let mut j: usize = 0;
        assert(unknown_descriptors(entity.fields@.take(0), cv) =~= Seq::<DescriptorView>::empty());
        assert(descriptor_views(out@) =~= sd + unknown_descriptors(entity.fields@.take(0), cv));
        while j < m
            invariant
                m == entity.fields@.len(),
                string_views(cov@) == cv,
                j <= m,
                descriptor_views(out@) == sd + unknown_descriptors(entity.fields@.take(j as int), cv),
            decreases m - j,
        {
            let ghost t = entity.fields@.take(j + 1);
            assert(t.drop_last() =~= entity.fields@.take(j as int));
            assert(t.last() == entity.fields@[j as int]);
            let nk = normalize_field(entity.fields[j].0.as_str());
            if !contains_text(&cov, &nk) {
                let d = unknown_descriptor_exec(&entity.fields[j].0, &entity.fields[j].1);
                let ghost before = descriptor_views(out@);
                out.push(d);
                assert(descriptor_views(out@) =~= before.push(descriptor_view(d)));
            }
            j = j + 1;
        }
        assert(entity.fields@.take(m as int) =~= entity.fields@);
        out
    }
}


// ---------------------------------------------------------------------------
// Allowed field names and schema warnings for a parsed entity
// ---------------------------------------------------------------------------

/// The field names a schema allows: those its fields cover, and the names
/// every entity may carry.
pub open spec fn allowed_names(fields: Seq<ModuleSchemaField>) -> Seq<Seq<char>> {
    covered_names(fields) + seq!["title"@, "name"@, "body"@, "tags"@, "relationships"@, "related"@]
}

/// Texts in strictly increasing order.
pub open spec fn strictly_increasing(v: Seq<Seq<char>>) -> bool {
    forall|i: int, j: int| 0 <= i < j < v.len() ==> crate::ordered::text_lt(#[trigger] v[i], #[trigger] v[j])
}

fn insert_names(m: &mut crate::ordered::OrderedMap<bool>, names: &Vec<String>)
    requires
        old(m).wf(),
    ensures
        final(m).wf(),
        final(m)@.dom() == old(m)@.dom() + string_views(names@).to_set(),
{
    let ghost start = m@.dom();
    let n = names.len();
    let mut i: usize = 0;
    while i < n
        invariant
            n == names@.len(),
            i <= n,
            m.wf(),
            m@.dom() == start + string_views(names@).take(i as int).to_set(),
        decreases n - i,
    {
        let ghost before = m@.dom();
        m.insert(names[i].clone(), true);
        assert(string_views(names@).take(i + 1) =~= string_views(names@).take(i as int).push(names@[i as int]@));
        proof {
            string_views(names@).take(i as int).lemma_push_to_set_commute(names@[i as int]@);
        }
        assert(m@.dom() =~= start + string_views(names@).take(i + 1).to_set());
        i = i + 1;
    }
    assert(string_views(names@).take(n as int) =~= string_views(names@));
}

fn ordered_keys(m: &crate::ordered::OrderedMap<bool>) -> (r: Vec<String>)
    requires
        m.wf(),
    ensures
        string_views(r@) == m.keys(),
        strictly_increasing(string_views(r@)),
        string_views(r@).to_set() == m@.dom(),
{
    let mut r: Vec<String> = Vec::new();
    let n = m.entries.len();
    let mut i: usize = 0;
    while i < n
        invariant
            n == m.entries@.len(),
            i <= n,
            string_views(r@) == m.keys().take(i as int),
        decreases n - i,
    {
        let ghost before = string_views(r@);
        r.push(m.entries[i].0.clone());
        assert(string_views(r@) =~= before.push(m.entries@[i as int].0@));
        assert(m.keys().take(i + 1) =~= m.keys().take(i as int).push(m.keys()[i as int]));
        i = i + 1;
    }
    assert(m.keys().take(n as int) =~= m.keys());
    assert forall|a: int, b: int| 0 <= a < b < string_views(r@).len() implies crate::ordered::text_lt(
        #[trigger] string_views(r@)[a],
        #[trigger] string_views(r@)[b],
    ) by {
        assert(string_views(r@)[a] == m.entries@[a].0@);
        assert(string_views(r@)[b] == m.entries@[b].0@);
    }
    assert forall|k: Seq<char>| string_views(r@).to_set().contains(k) <==> m@.dom().contains(k) by {
        crate::ordered::lemma_keyed_dom(m.entries@, k);
        if m@.dom().contains(k) {
            let i = choose|i: int| 0 <= i < m.entries@.len() && #[trigger] m.entries@[i].0@ == k;
            assert(string_views(r@)[i] == k);
        }
        if string_views(r@).to_set().contains(k) {
            let i = choose|i: int| 0 <= i < string_views(r@).len() && string_views(r@)[i] == k;
            assert(m.entries@[i].0@ == k);
        }
    }
    assert(string_views(r@).to_set() =~= m@.dom());
    r
}

impl ModuleSchema {
    /// The field names the schema allows, each once, in order: the
    /// normalised IDs and aliases of its fields, and `title`, `name`,
    /// `body`, `tags`, `relationships` and `related`.
    pub fn allowed_field_names(&self) -> (r: Vec<String>)
        ensures
            string_views(r@).to_set() == allowed_names(self.fields@).to_set(),
            strictly_increasing(string_views(r@)),
    {
        let mut names = covered_names_exec(&self.fields);
        let ghost cov = string_views(names@);
        names.push(owned("title"));
        names.push(owned("name"));
        names.push(owned("body"));
        names.push(owned("tags"));
        names.push(owned("relationships"));
        names.push(owned("related"));
        assert(string_views(names@) =~= allowed_names(self.fields@));
        let mut m: crate::ordered::OrderedMap<bool> = crate::ordered::OrderedMap::new();
        insert_names(&mut m, &names);
        assert(m@.dom() =~= allowed_names(self.fields@).to_set());
        ordered_keys(&m)
    }
}


/// How `{:?}` writes an optional text.
pub uninterp spec fn debug_text(o: Option<Seq<char>>) -> Seq<char>;

/// Writes an optional text as `{:?}` does (std's `Debug` for
/// `Option<String>`).  The result is named, not stated: it is
/// `debug_text` of the text.
#[verifier::external_body]
fn debug_option(o: &Option<String>) -> (r: String)
    ensures
        r@ == debug_text(crate::theme::opt_string_view(*o)),
{
    format!("{:?}", o)
}

fn text6(a: &str, b: &str, c: &str, d: &str, e: &str, f: &str) -> (r: String)
    ensures
        r@ == a@ + b@ + c@ + d@ + e@ + f@,
{
    let mut v = chars_of(a);
    append_str(&mut v, b);
    append_str(&mut v, c);
    append_str(&mut v, d);
    append_str(&mut v, e);
    append_str(&mut v, f);
    string_of(v.as_slice())
}

/// The warnings a schema field raises for an entity: a required field that
/// is blank (but for `title` and `name`), and an enum value outside the
/// options.
pub open spec fn field_check_warnings(f: ModuleSchemaField, e: ParsedEntityContract, et: Seq<char>) -> Seq<Seq<char>> {
    let value = field_value_of(e, f.id@, string_views(f.aliases@));
    let nid = normalized_field(f.id@);
    (if f.required && trim(value).len() == 0 && nid != "title"@ && nid != "name"@ {
        seq!["Required "@ + et + " field '"@ + f.id@ + "' is missing and the original Markdown is preserved."@]
    } else {
        Seq::<Seq<char>>::empty()
    }) + (if is_enum_field(crate::theme::opt_string_view(f.field_type)) && trim(value).len() != 0
        && !enum_option_matches(string_views(f.options@), value) {
        seq![et + " field '"@ + f.id@ + "' value '"@ + value
            + "' is outside the approved options and the original Markdown is preserved."@]
    } else {
        Seq::<Seq<char>>::empty()
    })
}

/// The warnings of all schema fields, in order.
pub open spec fn fields_check_warnings(fs: Seq<ModuleSchemaField>, e: ParsedEntityContract, et: Seq<char>) -> Seq<Seq<char>>
    decreases fs.len(),
{
    if fs.len() == 0 {
        seq![]
    } else {
        fields_check_warnings(fs.drop_last(), e, et) + field_check_warnings(fs.last(), e, et)
    }
}

/// The warnings of entity fields the schema does not allow, in order.
pub open spec fn unknown_field_warnings(entries: Seq<(String, String)>, allowed: Seq<Seq<char>>, et: Seq<char>) -> Seq<Seq<char>>
    decreases entries.len(),
{
    if entries.len() == 0 {
        seq![]
    } else {
        let rest = unknown_field_warnings(entries.drop_last(), allowed, et);
        let k = entries.last().0@;
        if allowed.contains(normalized_field(k)) {
            rest
        } else {
            rest.push("Unknown "@ + et + " field '"@ + k + "' is preserved as fallback content."@)
        }
    }
}

/// The warnings a schema raises for a parsed entity, given how the
/// entity's module ID and entity type are written with `{:?}`.
pub open spec fn entity_schema_warnings(
    s: ModuleSchema,
    e: ParsedEntityContract,
    module_debug: Seq<char>,
    type_debug: Seq<char>,
) -> Seq<Seq<char>> {
    (if crate::theme::opt_string_view(e.module_id) != Some(s.module_id@) {
        seq!["Parsed module "@ + module_debug + " does not match schema module "@ + s.module_id@ + "."@]
    } else {
        Seq::<Seq<char>>::empty()
    }) + (if crate::theme::opt_string_view(e.entity_type) != Some(s.entity_type@) {
        seq!["Parsed entity type "@ + type_debug + " does not match schema entity type "@ + s.entity_type@ + "."@]
    } else {
        Seq::<Seq<char>>::empty()
    }) + fields_check_warnings(s.fields@, e, s.entity_type@) + unknown_field_warnings(
        e.fields@,
        allowed_names(s.fields@),
        s.entity_type@,
    )
}

fn push_all(out: &mut Vec<String>, more: Vec<String>)
    ensures
        string_views(final(out)@) == string_views(old(out)@) + string_views(more@),
{
    let ghost start = string_views(out@);
    let n = more.len();
    let mut i: usize = 0;
    while i < n
        invariant
            n == more@.len(),
            i <= n,
            string_views(out@) == start + string_views(more@).take(i as int),
        decreases n - i,
    {
        let ghost before = string_views(out@);
        out.push(more[i].clone());
        assert(string_views(out@) =~= before.push(more@[i as int]@));
        assert(string_views(more@).take(i + 1) =~= string_views(more@).take(i as int).push(more@[i as int]@));
        i = i + 1;
    }
    assert(string_views(more@).take(n as int) =~= string_views(more@));
}

fn field_check_exec(f: &ModuleSchemaField, e: &ParsedEntityContract, et: &str) -> (r: Vec<String>)
    ensures
        string_views(r@) == field_check_warnings(*f, *e, et@),
{
    let mut out: Vec<String> = Vec::new();
    let value = field_value(e, f.id.as_str(), &f.aliases);
    let vc = chars_of(value.as_str());
    let blank = trim_exec(vc.as_slice()).len() == 0;
    let nid = normalize_field(f.id.as_str());
    let nc = chars_of(nid.as_str());
    if f.required && blank && !eq_str(nc.as_slice(), "title") && !eq_str(nc.as_slice(), "name") {
        out.push(text5("Required ", et, " field '", f.id.as_str(), "' is missing and the original Markdown is preserved."));
    }
    let ghost first = string_views(out@);
    if is_enum_field_exec(f) && !blank && !enum_option_matches_exec(&f.options, vc.as_slice()) {
        out.push(text6(et, " field '", f.id.as_str(), "' value '", value.as_str(),
            "' is outside the approved options and the original Markdown is preserved."));
    }
    assert(string_views(out@) =~= field_check_warnings(*f, *e, et@));
    out
}

impl ModuleSchema {
    /// The warnings the schema raises for a parsed entity, given how the
    /// entity's module ID and entity type are written with `{:?}`: a
    /// module or entity type that differs from the schema's, required
    /// fields left blank, enum values outside their options, and fields
    /// the schema does not allow.
    pub fn entity_warnings(&self, entity: &ParsedEntityContract, module_debug: &str, type_debug: &str) -> (r: Vec<String>)
        ensures
            string_views(r@) == entity_schema_warnings(*self, *entity, module_debug@, type_debug@),
    {
        let mut out: Vec<String> = Vec::new();
        let same_module = match &entity.module_id {
            Some(m) => crate::text::eq_str_string(m, &self.module_id),
            None => false,
        };
        if !same_module {
            out.push(text5("Parsed module ", module_debug, " does not match schema module ", self.module_id.as_str(), "."));
        }
        let same_type = match &entity.entity_type {
            Some(t) => crate::text::eq_str_string(t, &self.entity_type),
            None => false,
        };
        if !same_type {
            out.push(text5("Parsed entity type ", type_debug, " does not match schema entity type ", self.entity_type.as_str(), "."));
        }
        let ghost head = string_views(out@);
        let et = self.entity_type.as_str();
        let n = self.fields.len();
        let mut i: usize = 0;
        assert(self.fields@.take(0) =~= Seq::<ModuleSchemaField>::empty());
        while i < n
            invariant
                n == self.fields@.len(),
                i <= n,
                et@ == self.entity_type@,
                string_views(out@) == head + fields_check_warnings(self.fields@.take(i as int), *entity, et@),
            decreases n - i,
        {
            let w = field_check_exec(&self.fields[i], entity, et);
            push_all(&mut out, w);
            assert(self.fields@.take(i + 1).drop_last() =~= self.fields@.take(i as int));
            i = i + 1;
        }
        assert(self.fields@.take(n as int) =~= self.fields@);
        let ghost mid = string_views(out@);
        let allowed = self.allowed_field_names();
        let ghost al = allowed_names(self.fields@);
        let m = entity.fields.len();
        let mut j: usize = 0;
        assert(entity.fields@.take(0) =~= Seq::<(String, String)>::empty());
        while j < m
            invariant
                m == entity.fields@.len(),
                j <= m,
                et@ == self.entity_type@,
                al == allowed_names(self.fields@),
                string_views(allowed@).to_set() == al.to_set(),
                string_views(out@) == mid + unknown_field_warnings(entity.fields@.take(j as int), al, et@),
            decreases m - j,
        {
            let k = &entity.fields[j].0;
            let nk = normalize_field(k.as_str());
            let found = contains_text(&allowed, &nk);
            assert(string_views(allowed@).to_set().contains(nk@) == string_views(allowed@).contains(nk@));
            assert(al.to_set().contains(nk@) == al.contains(nk@));
            assert(entity.fields@.take(j + 1).drop_last() =~= entity.fields@.take(j as int));
            assert(entity.fields@.take(j + 1).last() == entity.fields@[j as int]);
            if !found {
                let ghost before = string_views(out@);
                out.push(text5("Unknown ", et, " field '", k.as_str(), "' is preserved as fallback content."));
                assert(string_views(out@) =~= before.push(string_views(out@).last()));
            }
            j = j + 1;
        }
        assert(entity.fields@.take(m as int) =~= entity.fields@);
        out
    }
}

/// The field descriptors an entity holds once its module schema is applied:
/// none where the schema could not be loaded, else those of the schema's
/// fields and of the entity's other fields.
pub open spec fn descriptors_applied(e: ParsedEntityContract, schema: Result<ModuleSchema, String>) -> bool {
    match schema {
        Err(_) => e.field_descriptors@.len() == 0,
        Ok(s) => descriptor_views(e.field_descriptors@) == s.fields@.map_values(
            |f: ModuleSchemaField| schema_descriptor(f, e),
        ) + unknown_descriptors(e.fields@, covered_names(s.fields@)),
    }
}

/// The warnings a module schema gives about an entity of the given module
/// and type: why it could not be loaded, or its checks of the entity.
pub open spec fn schema_warnings_for(
    e: ParsedEntityContract,
    schema: Result<ModuleSchema, String>,
    module_id: Seq<char>,
    entity_type: Seq<char>,
) -> Seq<Seq<char>> {
    match schema {
        Err(x) => seq!["Module schema could not be loaded: "@ + x@],
        Ok(s) => entity_schema_warnings(s, e, debug_text(Some(module_id)), debug_text(Some(entity_type))),
    }
}

/// Gives a parsed entity the field descriptors of its module schema and
/// returns the schema's warnings about it.  `schema` is the outcome of
/// loading the schema; where it could not be loaded, the entity is left as
/// it is and the one warning says why.
pub fn apply_schema_descriptors(schema: Result<ModuleSchema, String>, entity: &mut ParsedEntityContract) -> (r: Result<Vec<String>, String>)
    ensures
        match schema {
            Err(e) => {
                &&& *final(entity) == *old(entity)
                &&& r matches Ok(w) && string_views(w@) == seq!["Module schema could not be loaded: "@ + e@]
            },
            Ok(s) => {
                &&& descriptor_views(final(entity).field_descriptors@) == s.fields@.map_values(
                    |f: ModuleSchemaField| schema_descriptor(f, *old(entity)),
                ) + unknown_descriptors(old(entity).fields@, covered_names(s.fields@))
                &&& final(entity).module_id == old(entity).module_id
                &&& final(entity).entity_type == old(entity).entity_type
                &&& final(entity).fields == old(entity).fields
                &&& final(entity).blocks == old(entity).blocks
                &&& final(entity).unknown_blocks == old(entity).unknown_blocks
                &&& final(entity).relationships == old(entity).relationships
                &&& final(entity).tags == old(entity).tags
                &&& final(entity).path == old(entity).path
                &&& final(entity).content_hash == old(entity).content_hash
                &&& r matches Ok(w) && string_views(w@) == entity_schema_warnings(
                    s,
                    *final(entity),
                    debug_text(crate::theme::opt_string_view(old(entity).module_id)),
                    debug_text(crate::theme::opt_string_view(old(entity).entity_type)),
                )
            },
        },
{
    match schema {
        Err(e) => {
            let mut w: Vec<String> = Vec::new();
            w.push(text3("Module schema could not be loaded: ", e.as_str(), ""));
            proof {
                reveal_strlit("");
            }
            assert(string_views(w@) =~= seq!["Module schema could not be loaded: "@ + e@]);
            Ok(w)
        },
        Ok(s) => {
            let d = s.field_descriptors(entity);
            entity.field_descriptors = d;
            let md = debug_option(&entity.module_id);
            let td = debug_option(&entity.entity_type);
            Ok(s.entity_warnings(entity, md.as_str(), td.as_str()))
        },
    }
}

impl ModuleSchema {
    /// Checks that a path names a module schema file: it must end with
    /// `module.schema.json`.
    pub fn check_schema_path(relative_path: &str) -> (r: Result<(), String>)
        ensures
            r is Ok <==> crate::text::has_suffix(relative_path@, "module.schema.json"@),
            r matches Err(e) ==> e@ == "Module schema path must point at module.schema.json."@,
    {
        let c = chars_of(relative_path);
        if crate::text::ends_with_str(c.as_slice(), "module.schema.json") {
            Ok(())
        } else {
            Err(owned("Module schema path must point at module.schema.json."))
        }
    }
}

} // verus!
