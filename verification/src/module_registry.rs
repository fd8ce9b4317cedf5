//! The module registry: the modules a vault knows, their checks, and how a
//! registry read from disk is repaired.
use vstd::prelude::*;
use crate::module_schema::{ModuleSchema, WidgetTypeDefinition};
use crate::text::{chars_of, eq_str, owned, string_views};
use crate::theme::opt_string_view;

verus! {

/// A module the registry lists.
pub struct ModuleDefinition {
    pub id: String,
    pub display_name: String,
    pub kind: String,
    pub document_type: String,
    pub default_path: String,
    pub schema_path: Option<String>,
    pub index_path: String,
    pub data_path: Option<String>,
    pub default_view: String,
    pub enabled_by_default: bool,
    pub enabled: bool,
    pub available: bool,
    pub installed: bool,
    pub storage_kind: String,
    pub capabilities: Vec<String>,
    pub implementation_status: String,
    pub schema_warnings: Vec<String>,
    pub schema_version: Option<u32>,
    pub schema_migration_version: Option<u32>,
    pub widget_types: Vec<WidgetTypeDefinition>,
}

/// The modules of a registry, in order.
pub struct RegistryState {
    pub modules: Vec<ModuleDefinition>,
}

/// A module as the registry logic reads it.
pub struct ModuleView {
    pub id: Seq<char>,
    pub display_name: Seq<char>,
    pub kind: Seq<char>,
    pub document_type: Seq<char>,
    pub default_path: Seq<char>,
    pub schema_path: Option<Seq<char>>,
    pub index_path: Seq<char>,
    pub data_path: Option<Seq<char>>,
    pub default_view: Seq<char>,
    pub enabled_by_default: bool,
    pub enabled: bool,
    pub available: bool,
    pub installed: bool,
    pub storage_kind: Seq<char>,
    pub capabilities: Seq<Seq<char>>,
    pub implementation_status: Seq<char>,
    pub schema_warnings: Seq<Seq<char>>,
    pub schema_version: Option<u32>,
    pub schema_migration_version: Option<u32>,
    pub widget_types: Seq<WidgetTypeDefinition>,
}

/// The view of a module.
pub open spec fn module_view(m: ModuleDefinition) -> ModuleView {
    ModuleView {
        id: m.id@,
        display_name: m.display_name@,
        kind: m.kind@,
        document_type: m.document_type@,
        default_path: m.default_path@,
        schema_path: opt_string_view(m.schema_path),
        index_path: m.index_path@,
        data_path: opt_string_view(m.data_path),
        default_view: m.default_view@,
        enabled_by_default: m.enabled_by_default,
        enabled: m.enabled,
        available: m.available,
        installed: m.installed,
        storage_kind: m.storage_kind@,
        capabilities: string_views(m.capabilities@),
        implementation_status: m.implementation_status@,
        schema_warnings: string_views(m.schema_warnings@),
        schema_version: m.schema_version,
        schema_migration_version: m.schema_migration_version,
        widget_types: m.widget_types@,
    }
}

/// The views of modules.
pub open spec fn module_views(ms: Seq<ModuleDefinition>) -> Seq<ModuleView> {
    ms.map_values(|m: ModuleDefinition| module_view(m))
}

/// The IDs of modules, in order.
pub open spec fn module_ids(ms: Seq<ModuleView>) -> Seq<Seq<char>> {
    ms.map_values(|m: ModuleView| m.id)
}

impl Default for ModuleDefinition {
    /// A module with empty texts, available and installed, disabled.
    fn default() -> (r: Self)
        ensures
            module_view(r) == (ModuleView {
                id: seq![],
                display_name: seq![],
                kind: seq![],
                document_type: seq![],
                default_path: seq![],
                schema_path: None,
                index_path: seq![],
                data_path: None,
                default_view: seq![],
                enabled_by_default: false,
                enabled: false,
                available: true,
                installed: true,
                storage_kind: seq![],
                capabilities: seq![],
                implementation_status: seq![],
                schema_warnings: seq![],
                schema_version: None,
                schema_migration_version: None,
                widget_types: seq![],
            }),
    {
        let r = ModuleDefinition {
            id: String::new(),
            display_name: String::new(),
            kind: String::new(),
            document_type: String::new(),
            default_path: String::new(),
            schema_path: None,
            index_path: String::new(),
            data_path: None,
            default_view: String::new(),
            enabled_by_default: false,
            enabled: false,
            available: true,
            installed: true,
            storage_kind: String::new(),
            capabilities: Vec::new(),
            implementation_status: String::new(),
            schema_warnings: Vec::new(),
            schema_version: None,
            schema_migration_version: None,
            widget_types: Vec::new(),
        };
        assert(string_views(r.capabilities@) =~= seq![]);
        assert(string_views(r.schema_warnings@) =~= seq![]);
        r
    }
}

/// A core module as shipped: available, installed, enabled as it is by
/// default, with no schema information yet.
pub open spec fn core_view(
    id: Seq<char>,
    display_name: Seq<char>,
    kind: Seq<char>,
    document_type: Seq<char>,
    default_path: Seq<char>,
    schema_path: Option<Seq<char>>,
    data_path: Option<Seq<char>>,
    default_view: Seq<char>,
    on: bool,
    storage_kind: Seq<char>,
    capabilities: Seq<Seq<char>>,
    implementation_status: Seq<char>,
) -> ModuleView {
    ModuleView {
        id,
        display_name,
        kind,
        document_type,
        default_path,
        schema_path,
        index_path: default_path,
        data_path,
        default_view,
        enabled_by_default: on,
        enabled: on,
        available: true,
        installed: true,
        storage_kind,
        capabilities,
        implementation_status,
        schema_warnings: seq![],
        schema_version: None,
        schema_migration_version: None,
        widget_types: seq![],
    }
}

/// The system modules.
pub open spec fn core_system_views() -> Seq<ModuleView> {
    seq![
        core_view("navigator"@, "Navigator"@, "system"@, "navigator"@, "modules/navigator/INDEX.md"@, None, None,
            "system"@, true, "hybrid_managed_markdown_document"@,
            seq!["graph_health"@, "backlinks"@, "search"@, "entity_upgrade"@], "implemented"@),
        core_view("trash"@, "Trash"@, "system"@, "trash"@, "modules/trash/INDEX.md"@, None, None,
            "system"@, true, "internal"@, seq![], "planned"@),
        core_view("archive"@, "Archive"@, "system"@, "archive"@, "modules/archive/INDEX.md"@, None, None,
            "system"@, true, "internal"@, seq![], "planned"@),
        core_view("settings"@, "Settings"@, "system"@, "settings"@, ".bentolifelayout/settings/INDEX.md"@, None,
            None, "system"@, true, "internal"@, seq![], "planned"@),
        core_view("vault"@, "Vault"@, "system"@, "vault"@, ".bentolifelayout/vault/INDEX.md"@, None, None,
            "system"@, true, "internal"@, seq![], "planned"@),
        core_view("themes"@, "Themes"@, "system"@, "themes"@, ".bentolifelayout/themes/INDEX.md"@, None, None,
            "system"@, true, "internal"@, seq![], "planned"@),
        core_view("architect"@, "Architect Mode"@, "system"@, "architect"@,
            ".bentolifelayout/architect/INDEX.md"@, None, None, "system"@, true, "internal"@, seq![],
            "planned"@),
    ]
}

/// The starter and optional modules.
pub open spec fn core_content_views() -> Seq<ModuleView> {
    seq![
        core_view("notes"@, "Notes"@, "starter"@, "note"@, "modules/notes/INDEX.md"@,
            Some("modules/notes/module.schema.json"@), Some("modules/notes/data"@), "cards"@, true,
            "per_entity_markdown_documents"@,
            seq!["create"@, "read"@, "update"@, "rename"@, "dashboard_layout"@], "implemented"@),
        core_view("todos"@, "Todos"@, "starter"@, "todos"@, "modules/todos/INDEX.md"@,
            Some("modules/todos/module.schema.json"@), Some("modules/todos/data"@), "cards"@, true,
            "per_entity_markdown_documents"@,
            seq!["parse_checkboxes"@, "create_task"@, "toggle_task"@, "dashboard_summary"@], "implemented"@),
        core_view("contacts"@, "Contacts"@, "optional"@, "contact"@, "modules/contacts/INDEX.md"@,
            Some("modules/contacts/module.schema.json"@), Some("modules/contacts/data"@), "cards"@, false,
            "per_entity_markdown_documents"@,
            seq!["markdown_friendly_records"@, "create_contact"@, "update_contact"@, "read_contacts"@,
                "tags"@, "relationship_fields"@, "dashboard_summary"@], "implemented"@),
        core_view("habits"@, "Habits"@, "optional"@, "habit"@, "modules/habits/INDEX.md"@,
            Some("modules/habits/module.schema.json"@), Some("modules/habits/data"@), "cards"@, false,
            "per_entity_markdown_documents"@,
            seq!["markdown_friendly_records"@, "create_habit"@, "update_habit"@, "daily_checkins"@,
                "streak_summary"@, "dashboard_summary"@], "implemented"@),
    ]
}

/// The modules every vault ships with, in order.
pub open spec fn core_module_views() -> Seq<ModuleView> {
    core_system_views() + core_content_views()
}

fn owned_all(v: &Vec<&'static str>) -> (r: Vec<String>)
    ensures
        string_views(r@) == v@.map_values(|s: &str| s@),
{
    let mut r: Vec<String> = Vec::new();
    let n = v.len();
    let mut i: usize = 0;
    while i < n
        invariant
            n == v@.len(),
            i <= n,
            string_views(r@) == v@.map_values(|s: &str| s@).take(i as int),
        decreases n - i,
    {
        let ghost before = string_views(r@);
        r.push(owned(v[i]));
        assert(string_views(r@) =~= before.push(v@[i as int]@));
        assert(v@.map_values(|s: &str| s@).take(i + 1) =~= v@.map_values(|s: &str| s@).take(i as int).push(
            v@[i as int]@,
        ));
        i = i + 1;
    }
    assert(v@.map_values(|s: &str| s@).take(n as int) =~= v@.map_values(|s: &str| s@));
    r
}

fn opt_owned(o: Option<&str>) -> (r: Option<String>)
    ensures
        opt_string_view(r) == (match o {
            Some(s) => Some(s@),
            None => None::<Seq<char>>,
        }),
{
    match o {
        Some(s) => Some(owned(s)),
        None => None,
    }
}

fn shipped_module(
    id: &str,
    display_name: &str,
    kind: &str,
    document_type: &str,
    default_path: &str,
    schema_path: Option<&str>,
    data_path: Option<&str>,
    default_view: &str,
    on: bool,
    storage_kind: &str,
    capabilities: &Vec<&'static str>,
    implementation_status: &str,
) -> (r: ModuleDefinition)
    ensures
        module_view(r) == core_view(
            id@,
            display_name@,
            kind@,
            document_type@,
            default_path@,
            match schema_path {
                Some(s) => Some(s@),
                None => None,
            },
            match data_path {
                Some(s) => Some(s@),
                None => None,
            },
            default_view@,
            on,
            storage_kind@,
            capabilities@.map_values(|s: &str| s@),
            implementation_status@,
        ),
{
    let r = ModuleDefinition {
        id: owned(id),
        display_name: owned(display_name),
        kind: owned(kind),
        document_type: owned(document_type),
        default_path: owned(default_path),
        schema_path: opt_owned(schema_path),
        index_path: owned(default_path),
        data_path: opt_owned(data_path),
        default_view: owned(default_view),
        enabled_by_default: on,
        enabled: on,
        available: true,
        installed: true,
        storage_kind: owned(storage_kind),
        capabilities: owned_all(capabilities),
        implementation_status: owned(implementation_status),
        schema_warnings: Vec::new(),
        schema_version: None,
        schema_migration_version: None,
        widget_types: Vec::new(),
    };
    assert(string_views(r.schema_warnings@) =~= seq![]);
    assert(r.widget_types@ =~= seq![]);
    r
}

fn core_system_modules() -> (r: Vec<ModuleDefinition>)
    ensures
        module_views(r@) == core_system_views(),
{
    let none: Vec<&'static str> = Vec::new();
    assert(none@.map_values(|s: &str| s@) =~= seq![]);
    let nav = vec!["graph_health", "backlinks", "search", "entity_upgrade"];
    assert(nav@.map_values(|s: &str| s@) =~= seq!["graph_health"@, "backlinks"@, "search"@, "entity_upgrade"@]);
    let mut r: Vec<ModuleDefinition> = Vec::new();
    r.push(shipped_module("navigator", "Navigator", "system", "navigator", "modules/navigator/INDEX.md", None, None,
        "system", true, "hybrid_managed_markdown_document", &nav, "implemented"));
    r.push(shipped_module("trash", "Trash", "system", "trash", "modules/trash/INDEX.md", None, None, "system", true,
        "internal", &none, "planned"));
    r.push(shipped_module("archive", "Archive", "system", "archive", "modules/archive/INDEX.md", None, None, "system",
        true, "internal", &none, "planned"));
    r.push(shipped_module("settings", "Settings", "system", "settings", ".bentolifelayout/settings/INDEX.md", None,
        None, "system", true, "internal", &none, "planned"));
    r.push(shipped_module("vault", "Vault", "system", "vault", ".bentolifelayout/vault/INDEX.md", None, None, "system",
        true, "internal", &none, "planned"));
    r.push(shipped_module("themes", "Themes", "system", "themes", ".bentolifelayout/themes/INDEX.md", None, None,
        "system", true, "internal", &none, "planned"));
    r.push(shipped_module("architect", "Architect Mode", "system", "architect", ".bentolifelayout/architect/INDEX.md",
        None, None, "system", true, "internal", &none, "planned"));
    assert(module_views(r@) =~= core_system_views());
    r
}

fn core_content_modules() -> (r: Vec<ModuleDefinition>)
    ensures
        module_views(r@) == core_content_views(),
{
    let notes = vec!["create", "read", "update", "rename", "dashboard_layout"];
    assert(notes@.map_values(|s: &str| s@) =~= seq!["create"@, "read"@, "update"@, "rename"@, "dashboard_layout"@]);
    let todos = vec!["parse_checkboxes", "create_task", "toggle_task", "dashboard_summary"];
    assert(todos@.map_values(|s: &str| s@) =~= seq![
        "parse_checkboxes"@, "create_task"@, "toggle_task"@, "dashboard_summary"@
    ]);
    let contacts = vec![
        "markdown_friendly_records", "create_contact", "update_contact", "read_contacts", "tags",
        "relationship_fields", "dashboard_summary",
    ];
    assert(contacts@.map_values(|s: &str| s@) =~= seq![
        "markdown_friendly_records"@, "create_contact"@, "update_contact"@, "read_contacts"@, "tags"@,
        "relationship_fields"@, "dashboard_summary"@
    ]);
    let habits = vec![
        "markdown_friendly_records", "create_habit", "update_habit", "daily_checkins", "streak_summary",
        "dashboard_summary",
    ];
    assert(habits@.map_values(|s: &str| s@) =~= seq![
        "markdown_friendly_records"@, "create_habit"@, "update_habit"@, "daily_checkins"@,
        "streak_summary"@, "dashboard_summary"@
    ]);
    let mut r: Vec<ModuleDefinition> = Vec::new();
    r.push(shipped_module("notes", "Notes", "starter", "note", "modules/notes/INDEX.md",
        Some("modules/notes/module.schema.json"), Some("modules/notes/data"), "cards", true,
        "per_entity_markdown_documents", &notes, "implemented"));
    r.push(shipped_module("todos", "Todos", "starter", "todos", "modules/todos/INDEX.md",
        Some("modules/todos/module.schema.json"), Some("modules/todos/data"), "cards", true,
        "per_entity_markdown_documents", &todos, "implemented"));
    r.push(shipped_module("contacts", "Contacts", "optional", "contact", "modules/contacts/INDEX.md",
        Some("modules/contacts/module.schema.json"), Some("modules/contacts/data"), "cards", false,
        "per_entity_markdown_documents", &contacts, "implemented"));
    r.push(shipped_module("habits", "Habits", "optional", "habit", "modules/habits/INDEX.md",
        Some("modules/habits/module.schema.json"), Some("modules/habits/data"), "cards", false,
        "per_entity_markdown_documents", &habits, "implemented"));
    assert(module_views(r@) =~= core_content_views());
    r
}

/// The built-in module list.
pub struct ModuleRegistry;

impl ModuleRegistry {
    /// The modules every vault ships with: seven system modules, the notes
    /// and todos starters, and the optional contacts and habits modules.
    pub fn core_modules() -> (r: Vec<ModuleDefinition>)
        ensures
            module_views(r@) == core_module_views(),
    {
        let mut r = core_system_modules();
        let mut c = core_content_modules();
        r.append(&mut c);
        assert(module_views(r@) =~= core_module_views());
        r
    }
}


// ---------------------------------------------------------------------------
// Checks
// ---------------------------------------------------------------------------

/// The canonical ID of a module: the legacy `todo` is `todos`.
pub open spec fn canonical_id(id: Seq<char>) -> Seq<char> {
    if id == "todo"@ {
        "todos"@
    } else {
        id
    }
}

/// The canonical ID of a module.
pub fn canonical_module_id(module_id: &str) -> (r: String)
    ensures
        r@ == canonical_id(module_id@),
{
    let c = chars_of(module_id);
    if eq_str(c.as_slice(), "todo") {
        owned("todos")
    } else {
        owned(module_id)
    }
}

/// A character a module ID may hold: a lowercase ASCII letter, a digit, `_`
/// or `-`.
pub open spec fn module_id_char(c: char) -> bool {
    ('a' <= c && c <= 'z') || ('0' <= c && c <= '9') || c == '_' || c == '-'
}

/// A module ID is not empty and holds only lowercase ASCII letters, digits,
/// `_` and `-`.
pub open spec fn safe_module_id(v: Seq<char>) -> bool {
    v.len() > 0 && forall|i: int| 0 <= i < v.len() ==> module_id_char(#[trigger] v[i])
}

/// Whether a module ID is safe.
pub fn safe_id(value: &str) -> (r: bool)
    ensures
        r == safe_module_id(value@),
{
    let c = chars_of(value);
    let n = c.len();
    if n == 0 {
        return false;
    }
    let mut i: usize = 0;
    while i < n
        invariant
            n == c@.len(),
            c@ == value@,
            i <= n,
            forall|j: int| 0 <= j < i ==> module_id_char(#[trigger] c@[j]),
        decreases n - i,
    {
        let ch = c[i];
        if !(('a' <= ch && ch <= 'z') || ('0' <= ch && ch <= '9') || ch == '_' || ch == '-') {
            return false;
        }
        i = i + 1;
    }
    true
}

/// The error of a registry path: it must not be blank, hold `..` or `:`,
/// or start with a slash or backslash, and it must be vault-relative.
pub open spec fn registry_path_error(rel: Seq<char>) -> Option<Seq<char>> {
    if crate::text::trim(rel).len() == 0 || crate::text::contains(rel, ".."@) || crate::text::has_prefix(rel, "/"@)
        || crate::text::has_prefix(rel, "\\"@) || rel.contains(':') {
        Some("Registry path '"@ + rel + "' is not vault-relative and safe."@)
    } else {
        match crate::storage::vault_relative_check(rel) {
            Err(e) => Some(e),
            Ok(_) => None,
        }
    }
}

fn text3(a: &str, b: &str, c: &str) -> (r: String)
    ensures
        r@ == a@ + b@ + c@,
{
    let mut v = chars_of(a);
    crate::text::append_str(&mut v, b);
    crate::text::append_str(&mut v, c);
    crate::text::string_of(v.as_slice())
}

fn text5(a: &str, b: &str, c: &str, d: &str, e: &str) -> (r: String)
    ensures
        r@ == a@ + b@ + c@ + d@ + e@,
{
    let mut v = chars_of(a);
    crate::text::append_str(&mut v, b);
    crate::text::append_str(&mut v, c);
    crate::text::append_str(&mut v, d);
    crate::text::append_str(&mut v, e);
    crate::text::string_of(v.as_slice())
}

fn validate_vault_path(vault_path: &str, relative_path: &str) -> (r: Result<(), String>)
    ensures
        match r {
            Ok(_) => registry_path_error(relative_path@) is None,
            Err(e) => registry_path_error(relative_path@) == Some(e@),
        },
{
    let c = chars_of(relative_path);
    let t = crate::text::trim_exec(c.as_slice());
    let colon = crate::text::find_char_from(c.as_slice(), ':', 0);
    proof {
        if colon is None {
            assert(!c@.contains(':'));
        }
    }
    if t.len() == 0 || crate::text::contains_str(c.as_slice(), "..") || crate::text::starts_with_str(c.as_slice(), "/")
        || crate::text::starts_with_str(c.as_slice(), "\\") || colon.is_some() {
        return Err(text3("Registry path '", relative_path, "' is not vault-relative and safe."));
    }
    match crate::storage::resolve_vault_relative_path(vault_path, relative_path) {
        Ok(_) => Ok(()),
        Err(e) => Err(e),
    }
}

/// The first problem of a module, given the IDs of the modules before it.
pub open spec fn module_error(m: ModuleView, earlier: Seq<Seq<char>>) -> Option<Seq<char>> {
    if !safe_module_id(m.id) {
        Some("Invalid module ID '"@ + m.id + "'."@)
    } else if earlier.contains(m.id) {
        Some("Duplicate module ID '"@ + m.id + "'."@)
    } else if !(m.kind == "system"@ || m.kind == "starter"@ || m.kind == "optional"@) {
        Some("Invalid module kind '"@ + m.kind + "' for "@ + m.id + "."@)
    } else if m.installed && !m.available {
        Some("Installed module "@ + m.id + " must also be available."@)
    } else if m.enabled && !m.installed {
        Some("Enabled module "@ + m.id + " must be installed."@)
    } else if registry_path_error(m.default_path) is Some {
        registry_path_error(m.default_path)
    } else if registry_path_error(m.index_path) is Some {
        registry_path_error(m.index_path)
    } else if m.schema_path is Some && registry_path_error(m.schema_path->0) is Some {
        registry_path_error(m.schema_path->0)
    } else if m.data_path is Some && registry_path_error(m.data_path->0) is Some {
        registry_path_error(m.data_path->0)
    } else if m.kind == "system"@ && !m.enabled {
        Some("System module "@ + m.id + " cannot be disabled."@)
    } else {
        None
    }
}

/// The first problem of a registry's modules, in order.
pub open spec fn registry_error(ms: Seq<ModuleView>) -> Option<Seq<char>>
    decreases ms.len(),
{
    if ms.len() == 0 {
        None
    } else {
        match registry_error(ms.drop_last()) {
            Some(e) => Some(e),
            None => module_error(ms.last(), module_ids(ms.drop_last())),
        }
    }
}

fn check_module(vault_path: &str, m: &ModuleDefinition, earlier: &Vec<String>) -> (r: Result<(), String>)
    ensures
        match r {
            Ok(_) => module_error(module_view(*m), string_views(earlier@)) is None,
            Err(e) => module_error(module_view(*m), string_views(earlier@)) == Some(e@),
        },
{
    if !safe_id(m.id.as_str()) {
        return Err(text3("Invalid module ID '", m.id.as_str(), "'."));
    }
    if crate::module_schema::contains_text(earlier, &m.id) {
        return Err(text3("Duplicate module ID '", m.id.as_str(), "'."));
    }
    let k = chars_of(m.kind.as_str());
    let system = eq_str(k.as_slice(), "system");
    if !(system || eq_str(k.as_slice(), "starter") || eq_str(k.as_slice(), "optional")) {
        return Err(text5("Invalid module kind '", m.kind.as_str(), "' for ", m.id.as_str(), "."));
    }
    if m.installed && !m.available {
        return Err(text3("Installed module ", m.id.as_str(), " must also be available."));
    }
    if m.enabled && !m.installed {
        return Err(text3("Enabled module ", m.id.as_str(), " must be installed."));
    }
    validate_vault_path(vault_path, m.default_path.as_str())?;
    validate_vault_path(vault_path, m.index_path.as_str())?;
    if let Some(p) = &m.schema_path {
        validate_vault_path(vault_path, p.as_str())?;
    }
    if let Some(p) = &m.data_path {
        validate_vault_path(vault_path, p.as_str())?;
    }
    if system && !m.enabled {
        return Err(text3("System module ", m.id.as_str(), " cannot be disabled."));
    }
    Ok(())
}

fn ids_of(ms: &Vec<ModuleDefinition>) -> (r: Vec<String>)
    ensures
        string_views(r@) == module_ids(module_views(ms@)),
{
    let mut r: Vec<String> = Vec::new();
    let n = ms.len();
    let mut i: usize = 0;
    while i < n
        invariant
            n == ms@.len(),
            i <= n,
            string_views(r@) == module_ids(module_views(ms@)).take(i as int),
        decreases n - i,
    {
        let ghost before = string_views(r@);
        r.push(ms[i].id.clone());
        assert(string_views(r@) =~= before.push(ms@[i as int].id@));
        assert(module_ids(module_views(ms@)).take(i + 1) =~= module_ids(module_views(ms@)).take(i as int).push(
            ms@[i as int].id@,
        ));
        i = i + 1;
    }
    assert(module_ids(module_views(ms@)).take(n as int) =~= module_ids(module_views(ms@)));
    r
}

/// Checks modules in order: safe and unique IDs, a known kind, installed
/// modules available and enabled modules installed, safe vault-relative
/// paths, and system modules enabled.
pub fn validate_modules(vault_path: &str, modules: &Vec<ModuleDefinition>) -> (r: Result<(), String>)
    ensures
        match r {
            Ok(_) => registry_error(module_views(modules@)) is None,
            Err(e) => registry_error(module_views(modules@)) == Some(e@),
        },
{
    let mut ids: Vec<String> = Vec::new();
    let n = modules.len();
    let mut i: usize = 0;
    let ghost mv = module_views(modules@);
    assert(mv.take(0) =~= Seq::<ModuleView>::empty());
    while i < n
        invariant
            n == modules@.len(),
            mv == module_views(modules@),
            i <= n,
            registry_error(mv.take(i as int)) is None,
            string_views(ids@) == module_ids(mv.take(i as int)),
        decreases n - i,
    {
        assert(mv.take(i + 1).drop_last() =~= mv.take(i as int));
        assert(mv.take(i + 1).last() == module_view(modules@[i as int]));
        match check_module(vault_path, &modules[i], &ids) {
            Err(e) => {
                proof {
                    lemma_registry_error_prefix(mv, i + 1);
                }
                return Err(e);
            },
            Ok(_) => {},
        }
        let ghost before = string_views(ids@);
        ids.push(modules[i].id.clone());
        assert(string_views(ids@) =~= before.push(modules@[i as int].id@));
        assert(module_ids(mv.take(i + 1)) =~= module_ids(mv.take(i as int)).push(modules@[i as int].id@));
        i = i + 1;
    }
    assert(mv.take(n as int) =~= mv);
    Ok(())
}

/// Once a prefix of modules has a problem, the whole list has that problem.
pub proof fn lemma_registry_error_prefix(ms: Seq<ModuleView>, k: int)
    requires
        0 <= k <= ms.len(),
        registry_error(ms.take(k)) is Some,
    ensures
        registry_error(ms) == registry_error(ms.take(k)),
    decreases ms.len() - k,
{
    if k < ms.len() {
        assert(ms.take(k + 1).drop_last() =~= ms.take(k));
        lemma_registry_error_prefix(ms, k + 1);
    } else {
        assert(ms.take(k) =~= ms);
    }
}


// ---------------------------------------------------------------------------
// Loading, repairing and changing a registry
// ---------------------------------------------------------------------------

/// The modules of a registry state.
pub open spec fn state_view(st: RegistryState) -> Seq<ModuleView> {
    module_views(st.modules@)
}

/// The view of a registry outcome.
pub open spec fn outcome_view(r: Result<RegistryState, String>) -> Result<Seq<ModuleView>, Seq<char>> {
    match r {
        Ok(st) => Ok(state_view(st)),
        Err(e) => Err(e@),
    }
}

/// Modules that pass the checks, or the first problem.
pub open spec fn checked_modules(ms: Seq<ModuleView>) -> Result<Seq<ModuleView>, Seq<char>> {
    match registry_error(ms) {
        Some(e) => Err(e),
        None => Ok(ms),
    }
}

/// A module under another ID.
pub open spec fn with_id(m: ModuleView, id: Seq<char>) -> ModuleView {
    ModuleView { id, ..m }
}

/// A module enabled as it is by default.
pub open spec fn enabled_as_default(m: ModuleView) -> ModuleView {
    ModuleView { enabled: m.enabled_by_default, ..m }
}

/// Modules read from disk with canonical IDs, each ID kept at its first
/// module.
pub open spec fn normalized_modules(ms: Seq<ModuleView>) -> Seq<ModuleView>
    decreases ms.len(),
{
    if ms.len() == 0 {
        seq![]
    } else {
        let prev = normalized_modules(ms.drop_last());
        let m = with_id(ms.last(), canonical_id(ms.last().id));
        if module_ids(prev).contains(m.id) {
            prev
        } else {
            prev.push(m)
        }
    }
}

/// The warning an unknown module carries.
pub open spec fn review_warning(id: Seq<char>) -> Seq<char> {
    "Unknown module package '"@ + id + "' is preserved but needs review before it can be trusted."@
}

/// A module with the review warning where it is not a core module and
/// does not carry the warning yet.
pub open spec fn flagged(m: ModuleView) -> ModuleView {
    if module_ids(core_module_views()).contains(m.id) || m.schema_warnings.contains(review_warning(m.id)) {
        m
    } else {
        ModuleView { schema_warnings: m.schema_warnings.push(review_warning(m.id)), ..m }
    }
}

/// The core modules whose IDs are missing, enabled as by default, in order.
pub open spec fn missing_core(existing: Seq<Seq<char>>, core: Seq<ModuleView>) -> Seq<ModuleView>
    decreases core.len(),
{
    if core.len() == 0 {
        seq![]
    } else {
        let rest = missing_core(existing, core.drop_last());
        if existing.contains(core.last().id) {
            rest
        } else {
            rest.push(enabled_as_default(core.last()))
        }
    }
}

/// A registry's modules with unknown modules flagged and missing core
/// modules added after them.
pub open spec fn repaired_modules(ms: Seq<ModuleView>, core: Seq<ModuleView>) -> Seq<ModuleView> {
    ms.map_values(|m: ModuleView| flagged(m)) + missing_core(module_ids(ms), core)
}

/// The core modules enabled as they are by default.
pub open spec fn recovered_modules(core: Seq<ModuleView>) -> Seq<ModuleView> {
    core.map_values(|m: ModuleView| enabled_as_default(m))
}

/// The messages of schema warnings.
pub open spec fn messages(d: Seq<crate::module_schema::DiagnosticView>) -> Seq<Seq<char>> {
    d.map_values(|x: crate::module_schema::DiagnosticView| x.1)
}

/// A module hydrated from the outcome of loading its schema; a module
/// without a schema path stays as it is.
pub open spec fn hydrated(m: ModuleView, loaded: Result<ModuleSchema, String>) -> ModuleView {
    match m.schema_path {
        None => m,
        Some(p) => match loaded {
            Ok(s) => ModuleView {
                schema_warnings: messages(crate::module_schema::schema_diagnostics(s)),
                document_type: s.entity_type@,
                default_view: match opt_string_view(s.default_view) {
                    Some(v) => v,
                    None => m.default_view,
                },
                display_name: match opt_string_view(s.display_name) {
                    Some(v) => v,
                    None => m.display_name,
                },
                schema_version: Some(s.schema_version),
                schema_migration_version: s.migration_version,
                widget_types: s.widgets@,
                ..m
            },
            Err(e) => ModuleView {
                schema_warnings: seq!["Module schema could not be loaded from "@ + p + ": "@ + e@],
                schema_version: None,
                schema_migration_version: None,
                widget_types: seq![],
                ..m
            },
        },
    }
}

/// The first module with an ID.
pub open spec fn first_with_id(ms: Seq<ModuleView>, id: Seq<char>) -> Option<int> {
    if exists|i: int| 0 <= i < ms.len() && #[trigger] ms[i].id == id {
        Some(choose|i: int| 0 <= i < ms.len() && #[trigger] ms[i].id == id && forall|j: int| 0 <= j < i ==> ms[j].id != id)
    } else {
        None
    }
}

/// Fills a module's schema information from the outcome of loading its
/// schema: its warnings, document type, default view, display name,
/// versions and widget types; where loading failed, one warning says why.
pub fn hydrate_module_from_schema(module: &mut ModuleDefinition, loaded: Result<ModuleSchema, String>)
    ensures
        module_view(*final(module)) == hydrated(module_view(*old(module)), loaded),
{
    let p = match &module.schema_path {
        Some(p) => p.clone(),
        None => return ,
    };
    match loaded {
        Ok(schema) => {
            let ds = schema.diagnostics();
            let mut ws: Vec<String> = Vec::new();
            let n = ds.len();
            let mut i: usize = 0;
            while i < n
                invariant
                    n == ds@.len(),
                    i <= n,
                    string_views(ws@) == messages(crate::module_schema::diag_views(ds@)).take(i as int),
                decreases n - i,
            {
                let ghost before = string_views(ws@);
                ws.push(ds[i].message.clone());
                assert(string_views(ws@) =~= before.push(ds@[i as int].message@));
                assert(messages(crate::module_schema::diag_views(ds@)).take(i + 1) =~= messages(
                    crate::module_schema::diag_views(ds@),
                ).take(i as int).push(ds@[i as int].message@));
                i = i + 1;
            }
            assert(messages(crate::module_schema::diag_views(ds@)).take(n as int) =~= messages(
                crate::module_schema::diag_views(ds@),
            ));
            module.schema_warnings = ws;
            module.schema_version = Some(schema.schema_version);
            module.schema_migration_version = schema.migration_version;
            module.document_type = schema.entity_type;
            if let Some(v) = schema.default_view {
                module.default_view = v;
            }
            if let Some(v) = schema.display_name {
                module.display_name = v;
            }
            module.widget_types = schema.widgets;
        },
        Err(e) => {
            let mut ws: Vec<String> = Vec::new();
            ws.push(text5("Module schema could not be loaded from ", p.as_str(), ": ", e.as_str(), ""));
            proof {
                reveal_strlit("");
            }
            assert(string_views(ws@) =~= seq!["Module schema could not be loaded from "@ + p@ + ": "@ + e@]);
            module.schema_warnings = ws;
            module.schema_version = None;
            module.schema_migration_version = None;
            module.widget_types = Vec::new();
            assert(module.widget_types@ =~= seq![]);
        },
    }
}

/// Reads and writes the module registry of a vault.
pub struct ModuleRegistryService;

impl ModuleRegistryService {
    /// Where a vault keeps its registry.
    pub fn registry_path(vault_path: &str) -> (r: String)
        ensures
            r@ == crate::paths::path_join(
                crate::paths::path_join(crate::layout_folder::layout_path_of(vault_path@), "modules"@),
                "registry.json"@,
            ),
    {
        let layout = crate::layout_folder::LayoutFolderService::layout_path(vault_path);
        let m = crate::paths::join_path(layout.as_str(), "modules");
        crate::paths::join_path(m.as_str(), "registry.json")
    }

    /// Checks a registry (see `validate_modules`).
    pub fn validate_registry(vault_path: &str, state: &RegistryState) -> (r: Result<(), String>)
        ensures
            match r {
                Ok(_) => registry_error(state_view(*state)) is None,
                Err(e) => registry_error(state_view(*state)) == Some(e@),
            },
    {
        validate_modules(vault_path, &state.modules)
    }

    /// Gives each module read from disk its canonical ID and keeps only the
    /// first module of each ID.
    pub fn normalize_loaded_registry(state: RegistryState) -> (r: RegistryState)
        ensures
            state_view(r) == normalized_modules(state_view(state)),
    {
        let ghost mv = state_view(state);
        let mut rest = state.modules;
        let mut modules: Vec<ModuleDefinition> = Vec::new();
        let mut seen: Vec<String> = Vec::new();
        let n = rest.len();
        let mut k: usize = 0;
        assert(mv.take(0) =~= Seq::<ModuleView>::empty());
        while k < n
            invariant
                n == mv.len(),
                k <= n,
                module_views(rest@) == mv.skip(k as int),
                module_views(modules@) == normalized_modules(mv.take(k as int)),
                string_views(seen@) == module_ids(module_views(modules@)),
            decreases n - k,
        {
            assert(rest@.len() == n - k) by {
                assert(module_views(rest@).len() == rest@.len());
            }
            let ghost rest_before = rest@;
            let mut m = rest.remove(0);
            assert(module_view(m) == mv[k as int]) by {
                assert(module_views(rest_before)[0] == mv.skip(k as int)[0]);
            }
            assert(module_views(rest@) =~= mv.skip(k + 1)) by {
                assert(rest@ =~= rest_before.skip(1));
                assert forall|j: int| 0 <= j < rest@.len() implies #[trigger] module_view(rest@[j]) == mv[k + 1 + j] by {
                    assert(rest@[j] == rest_before[j + 1]);
                    assert(module_views(rest_before)[j + 1] == mv.skip(k as int)[j + 1]);
                }
            }
            m.id = canonical_module_id(m.id.as_str());
            assert(mv.take(k + 1).drop_last() =~= mv.take(k as int));
            assert(mv.take(k + 1).last() == mv[k as int]);
            assert(module_view(m) == with_id(mv[k as int], canonical_id(mv[k as int].id)));
            if !crate::module_schema::contains_text(&seen, &m.id) {
                let ghost before_m = module_views(modules@);
                let ghost before_s = string_views(seen@);
                seen.push(m.id.clone());
                modules.push(m);
                assert(module_views(modules@) =~= before_m.push(module_view(m)));
                assert(string_views(seen@) =~= before_s.push(m.id@));
                assert(module_ids(module_views(modules@)) =~= module_ids(before_m).push(m.id@));
            }
            k = k + 1;
        }
        assert(mv.take(n as int) =~= mv);
        RegistryState { modules }
    }
}


fn flag_module(m: &mut ModuleDefinition, known: &Vec<String>)
    requires
        string_views(known@) == module_ids(core_module_views()),
    ensures
        module_view(*final(m)) == flagged(module_view(*old(m))),
{
    if crate::module_schema::contains_text(known, &m.id) {
        return ;
    }
    let w = text3("Unknown module package '", m.id.as_str(), "' is preserved but needs review before it can be trusted.");
    if crate::module_schema::contains_text(&m.schema_warnings, &w) {
        return ;
    }
    let ghost before = string_views(m.schema_warnings@);
    m.schema_warnings.push(w);
    assert(string_views(m.schema_warnings@) =~= before.push(w@));
}

fn flag_unknown_modules(modules: Vec<ModuleDefinition>) -> (r: Vec<ModuleDefinition>)
    ensures
        module_views(r@) == module_views(modules@).map_values(|m: ModuleView| flagged(m)),
{
    let core_list = ModuleRegistry::core_modules();
    let known = ids_of(&core_list);
    let ghost mv = module_views(modules@);
    let ghost target = mv.map_values(|m: ModuleView| flagged(m));
    let mut rest = modules;
    let mut out: Vec<ModuleDefinition> = Vec::new();
    let n = rest.len();
    let mut k: usize = 0;
    while k < n
        invariant
            n == mv.len(),
            target == mv.map_values(|m: ModuleView| flagged(m)),
            string_views(known@) == module_ids(core_module_views()),
            k <= n,
            module_views(rest@) == mv.skip(k as int),
            module_views(out@) == target.take(k as int),
        decreases n - k,
    {
        assert(rest@.len() == n - k) by {
            assert(module_views(rest@).len() == rest@.len());
        }
        let ghost rest_before = rest@;
        let mut m = rest.remove(0);
        assert(module_view(m) == mv[k as int]) by {
            assert(module_views(rest_before)[0] == mv.skip(k as int)[0]);
        }
        assert(module_views(rest@) =~= mv.skip(k + 1)) by {
            assert forall|j: int| 0 <= j < rest@.len() implies #[trigger] module_view(rest@[j]) == mv[k + 1 + j] by {
                assert(rest@[j] == rest_before[j + 1]);
                assert(module_views(rest_before)[j + 1] == mv.skip(k as int)[j + 1]);
            }
        }
        flag_module(&mut m, &known);
        let ghost before = module_views(out@);
        out.push(m);
        assert(module_views(out@) =~= before.push(module_view(m)));
        assert(target.take(k + 1) =~= target.take(k as int).push(target[k as int]));
        k = k + 1;
    }
    assert(target.take(n as int) =~= target);
    out
}

fn push_missing_core(out: &mut Vec<ModuleDefinition>, existing: &Vec<String>, core: Vec<ModuleDefinition>)
    ensures
        module_views(final(out)@) == module_views(old(out)@) + missing_core(string_views(existing@), module_views(core@)),
{
    let ghost start = module_views(out@);
    let ghost cv = module_views(core@);
    let ghost ex = string_views(existing@);
    let mut rest = core;
    let n = rest.len();
    let mut k: usize = 0;
    assert(cv.take(0) =~= Seq::<ModuleView>::empty());
    while k < n
        invariant
            n == cv.len(),
            ex == string_views(existing@),
            k <= n,
            module_views(rest@) == cv.skip(k as int),
            module_views(out@) == start + missing_core(ex, cv.take(k as int)),
        decreases n - k,
    {
        assert(rest@.len() == n - k) by {
            assert(module_views(rest@).len() == rest@.len());
        }
        let ghost rest_before = rest@;
        let mut m = rest.remove(0);
        assert(module_view(m) == cv[k as int]) by {
            assert(module_views(rest_before)[0] == cv.skip(k as int)[0]);
        }
        assert(module_views(rest@) =~= cv.skip(k + 1)) by {
            assert forall|j: int| 0 <= j < rest@.len() implies #[trigger] module_view(rest@[j]) == cv[k + 1 + j] by {
                assert(rest@[j] == rest_before[j + 1]);
                assert(module_views(rest_before)[j + 1] == cv.skip(k as int)[j + 1]);
            }
        }
        assert(cv.take(k + 1).drop_last() =~= cv.take(k as int));
        assert(cv.take(k + 1).last() == cv[k as int]);
        if !crate::module_schema::contains_text(existing, &m.id) {
            m.enabled = m.enabled_by_default;
            let ghost before = module_views(out@);
            out.push(m);
            assert(module_views(out@) =~= before.push(module_view(m)));
        }
        k = k + 1;
    }
    assert(cv.take(n as int) =~= cv);
}

fn enable_as_default(modules: Vec<ModuleDefinition>) -> (r: Vec<ModuleDefinition>)
    ensures
        module_views(r@) == recovered_modules(module_views(modules@)),
{
    let mut out: Vec<ModuleDefinition> = Vec::new();
    let e: Vec<String> = Vec::new();
    assert(string_views(e@) =~= seq![]);
    push_missing_core(&mut out, &e, modules);
    proof {
        lemma_missing_none(module_views(modules@));
    }
    out
}

proof fn lemma_missing_none(core: Seq<ModuleView>)
    ensures
        missing_core(seq![], core) == recovered_modules(core),
    decreases core.len(),
{
    if core.len() > 0 {
        lemma_missing_none(core.drop_last());
        assert(recovered_modules(core) =~= recovered_modules(core.drop_last()).push(enabled_as_default(core.last())));
    } else {
        assert(recovered_modules(core) =~= seq![]);
    }
}

impl ModuleRegistryService {
    /// A registry of the core modules, each enabled as it is by default;
    /// `core` are the core modules hydrated from their schemas.
    pub fn recovered_registry(vault_path: &str, core: Vec<ModuleDefinition>) -> (r: Result<RegistryState, String>)
        ensures
            outcome_view(r) == checked_modules(recovered_modules(module_views(core@))),
    {
        let modules = enable_as_default(core);
        match validate_modules(vault_path, &modules) {
            Ok(_) => Ok(RegistryState { modules }),
            Err(e) => Err(e),
        }
    }

    /// Flags the modules that are not core modules for review, adds the
    /// core modules the registry lacks (enabled as by default, from `core`,
    /// the core modules hydrated from their schemas), and checks the
    /// result.
    pub fn repair_missing_modules(vault_path: &str, state: RegistryState, core: Vec<ModuleDefinition>) -> (r: Result<
        RegistryState,
        String,
    >)
        ensures
            outcome_view(r) == checked_modules(repaired_modules(state_view(state), module_views(core@))),
    {
        let ghost sv = state_view(state);
        let mut modules = flag_unknown_modules(state.modules);
        let existing = ids_of(&modules);
        assert(module_ids(module_views(modules@)) =~= module_ids(sv)) by {
            assert forall|i: int| 0 <= i < sv.len() implies #[trigger] module_ids(module_views(modules@))[i] == module_ids(sv)[i] by {
                assert(module_views(modules@)[i] == flagged(sv[i]));
            }
        }
        push_missing_core(&mut modules, &existing, core);
        match validate_modules(vault_path, &modules) {
            Ok(_) => Ok(RegistryState { modules }),
            Err(e) => Err(e),
        }
    }

    /// The registry to use given what was read from disk: `None` where no
    /// registry file exists, or the outcome of parsing it.  A missing or
    /// unreadable registry, or one that fails its checks once normalised,
    /// is rebuilt from the core modules; otherwise it is repaired.  `core`
    /// are the core modules hydrated from their schemas.
    pub fn resolve_loaded_registry(
        vault_path: &str,
        loaded: Option<Result<RegistryState, String>>,
        core: Vec<ModuleDefinition>,
    ) -> (r: Result<RegistryState, String>)
        ensures
            outcome_view(r) == (match loaded {
                Some(Ok(st)) => {
                    let n = normalized_modules(state_view(st));
                    if registry_error(n) is None {
                        checked_modules(repaired_modules(n, module_views(core@)))
                    } else {
                        checked_modules(recovered_modules(module_views(core@)))
                    }
                },
                _ => checked_modules(recovered_modules(module_views(core@))),
            }),
    {
        match loaded {
            Some(Ok(st)) => {
                let n = Self::normalize_loaded_registry(st);
                if Self::validate_registry(vault_path, &n).is_ok() {
                    Self::repair_missing_modules(vault_path, n, core)
                } else {
                    Self::recovered_registry(vault_path, core)
                }
            },
            _ => Self::recovered_registry(vault_path, core),
        }
    }

    /// Enables or disables the module with an ID (its canonical form).  A
    /// system module cannot be disabled and a module must be installed to
    /// be enabled; on those errors nothing changes.  Returns whether a
    /// module with the ID exists.
    pub fn set_module_enabled(state: &mut RegistryState, module_id: &str, enabled: bool) -> (r: Result<bool, String>)
        ensures
            match first_with_id(state_view(*old(state)), canonical_id(module_id@)) {
                None => r == Ok::<bool, String>(false) && state_view(*final(state)) == state_view(*old(state)),
                Some(i) => {
                    let m = state_view(*old(state))[i];
                    if m.kind == "system"@ && !enabled {
                        &&& r matches Err(e) && e@ == "System module "@ + canonical_id(module_id@) + " cannot be disabled"@
                        &&& state_view(*final(state)) == state_view(*old(state))
                    } else if enabled && !m.installed {
                        &&& r matches Err(e) && e@ == "Module "@ + canonical_id(module_id@)
                            + " must be installed before it can be enabled"@
                        &&& state_view(*final(state)) == state_view(*old(state))
                    } else {
                        &&& r == Ok::<bool, String>(true)
                        &&& state_view(*final(state)) == state_view(*old(state)).update(
                            i,
                            ModuleView { enabled, ..m },
                        )
                    }
                },
            },
    {
        let id = canonical_module_id(module_id);
        let ghost sv = state_view(*state);
        match find_module(&state.modules, &id) {
            None => Ok(false),
            Some(i) => {
                let k = chars_of(state.modules[i].kind.as_str());
                if eq_str(k.as_slice(), "system") && !enabled {
                    return Err(text3("System module ", id.as_str(), " cannot be disabled"));
                }
                if enabled && !state.modules[i].installed {
                    return Err(text3("Module ", id.as_str(), " must be installed before it can be enabled"));
                }
                set_enabled_at(&mut state.modules, i, enabled);
                Ok(true)
            },
        }
    }
}

/// The first module with an ID is the one before which no module has it.
pub proof fn lemma_first_with_id(ms: Seq<ModuleView>, id: Seq<char>, i: int)
    requires
        0 <= i < ms.len(),
        ms[i].id == id,
        forall|j: int| 0 <= j < i ==> ms[j].id != id,
    ensures
        first_with_id(ms, id) == Some(i),
{
    let c = choose|c: int| 0 <= c < ms.len() && #[trigger] ms[c].id == id && forall|j: int| 0 <= j < c ==> ms[j].id != id;
    assert(0 <= c < ms.len() && ms[c].id == id && forall|j: int| 0 <= j < c ==> ms[j].id != id);
    if c < i {
        assert(ms[c].id != id);
    } else if c > i {
        assert(ms[i].id != id);
    }
}

fn set_enabled_at(ms: &mut Vec<ModuleDefinition>, i: usize, enabled: bool)
    requires
        i < old(ms)@.len(),
    ensures
        module_views(final(ms)@) == module_views(old(ms)@).update(
            i as int,
            ModuleView { enabled, ..module_views(old(ms)@)[i as int] },
        ),
{
    let ghost before = ms@;
    let mut m = ms.remove(i);
    m.enabled = enabled;
    ms.insert(i, m);
    assert(ms@ =~= before.update(i as int, m));
    assert(module_views(ms@) =~= module_views(before).update(
        i as int,
        ModuleView { enabled, ..module_views(before)[i as int] },
    ));
}

pub(crate) fn find_module(ms: &Vec<ModuleDefinition>, id: &String) -> (r: Option<usize>)
    ensures
        first_with_id(module_views(ms@), id@) == match r {
            Some(i) => Some(i as int),
            None => None,
        },
        r matches Some(i) ==> i < ms@.len(),
{
    let ghost sv = module_views(ms@);
    let n = ms.len();
    let mut i: usize = 0;
    while i < n
        invariant
            n == ms@.len(),
            sv == module_views(ms@),
            i <= n,
            forall|j: int| 0 <= j < i ==> sv[j].id != id@,
        decreases n - i,
    {
        if crate::text::eq_str_string(&ms[i].id, id) {
            proof {
                lemma_first_with_id(sv, id@, i as int);
            }
            return Some(i);
        }
        i = i + 1;
    }
    assert(!exists|j: int| 0 <= j < sv.len() && #[trigger] sv[j].id == id@);
    None
}

} // verus!
