//! Workspace-level metadata: the schema, the workspace state and the index.
use vstd::prelude::*;
use crate::document_metadata::{
    metadata_check, metadata_relative, DocumentMetadata, DOCUMENT_METADATA_VERSION,
};
use crate::keyed::{keyed, lookup, upsert};
use crate::layout_metadata::LAYOUT_METADATA_VERSION;
use crate::paths::path_join;
use crate::security::{unit_view, LAYOUT_FOLDER};
use crate::storage::{current_timestamp_label, decimal, decimal_exec, timestamp_label};
use crate::text::{append, append_str, chars_of, eq_str, eq_str_string, owned, string_of, string_views};
use crate::theme::DEFAULT_THEME;

verus! {

/// The version of the workspace schema, state and index formats.
pub const WORKSPACE_SCHEMA_VERSION: u32 = 1;

/// How documents are identified.
#[derive(Debug, Clone, PartialEq, Eq)]
pub struct IdentitySchema {
    pub primary: String,
    pub comment_prefix: String,
    pub frontmatter_reference_key: String,
    pub path_mapping_is_authoritative: bool,
}

/// Where workspace data lives.
#[derive(Debug, Clone, PartialEq, Eq)]
pub struct StoragePolicy {
    pub all_workspace_data_lives_inside_vault: bool,
    pub paths_are_vault_relative: bool,
    pub markdown_frontmatter: String,
    pub markdown_content_source_of_truth: bool,
    pub index_is_rebuildable: bool,
}

/// How migrations treat existing data.
#[derive(Debug, Clone, PartialEq, Eq)]
pub struct MigrationPolicy {
    pub backup_before_migration: bool,
    pub never_delete_unknown_metadata_during_scan: bool,
    pub fallback_to_heading_layout_when_layout_missing: bool,
}

/// The workspace schema record.
#[derive(Debug, Clone, PartialEq, Eq)]
pub struct SchemaMetadata {
    pub schema_version: u32,
    pub vault_folder: String,
    pub app_folder: String,
    pub documents_version: u32,
    pub layouts_version: u32,
    pub workspace_state_version: u32,
    pub identity: IdentitySchema,
    pub storage_policy: StoragePolicy,
    pub migration_policy: MigrationPolicy,
}

/// Where app metadata is kept.
#[derive(Debug, Clone, PartialEq, Eq)]
pub struct AppMetadataPolicy {
    pub paths_are_vault_relative: bool,
    pub markdown_frontmatter: String,
    pub layout_storage: String,
    pub document_registry: String,
    pub identity_strategy: String,
}

/// A document the workspace knows about.
#[derive(Debug, Clone, PartialEq, Eq)]
pub struct KnownDocument {
    pub document_id: String,
    pub metadata_path: String,
    pub current_path: String,
    pub layout_path: String,
}

/// The tabs of the architect view.
#[derive(Debug, Clone, Copy, PartialEq, Eq)]
pub enum ArchitectTabId {
    Modules,
    Dashboard,
    Appearance,
    Schemas,
    DataGraph,
    Recovery,
}

/// The workspace state record.  `architect_sections` maps section names to
/// whether they are expanded.
#[derive(Debug, Clone, PartialEq, Eq)]
pub struct WorkspaceState {
    pub schema_version: u32,
    pub workspace_name: String,
    pub vault_folder: String,
    pub vault_root_policy: String,
    pub canonical_app_folder: String,
    pub schema_path: String,
    pub index_path: String,
    pub app_metadata_policy: AppMetadataPolicy,
    pub default_theme: String,
    pub language: String,
    pub known_documents: Vec<KnownDocument>,
    pub open_tabs: Vec<String>,
    pub recent_files: Vec<String>,
    pub architect_active_tab: ArchitectTabId,
    pub architect_sections: Vec<(String, bool)>,
    pub created_at: String,
    pub updated_at: String,
}

/// The paths of one indexed document.
#[derive(Debug, Clone, PartialEq, Eq)]
pub struct DocumentIndexEntry {
    pub current_path: String,
    pub metadata_path: String,
    pub layout_path: String,
}

/// How the index is rebuilt.
#[derive(Debug, Clone, PartialEq, Eq)]
pub struct RebuildPolicy {
    pub rebuild_from_documents_folder: bool,
    pub rebuild_from_markdown_uuid_comments: bool,
    pub treat_index_as_cache: bool,
}

/// The workspace index, a rebuildable cache.  `documents_by_id` maps
/// document ids to their paths and `document_ids_by_path` maps Markdown
/// paths to document ids.
#[derive(Debug, Clone, PartialEq, Eq)]
pub struct WorkspaceIndex {
    pub schema_version: u32,
    pub path_policy: String,
    pub documents_by_id: Vec<(String, DocumentIndexEntry)>,
    pub document_ids_by_path: Vec<(String, String)>,
    pub orphaned_document_ids: Vec<String>,
    pub duplicate_identity_conflicts: Vec<String>,
    pub updated_at: String,
    pub rebuild_policy: RebuildPolicy,
}

/// Creates, checks and locates the workspace records.
pub struct WorkspaceMetadataService;

/// Which bootstrap records are missing and what to write for them.
#[derive(Debug, Clone, PartialEq, Eq)]
pub struct BootstrapPlan {
    pub schema: Option<SchemaMetadata>,
    pub index: Option<WorkspaceIndex>,
    pub workspace_state: Option<WorkspaceState>,
}

/// A supported interface language.
pub open spec fn is_language(l: Seq<char>) -> bool {
    l == "en"@ || l == "vi"@
}

/// The checks of the schema record.
pub open spec fn schema_check(s: SchemaMetadata) -> Result<(), Seq<char>> {
    if s.schema_version != WORKSPACE_SCHEMA_VERSION {
        Err("Unsupported schema version "@ + decimal(s.schema_version as nat) + "."@)
    } else if s.identity.frontmatter_reference_key@ != "bentolife_metadata"@ {
        Err("Schema must use bentolife_metadata as the frontmatter reference."@)
    } else if s.identity.path_mapping_is_authoritative {
        Err("Path mapping must not be authoritative."@)
    } else if !s.storage_policy.index_is_rebuildable {
        Err("index.json must remain rebuildable."@)
    } else {
        Ok(())
    }
}

/// The checks of the workspace state record.
pub open spec fn state_check(s: WorkspaceState) -> Result<(), Seq<char>> {
    if s.schema_version != WORKSPACE_SCHEMA_VERSION {
        Err("Unsupported workspace state version "@ + decimal(s.schema_version as nat) + "."@)
    } else if s.index_path@ != ".bentolifelayout/index.json"@ {
        Err("workspace_state.json must reference .bentolifelayout/index.json."@)
    } else if !is_language(s.language@) {
        Err("workspace_state.json language must be 'en' or 'vi'."@)
    } else {
        Ok(())
    }
}

/// The checks of the index record.
pub open spec fn index_check(i: WorkspaceIndex) -> Result<(), Seq<char>> {
    if i.schema_version != WORKSPACE_SCHEMA_VERSION {
        Err("Unsupported index version "@ + decimal(i.schema_version as nat) + "."@)
    } else if !i.rebuild_policy.treat_index_as_cache {
        Err("index.json must be treated as a cache."@)
    } else {
        Ok(())
    }
}

/// `n` is `s` with an unsupported language replaced by English.
pub open spec fn normalized_from(n: WorkspaceState, s: WorkspaceState) -> bool {
    if is_language(s.language@) {
        n == s
    } else {
        n.language@ == "en"@ && n == (WorkspaceState { language: n.language, ..s })
    }
}

/// The checks of a state once its language has been normalized.
pub open spec fn normalized_state_check(s: WorkspaceState) -> Result<(), Seq<char>> {
    if s.schema_version != WORKSPACE_SCHEMA_VERSION {
        Err("Unsupported workspace state version "@ + decimal(s.schema_version as nat) + "."@)
    } else if s.index_path@ != ".bentolifelayout/index.json"@ {
        Err("workspace_state.json must reference .bentolifelayout/index.json."@)
    } else {
        Ok(())
    }
}

/// A supported language, or English in place of an unsupported one.
pub open spec fn normalized_language(l: Seq<char>) -> Seq<char> {
    if is_language(l) {
        l
    } else {
        "en"@
    }
}

/// The architect sections of a new workspace and whether each is expanded.
pub open spec fn default_sections() -> Map<Seq<char>, bool> {
    Map::empty().insert("appearance_expanded"@, false).insert(
        "dashboard_customization_expanded"@,
        true,
    ).insert("dashboard_layout_expanded"@, false).insert("dashboard_widgets_expanded"@, true).insert(
        "data_graph_expanded"@,
        false,
    ).insert("modules_expanded"@, true).insert("modules_optional_expanded"@, true).insert(
        "modules_starter_expanded"@,
        true,
    ).insert("modules_system_expanded"@, false).insert("recovery_expanded"@, false).insert(
        "schemas_expanded"@,
        false,
    )
}

/// What the default schema records.
pub open spec fn default_schema_fields(s: SchemaMetadata) -> bool {
    &&& s.schema_version == WORKSPACE_SCHEMA_VERSION
    &&& s.vault_folder@ == ".bentolifevault"@
    &&& s.app_folder@ == LAYOUT_FOLDER@
    &&& s.documents_version == DOCUMENT_METADATA_VERSION
    &&& s.layouts_version == LAYOUT_METADATA_VERSION
    &&& s.workspace_state_version == WORKSPACE_SCHEMA_VERSION
    &&& s.identity.primary@ == "hidden_markdown_uuid_comment"@
    &&& s.identity.comment_prefix@ == "bentolife:document_id="@
    &&& s.identity.frontmatter_reference_key@ == "bentolife_metadata"@
    &&& !s.identity.path_mapping_is_authoritative
    &&& s.storage_policy.all_workspace_data_lives_inside_vault
    &&& s.storage_policy.paths_are_vault_relative
    &&& s.storage_policy.markdown_frontmatter@ == "reference_only"@
    &&& s.storage_policy.markdown_content_source_of_truth
    &&& s.storage_policy.index_is_rebuildable
    &&& !s.migration_policy.backup_before_migration
    &&& s.migration_policy.never_delete_unknown_metadata_during_scan
    &&& s.migration_policy.fallback_to_heading_layout_when_layout_missing
}

/// What the default workspace state records, apart from the timestamps.
pub open spec fn default_state_fields(s: WorkspaceState) -> bool {
    &&& s.schema_version == WORKSPACE_SCHEMA_VERSION
    &&& s.workspace_name@ == "BentoLife"@
    &&& s.vault_folder@ == ".bentolifevault"@
    &&& s.vault_root_policy@ == "all_markdown_assets_and_metadata_live_inside_vault"@
    &&& s.canonical_app_folder@ == LAYOUT_FOLDER@
    &&& s.schema_path@ == ".bentolifelayout/schema.json"@
    &&& s.index_path@ == ".bentolifelayout/index.json"@
    &&& s.app_metadata_policy.paths_are_vault_relative
    &&& s.app_metadata_policy.markdown_frontmatter@ == "reference_only"@
    &&& s.app_metadata_policy.layout_storage@ == ".bentolifelayout/layouts"@
    &&& s.app_metadata_policy.document_registry@ == ".bentolifelayout/documents"@
    &&& s.app_metadata_policy.identity_strategy@ == "hidden_markdown_uuid_comment"@
    &&& s.default_theme@ == DEFAULT_THEME@
    &&& s.language@ == "en"@
    &&& s.known_documents@.len() == 0
    &&& s.open_tabs@.len() == 0
    &&& s.recent_files@.len() == 0
    &&& s.architect_active_tab == ArchitectTabId::Modules
    &&& keyed(s.architect_sections@) == default_sections()
    &&& s.created_at@ == s.updated_at@
    &&& exists|t: u64| s.created_at@ == timestamp_label(t as nat)
}

/// What the default index records, apart from the timestamp.
pub open spec fn default_index_fields(i: WorkspaceIndex) -> bool {
    &&& i.schema_version == WORKSPACE_SCHEMA_VERSION
    &&& i.path_policy@ == "vault_relative"@
    &&& i.documents_by_id@.len() == 0
    &&& i.document_ids_by_path@.len() == 0
    &&& i.orphaned_document_ids@.len() == 0
    &&& i.duplicate_identity_conflicts@.len() == 0
    &&& i.rebuild_policy.rebuild_from_documents_folder
    &&& i.rebuild_policy.rebuild_from_markdown_uuid_comments
    &&& i.rebuild_policy.treat_index_as_cache
    &&& exists|t: u64| i.updated_at@ == timestamp_label(t as nat)
}

/// The index entry of a document.
pub open spec fn entry_of(d: DocumentMetadata) -> (Seq<char>, Seq<char>, Seq<char>) {
    (d.current_path@, d.frontmatter_contract.required_value@, d.layout_path@)
}

/// The view of an index entry.
pub open spec fn entry_view(e: DocumentIndexEntry) -> (Seq<char>, Seq<char>, Seq<char>) {
    (e.current_path@, e.metadata_path@, e.layout_path@)
}

/// Document ids mapped to index entries, later documents overriding
/// earlier ones with the same id.
pub open spec fn ids_to_entries(docs: Seq<DocumentMetadata>) -> Map<
    Seq<char>,
    (Seq<char>, Seq<char>, Seq<char>),
>
    decreases docs.len(),
{
    if docs.len() == 0 {
        Map::empty()
    } else {
        ids_to_entries(docs.drop_last()).insert(docs.last().document_id@, entry_of(docs.last()))
    }
}

/// Markdown paths mapped to document ids, later documents overriding
/// earlier ones with the same path.
pub open spec fn paths_to_ids(docs: Seq<DocumentMetadata>) -> Map<Seq<char>, Seq<char>>
    decreases docs.len(),
{
    if docs.len() == 0 {
        Map::empty()
    } else {
        paths_to_ids(docs.drop_last()).insert(docs.last().current_path@, docs.last().document_id@)
    }
}

/// The entries of an index by id, as a map of views.
pub open spec fn entries_view(v: Seq<(String, DocumentIndexEntry)>) -> Map<
    Seq<char>,
    (Seq<char>, Seq<char>, Seq<char>),
> {
    keyed(v).map_values(|e: DocumentIndexEntry| entry_view(e))
}

/// The ids of an index by path, as a map of views.
pub open spec fn ids_view(v: Seq<(String, String)>) -> Map<Seq<char>, Seq<char>> {
    keyed(v).map_values(|s: String| s@)
}

/// The first document that fails its checks, if any.
pub open spec fn first_invalid(docs: Seq<DocumentMetadata>) -> Option<Seq<char>>
    decreases docs.len(),
{
    if docs.len() == 0 {
        None
    } else {
        match metadata_check(docs[0]) {
            Err(e) => Some(e),
            Ok(_) => first_invalid(docs.drop_first()),
        }
    }
}

/// The known documents without the one with `id`.
pub open spec fn known_without(v: Seq<KnownDocument>, id: Seq<char>) -> Seq<KnownDocument>
    decreases v.len(),
{
    if v.len() == 0 {
        seq![]
    } else if v.last().document_id@ == id {
        known_without(v.drop_last(), id)
    } else {
        known_without(v.drop_last(), id).push(v.last())
    }
}

/// The paths without `p`.
pub open spec fn paths_without(v: Seq<Seq<char>>, p: Seq<char>) -> Seq<Seq<char>>
    decreases v.len(),
{
    if v.len() == 0 {
        seq![]
    } else if v.last() == p {
        paths_without(v.drop_last(), p)
    } else {
        paths_without(v.drop_last(), p).push(v.last())
    }
}

/// The known document record of document metadata.
pub open spec fn known_record(k: KnownDocument, d: DocumentMetadata) -> bool {
    &&& k.document_id@ == d.document_id@
    &&& k.metadata_path@ == d.frontmatter_contract.required_value@
    &&& k.current_path@ == d.current_path@
    &&& k.layout_path@ == d.layout_path@
}

fn decimal_message(prefix: &str, n: u32) -> (r: String)
    ensures
        r@ == prefix@ + decimal(n as nat) + "."@,
{
    let mut v = chars_of(prefix);
    let d = decimal_exec(n as u64);
    append(&mut v, d.as_slice());
    append_str(&mut v, ".");
    string_of(v.as_slice())
}

fn layout_file(vault_path: &str, name: &str) -> (r: String)
    ensures
        r@ == path_join(path_join(vault_path@, LAYOUT_FOLDER@), name@),
{
    let a = crate::paths::join_path(vault_path, LAYOUT_FOLDER);
    crate::paths::join_path(a.as_str(), name)
}

impl WorkspaceMetadataService {
    /// The path of the schema record.
    pub fn schema_path(vault_path: &str) -> (r: String)
        ensures
            r@ == path_join(path_join(vault_path@, LAYOUT_FOLDER@), "schema.json"@),
    {
        layout_file(vault_path, "schema.json")
    }

    /// The path of the index record.
    pub fn index_path(vault_path: &str) -> (r: String)
        ensures
            r@ == path_join(path_join(vault_path@, LAYOUT_FOLDER@), "index.json"@),
    {
        layout_file(vault_path, "index.json")
    }

    /// The path of the workspace state record.
    pub fn workspace_state_path(vault_path: &str) -> (r: String)
        ensures
            r@ == path_join(path_join(vault_path@, LAYOUT_FOLDER@), "workspace_state.json"@),
    {
        layout_file(vault_path, "workspace_state.json")
    }

    /// The schema record of a new workspace.
    pub fn default_schema() -> (s: SchemaMetadata)
        ensures
            default_schema_fields(s),
            schema_check(s) is Ok,
    {
        SchemaMetadata {
            schema_version: WORKSPACE_SCHEMA_VERSION,
            vault_folder: owned(".bentolifevault"),
            app_folder: owned(LAYOUT_FOLDER),
            documents_version: DOCUMENT_METADATA_VERSION,
            layouts_version: LAYOUT_METADATA_VERSION,
            workspace_state_version: WORKSPACE_SCHEMA_VERSION,
            identity: IdentitySchema {
                primary: owned("hidden_markdown_uuid_comment"),
                comment_prefix: owned("bentolife:document_id="),
                frontmatter_reference_key: owned("bentolife_metadata"),
                path_mapping_is_authoritative: false,
            },
            storage_policy: StoragePolicy {
                all_workspace_data_lives_inside_vault: true,
                paths_are_vault_relative: true,
                markdown_frontmatter: owned("reference_only"),
                markdown_content_source_of_truth: true,
                index_is_rebuildable: true,
            },
            migration_policy: MigrationPolicy {
                backup_before_migration: false,
                never_delete_unknown_metadata_during_scan: true,
                fallback_to_heading_layout_when_layout_missing: true,
            },
        }
    }

    /// The workspace state of a new workspace.
    pub fn default_workspace_state() -> (s: WorkspaceState)
        ensures
            default_state_fields(s),
            state_check(s) is Ok,
    {
        let now = current_timestamp_label();
        let mut sections: Vec<(String, bool)> = Vec::new();
        sections.push((owned("appearance_expanded"), false));
        sections.push((owned("dashboard_customization_expanded"), true));
        sections.push((owned("dashboard_layout_expanded"), false));
        sections.push((owned("dashboard_widgets_expanded"), true));
        sections.push((owned("data_graph_expanded"), false));
        sections.push((owned("modules_expanded"), true));
        sections.push((owned("modules_optional_expanded"), true));
        sections.push((owned("modules_starter_expanded"), true));
        sections.push((owned("modules_system_expanded"), false));
        sections.push((owned("recovery_expanded"), false));
        sections.push((owned("schemas_expanded"), false));
        assert(keyed(sections@) =~= default_sections()) by {
            lemma_default_sections(sections@);
        }
        let s = WorkspaceState {
            schema_version: WORKSPACE_SCHEMA_VERSION,
            workspace_name: owned("BentoLife"),
            vault_folder: owned(".bentolifevault"),
            vault_root_policy: owned("all_markdown_assets_and_metadata_live_inside_vault"),
            canonical_app_folder: owned(LAYOUT_FOLDER),
            schema_path: owned(".bentolifelayout/schema.json"),
            index_path: owned(".bentolifelayout/index.json"),
            app_metadata_policy: AppMetadataPolicy {
                paths_are_vault_relative: true,
                markdown_frontmatter: owned("reference_only"),
                layout_storage: owned(".bentolifelayout/layouts"),
                document_registry: owned(".bentolifelayout/documents"),
                identity_strategy: owned("hidden_markdown_uuid_comment"),
            },
            default_theme: owned(DEFAULT_THEME),
            language: owned("en"),
            known_documents: Vec::new(),
            open_tabs: Vec::new(),
            recent_files: Vec::new(),
            architect_active_tab: ArchitectTabId::Modules,
            architect_sections: sections,
            created_at: now.clone(),
            updated_at: now,
        };
        s
    }

    /// The index of a new workspace.
    pub fn default_index() -> (i: WorkspaceIndex)
        ensures
            default_index_fields(i),
            index_check(i) is Ok,
    {
        WorkspaceIndex {
            schema_version: WORKSPACE_SCHEMA_VERSION,
            path_policy: owned("vault_relative"),
            documents_by_id: Vec::new(),
            document_ids_by_path: Vec::new(),
            orphaned_document_ids: Vec::new(),
            duplicate_identity_conflicts: Vec::new(),
            updated_at: current_timestamp_label(),
            rebuild_policy: RebuildPolicy {
                rebuild_from_documents_folder: true,
                rebuild_from_markdown_uuid_comments: true,
                treat_index_as_cache: true,
            },
        }
    }

    /// The bootstrap records to write: a default for each one that does not
    /// exist yet, nothing for the others.
    pub fn write_bootstrap_files(schema_exists: bool, index_exists: bool, state_exists: bool) -> (r:
        BootstrapPlan)
        ensures
            r.schema is Some <==> !schema_exists,
            r.index is Some <==> !index_exists,
            r.workspace_state is Some <==> !state_exists,
            r.schema matches Some(s) ==> default_schema_fields(s),
            r.index matches Some(i) ==> default_index_fields(i),
            r.workspace_state matches Some(s) ==> default_state_fields(s),
    {
        BootstrapPlan {
            schema: if schema_exists {
                None
            } else {
                Some(Self::default_schema())
            },
            index: if index_exists {
                None
            } else {
                Some(Self::default_index())
            },
            workspace_state: if state_exists {
                None
            } else {
                Some(Self::default_workspace_state())
            },
        }
    }

    /// A schema record read from the vault, accepted only when it passes its
    /// checks.
    pub fn read_schema(schema: SchemaMetadata) -> (r: Result<SchemaMetadata, String>)
        ensures
            match r {
                Ok(s) => s == schema && schema_check(schema) is Ok,
                Err(e) => schema_check(schema) == Err::<(), Seq<char>>(e@),
            },
    {
        match schema.validate() {
            Ok(_) => Ok(schema),
            Err(e) => Err(e),
        }
    }

    /// Where a schema record is written, given only for a valid record.
    pub fn write_schema(vault_path: &str, schema: &SchemaMetadata) -> (r: Result<String, String>)
        ensures
            match r {
                Ok(p) => schema_check(*schema) is Ok && p@ == path_join(
                    path_join(vault_path@, LAYOUT_FOLDER@),
                    "schema.json"@,
                ),
                Err(e) => schema_check(*schema) == Err::<(), Seq<char>>(e@),
            },
    {
        match schema.validate() {
            Ok(_) => Ok(Self::schema_path(vault_path)),
            Err(e) => Err(e),
        }
    }

    /// A workspace state read from the vault: an unsupported language falls
    /// back to English, then the state must pass its checks.
    pub fn read_workspace_state(state: WorkspaceState) -> (r: Result<WorkspaceState, String>)
        ensures
            match r {
                Ok(s) => normalized_from(s, state) && state_check(s) is Ok,
                Err(e) => normalized_state_check(state) == Err::<(), Seq<char>>(e@),
            },
    {
        let mut state = state;
        state.normalize();
        match state.validate() {
            Ok(_) => Ok(state),
            Err(e) => Err(e),
        }
    }

    /// The normalized state to write and where, given only when it passes
    /// its checks.
    pub fn write_workspace_state(vault_path: &str, state: WorkspaceState) -> (r: Result<
        (String, WorkspaceState),
        String,
    >)
        ensures
            match r {
                Ok((p, s)) => normalized_from(s, state) && state_check(s) is Ok && p@
                    == path_join(path_join(vault_path@, LAYOUT_FOLDER@), "workspace_state.json"@),
                Err(e) => normalized_state_check(state) == Err::<(), Seq<char>>(e@),
            },
    {
        let mut state = state;
        state.normalize();
        match state.validate() {
            Ok(_) => Ok((Self::workspace_state_path(vault_path), state)),
            Err(e) => Err(e),
        }
    }

    /// An index read from the vault, accepted only when it passes its checks.
    pub fn read_index(index: WorkspaceIndex) -> (r: Result<WorkspaceIndex, String>)
        ensures
            match r {
                Ok(i) => i == index && index_check(index) is Ok,
                Err(e) => index_check(index) == Err::<(), Seq<char>>(e@),
            },
    {
        match index.validate() {
            Ok(_) => Ok(index),
            Err(e) => Err(e),
        }
    }

    /// Where an index is written, given only for a valid index.
    pub fn write_index(vault_path: &str, index: &WorkspaceIndex) -> (r: Result<String, String>)
        ensures
            match r {
                Ok(p) => index_check(*index) is Ok && p@ == path_join(
                    path_join(vault_path@, LAYOUT_FOLDER@),
                    "index.json"@,
                ),
                Err(e) => index_check(*index) == Err::<(), Seq<char>>(e@),
            },
    {
        match index.validate() {
            Ok(_) => Ok(Self::index_path(vault_path)),
            Err(e) => Err(e),
        }
    }

    /// Rebuilds the index from the document records: every document maps
    /// its id to its paths and its Markdown path to its id.  Refused with
    /// the error of the first document that fails its checks.
    pub fn rebuild_index_from_documents(documents: &[DocumentMetadata]) -> (r: Result<
        WorkspaceIndex,
        String,
    >)
        ensures
            match r {
                Ok(i) => first_invalid(documents@) is None && entries_view(i.documents_by_id@)
                    == ids_to_entries(documents@) && ids_view(i.document_ids_by_path@)
                    == paths_to_ids(documents@) && i.schema_version == WORKSPACE_SCHEMA_VERSION
                    && i.path_policy@ == "vault_relative"@ && i.orphaned_document_ids@.len() == 0
                    && i.duplicate_identity_conflicts@.len() == 0
                    && i.rebuild_policy.treat_index_as_cache && index_check(i) is Ok,
                Err(e) => first_invalid(documents@) == Some(e@),
            },
    {
        let mut index = Self::default_index();
        let n = documents.len();
        let mut by_id: Vec<(String, DocumentIndexEntry)> = Vec::new();
        let mut by_path: Vec<(String, String)> = Vec::new();
        let mut i: usize = 0;
        assert(documents@.skip(0) =~= documents@);
        assert(entries_view(by_id@) =~= ids_to_entries(documents@.take(0)));
        assert(ids_view(by_path@) =~= paths_to_ids(documents@.take(0)));
        while i < n
            invariant
                n == documents@.len(),
                i <= n,
                first_invalid(documents@) == first_invalid(documents@.skip(i as int)),
                entries_view(by_id@) == ids_to_entries(documents@.take(i as int)),
                ids_view(by_path@) == paths_to_ids(documents@.take(i as int)),
            decreases n - i,
        {
            let d = &documents[i];
            let ghost rest = documents@.skip(i as int);
            assert(rest[0] == documents@[i as int]);
            assert(rest.drop_first() =~= documents@.skip(i + 1));
            match d.validate() {
                Ok(_) => {},
                Err(e) => {
                    return Err(e);
                },
            }
            let ghost t = documents@.take(i + 1);
            assert(t.drop_last() =~= documents@.take(i as int));
            assert(t.last() == documents@[i as int]);
            let entry = DocumentIndexEntry {
                current_path: d.current_path.clone(),
                metadata_path: d.frontmatter_contract.required_value.clone(),
                layout_path: d.layout_path.clone(),
            };
            let ghost old_id = by_id@;
            by_id = upsert(by_id, d.document_id.clone(), entry);
            assert(entries_view(by_id@) =~= entries_view(old_id).insert(d.document_id@, entry_of(*d)));
            let ghost old_path = by_path@;
            by_path = upsert(by_path, d.current_path.clone(), d.document_id.clone());
            assert(ids_view(by_path@) =~= ids_view(old_path).insert(d.current_path@, d.document_id@));
            i = i + 1;
        }
        assert(documents@.take(n as int) =~= documents@);
        index.documents_by_id = by_id;
        index.document_ids_by_path = by_path;
        match index.validate() {
            Ok(_) => {},
            Err(e) => {
                return Err(e);
            },
        }
        Ok(index)
    }

    /// The state after registering a document: its earlier record replaced
    /// by the new one at the end, its path moved to the front of the recent
    /// files, the update time set; the result normalized and checked.
    pub fn register_document(state: WorkspaceState, document: &DocumentMetadata) -> (r: Result<
        WorkspaceState,
        String,
    >)
        ensures
            match r {
                Ok(s) => {
                    &&& state_check(s) is Ok
                    &&& s.known_documents@.len() == known_without(
                        state.known_documents@,
                        document.document_id@,
                    ).len() + 1
                    &&& s.known_documents@.drop_last() == known_without(
                        state.known_documents@,
                        document.document_id@,
                    )
                    &&& known_record(s.known_documents@.last(), *document)
                    &&& string_views(s.recent_files@) == seq![document.current_path@] + paths_without(
                        string_views(state.recent_files@),
                        document.current_path@,
                    )
                    &&& exists|t: u64| s.updated_at@ == timestamp_label(t as nat)
                    &&& s.language@ == normalized_language(state.language@)
                    &&& s.index_path@ == state.index_path@
                    &&& s.schema_version == state.schema_version
                },
                Err(e) => normalized_state_check(state) == Err::<(), Seq<char>>(e@),
            },
    {
        let mut state = state;
        let id = &document.document_id;
        let mut known: Vec<KnownDocument> = Vec::new();
        let mut i: usize = 0;
        let n = state.known_documents.len();
        while i < n
            invariant
                n == state.known_documents@.len(),
                i <= n,
                known@ == known_without(state.known_documents@.take(i as int), id@),
            decreases n - i,
        {
            let ghost t = state.known_documents@.take(i + 1);
            assert(t.drop_last() =~= state.known_documents@.take(i as int));
            assert(t.last() == state.known_documents@[i as int]);
            let k = &state.known_documents[i];
            if !eq_str_string(&k.document_id, id) {
                known.push(KnownDocument {
                    document_id: k.document_id.clone(),
                    metadata_path: k.metadata_path.clone(),
                    current_path: k.current_path.clone(),
                    layout_path: k.layout_path.clone(),
                });
                assert(known@.last() == state.known_documents@[i as int]);
                assert(known@ =~= known_without(t.drop_last(), id@).push(t.last()));
            }
            i = i + 1;
        }
        assert(state.known_documents@.take(n as int) =~= state.known_documents@);
        let ghost without = known@;
        known.push(KnownDocument {
            document_id: document.document_id.clone(),
            metadata_path: document.frontmatter_contract.required_value.clone(),
            current_path: document.current_path.clone(),
            layout_path: document.layout_path.clone(),
        });
        assert(known@.drop_last() =~= without);
        let path = &document.current_path;
        let mut recent: Vec<String> = Vec::new();
        recent.push(path.clone());
        let m = state.recent_files.len();
        let mut j: usize = 0;
        while j < m
            invariant
                m == state.recent_files@.len(),
                j <= m,
                string_views(recent@) == seq![path@] + paths_without(
                    string_views(state.recent_files@.take(j as int)),
                    path@,
                ),
            decreases m - j,
        {
            let ghost t = string_views(state.recent_files@.take(j + 1));
            assert(t.drop_last() =~= string_views(state.recent_files@.take(j as int)));
            assert(t.last() == state.recent_files@[j as int]@);
            if !eq_str_string(&state.recent_files[j], path) {
                let ghost before = string_views(recent@);
                recent.push(state.recent_files[j].clone());
                assert(string_views(recent@) =~= before.push(state.recent_files@[j as int]@));
            }
            j = j + 1;
        }
        assert(state.recent_files@.take(m as int) =~= state.recent_files@);
        state.known_documents = known;
        state.recent_files = recent;
        state.updated_at = current_timestamp_label();
        state.normalize();
        match state.validate() {
            Ok(_) => Ok(state),
            Err(e) => Err(e),
        }
    }
}

proof fn lemma_default_sections(v: Seq<(String, bool)>)
    requires
        v.len() == 11,
        v[0].0@ == "appearance_expanded"@ && v[0].1 == false,
        v[1].0@ == "dashboard_customization_expanded"@ && v[1].1 == true,
        v[2].0@ == "dashboard_layout_expanded"@ && v[2].1 == false,
        v[3].0@ == "dashboard_widgets_expanded"@ && v[3].1 == true,
        v[4].0@ == "data_graph_expanded"@ && v[4].1 == false,
        v[5].0@ == "modules_expanded"@ && v[5].1 == true,
        v[6].0@ == "modules_optional_expanded"@ && v[6].1 == true,
        v[7].0@ == "modules_starter_expanded"@ && v[7].1 == true,
        v[8].0@ == "modules_system_expanded"@ && v[8].1 == false,
        v[9].0@ == "recovery_expanded"@ && v[9].1 == false,
        v[10].0@ == "schemas_expanded"@ && v[10].1 == false,
    ensures
        keyed(v) == default_sections(),
{
    reveal_with_fuel(keyed, 12);
    assert(keyed(v) =~= default_sections());
}

impl SchemaMetadata {
    /// Checks the version, the frontmatter key, that path mapping is not
    /// authoritative and that the index stays rebuildable.
    pub fn validate(&self) -> (r: Result<(), String>)
        ensures
            unit_view(r) == schema_check(*self),
    {
        if self.schema_version != WORKSPACE_SCHEMA_VERSION {
            return Err(decimal_message("Unsupported schema version ", self.schema_version));
        }
        let key = chars_of(self.identity.frontmatter_reference_key.as_str());
        if !eq_str(key.as_slice(), "bentolife_metadata") {
            return Err(owned("Schema must use bentolife_metadata as the frontmatter reference."));
        }
        if self.identity.path_mapping_is_authoritative {
            return Err(owned("Path mapping must not be authoritative."));
        }
        if !self.storage_policy.index_is_rebuildable {
            return Err(owned("index.json must remain rebuildable."));
        }
        Ok(())
    }
}

fn is_language_exec(l: &String) -> (r: bool)
    ensures
        r == is_language(l@),
{
    let v = chars_of(l.as_str());
    eq_str(v.as_slice(), "en") || eq_str(v.as_slice(), "vi")
}

impl WorkspaceState {
    /// Replaces an unsupported language by English; everything else stays.
    pub fn normalize(&mut self)
        ensures
            is_language(final(self).language@),
            is_language(old(self).language@) ==> *final(self) == *old(self),
            !is_language(old(self).language@) ==> final(self).language@ == "en"@ && *final(self)
                == (WorkspaceState { language: final(self).language, ..*old(self) }),
    {
        if !is_language_exec(&self.language) {
            self.language = owned("en");
        }
    }

    /// Checks the version, the index path and the language.
    pub fn validate(&self) -> (r: Result<(), String>)
        ensures
            unit_view(r) == state_check(*self),
    {
        if self.schema_version != WORKSPACE_SCHEMA_VERSION {
            return Err(decimal_message("Unsupported workspace state version ", self.schema_version));
        }
        let ip = chars_of(self.index_path.as_str());
        if !eq_str(ip.as_slice(), ".bentolifelayout/index.json") {
            return Err(owned("workspace_state.json must reference .bentolifelayout/index.json."));
        }
        if !is_language_exec(&self.language) {
            return Err(owned("workspace_state.json language must be 'en' or 'vi'."));
        }
        Ok(())
    }
}

impl WorkspaceIndex {
    /// Checks the version and that the index is treated as a cache.
    pub fn validate(&self) -> (r: Result<(), String>)
        ensures
            unit_view(r) == index_check(*self),
    {
        if self.schema_version != WORKSPACE_SCHEMA_VERSION {
            return Err(decimal_message("Unsupported index version ", self.schema_version));
        }
        if !self.rebuild_policy.treat_index_as_cache {
            return Err(owned("index.json must be treated as a cache."));
        }
        Ok(())
    }

    /// The document id indexed for a Markdown path.
    pub fn document_id_for_path(&self, path: &str) -> (r: Option<String>)
        ensures
            match r {
                Some(s) => ids_view(self.document_ids_by_path@).dom().contains(path@) && ids_view(
                    self.document_ids_by_path@,
                )[path@] == s@,
                None => !ids_view(self.document_ids_by_path@).dom().contains(path@),
            },
    {
        lookup(&self.document_ids_by_path, path)
    }
}

} // verus!
