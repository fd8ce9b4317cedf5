//! Notes: Markdown records under `modules/notes/data/`.
use vstd::prelude::*;
use crate::document_metadata::DocumentMetadata;
use crate::layout_metadata::LayoutMetadata;
use crate::markdown_parser::ParsedEntityContract;
use crate::module_schema::ModuleSchema;
use crate::ordered::text_lt;
use crate::record_files::{NewRecord, RecordKind, RenamedRecord};
use crate::text::{chars_of, has_prefix, owned, unicode_lowercase};
use crate::theme::opt_string_view;
use crate::workspace_scanner::{ScannedDocument, ScannedDocumentStatus};

verus! {

/// A note as listed.
pub struct NoteSummary {
    pub document_id: String,
    pub title: String,
    pub markdown_relative_path: String,
    pub excerpt: String,
    pub status: ScannedDocumentStatus,
    pub updated_at: Option<String>,
}

/// A note as read.
pub struct NoteDocument {
    pub document_id: String,
    pub title: String,
    pub markdown_relative_path: String,
    pub markdown_body: String,
    pub parsed_entity: ParsedEntityContract,
    pub schema_warnings: Vec<String>,
    pub document_metadata: DocumentMetadata,
    pub layout_metadata: Option<LayoutMetadata>,
}

/// Lists, reads, creates, updates and renames notes.
pub struct NotesService;

/// The view of a note summary: id, title, path, excerpt, status and
/// update time.
pub open spec fn note_summary_view(s: NoteSummary) -> (Seq<char>, Seq<char>, Seq<char>, Seq<char>, ScannedDocumentStatus, Option<Seq<char>>) {
    (s.document_id@, s.title@, s.markdown_relative_path@, s.excerpt@, s.status, opt_string_view(s.updated_at))
}

/// A scanned document is a note by its type or by its folder.
pub open spec fn is_note_document(d: ScannedDocument) -> bool {
    d.document_type@ == "note"@ || has_prefix(d.markdown_relative_path@, "modules/notes/data/"@)
}

/// The summaries of the scanned notes that have an id, in scan order, each
/// with the update time of its metadata where that was read.
pub open spec fn listed_notes(docs: Seq<(ScannedDocument, Option<String>)>) -> Seq<
    (Seq<char>, Seq<char>, Seq<char>, Seq<char>, ScannedDocumentStatus, Option<Seq<char>>),
>
    decreases docs.len(),
{
    if docs.len() == 0 {
        seq![]
    } else {
        let rest = listed_notes(docs.drop_last());
        let d = docs.last().0;
        match d.document_id {
            Some(id) => if is_note_document(d) {
                rest.push(
                    (
                        id@,
                        d.title@,
                        d.markdown_relative_path@,
                        crate::records::excerpt_of(d.markdown_body@),
                        d.status,
                        opt_string_view(docs.last().1),
                    ),
                )
            } else {
                rest
            },
            None => rest,
        }
    }
}

fn copy_opt(o: &Option<String>) -> (r: Option<String>)
    ensures
        opt_string_view(r) == opt_string_view(*o),
{
    match o {
        Some(s) => Some(s.clone()),
        None => None,
    }
}

/// The views of the listed notes.
pub open spec fn note_views(r: Seq<NoteSummary>) -> Seq<(Seq<char>, Seq<char>, Seq<char>, Seq<char>, ScannedDocumentStatus, Option<Seq<char>>)> {
    r.map_values(|s: NoteSummary| note_summary_view(s))
}

/// The listed notes whose lowercased title is `k`, in order.
pub open spec fn notes_titled(vs: Seq<(Seq<char>, Seq<char>, Seq<char>, Seq<char>, ScannedDocumentStatus, Option<Seq<char>>)>, k: Seq<char>) -> Seq<(Seq<char>, Seq<char>, Seq<char>, Seq<char>, ScannedDocumentStatus, Option<Seq<char>>)> {
    vs.filter(|v: (Seq<char>, Seq<char>, Seq<char>, Seq<char>, ScannedDocumentStatus, Option<Seq<char>>)| unicode_lowercase(v.1) == k)
}

impl NotesService {
    /// The notes among the scanned documents (each given with the update
    /// time of its metadata, where that could be read): those with an id,
    /// sorted by their lowercased titles.
    pub fn list_notes(documents: &Vec<(ScannedDocument, Option<String>)>) -> (r: Vec<NoteSummary>)
        ensures
            forall|a: int, b: int|
                0 <= a < b < r@.len() ==> !text_lt(
                    unicode_lowercase(#[trigger] r@[b].title@),
                    unicode_lowercase(#[trigger] r@[a].title@),
                ),
            r@.map_values(|s: NoteSummary| note_summary_view(s)).to_multiset() == listed_notes(
                documents@,
            ).to_multiset(),
            forall|k: Seq<char>| #[trigger] notes_titled(note_views(r@), k) == notes_titled(listed_notes(documents@), k),
    {
        let ghost docs = documents@;
        let mut pairs: Vec<(String, NoteSummary)> = Vec::new();
        let n = documents.len();
        let mut i: usize = 0;
        while i < n
            invariant
                n == docs.len(),
                docs == documents@,
                i <= n,
                pairs@.map_values(|p: (String, NoteSummary)| note_summary_view(p.1)) == listed_notes(
                    docs.take(i as int),
                ),
                forall|k: int| 0 <= k < pairs@.len() ==> (#[trigger] pairs@[k]).0@ == unicode_lowercase(pairs@[k].1.title@),
            decreases n - i,
        {
            let d = &documents[i].0;
            assert(docs.take(i + 1).drop_last() =~= docs.take(i as int));
            assert(docs.take(i + 1).last() == docs[i as int]);
            let ty = chars_of(d.document_type.as_str());
            let p = chars_of(d.markdown_relative_path.as_str());
            let is_note = crate::text::eq_str(ty.as_slice(), "note") || crate::text::starts_with_str(
                p.as_slice(),
                "modules/notes/data/",
            );
            match &d.document_id {
                Some(id) => {
                    if is_note {
                        let s = NoteSummary {
                            document_id: id.clone(),
                            title: d.title.clone(),
                            markdown_relative_path: d.markdown_relative_path.clone(),
                            excerpt: crate::records::markdown_excerpt(d.markdown_body.as_str()),
                            status: d.status,
                            updated_at: copy_opt(&documents[i].1),
                        };
                        let key = crate::text::to_lowercase(s.title.as_str());
                        let ghost b = pairs@;
                        pairs.push((key, s));
                        assert(pairs@.map_values(|p: (String, NoteSummary)| note_summary_view(p.1)) =~= b.map_values(
                            |p: (String, NoteSummary)| note_summary_view(p.1),
                        ).push(note_summary_view(s)));
                    }
                },
                None => {},
            }
            i = i + 1;
        }
        assert(docs.take(n as int) =~= docs);
        let ghost unsorted = pairs@;
        let mut sorted = crate::ordered::sort_by_key(pairs);
        proof {
            broadcast use vstd::seq_lib::group_to_multiset_ensures;

            crate::ordered::lemma_map_multiset(
                sorted@,
                unsorted,
                |p: (String, NoteSummary)| note_summary_view(p.1),
            );
            assert forall|k: int| 0 <= k < sorted@.len() implies (#[trigger] sorted@[k]).0@ == unicode_lowercase(
                sorted@[k].1.title@,
            ) by {
                assert(sorted@.contains(sorted@[k]));
                assert(sorted@.to_multiset().count(sorted@[k]) > 0);
                assert(unsorted.to_multiset().count(sorted@[k]) > 0);
                assert(unsorted.contains(sorted@[k]));
                let w = choose|w: int| 0 <= w < unsorted.len() && unsorted[w] == sorted@[k];
                assert(unsorted[w].0@ == unicode_lowercase(unsorted[w].1.title@));
            }
        }
        let ghost sv = sorted@;
        let mut out: Vec<NoteSummary> = Vec::new();
        let m = sorted.len();
        let mut j: usize = 0;
        while sorted.len() > 0
            invariant
                m == sv.len(),
                j + sorted@.len() == m,
                sorted@ == sv.skip(j as int),
                out@ == sv.take(j as int).map_values(|p: (String, NoteSummary)| p.1),
            decreases sorted@.len(),
        {
            let pair = sorted.remove(0);
            assert(pair == sv[j as int]);
            assert(sorted@ =~= sv.skip(j + 1));
            out.push(pair.1);
            assert(out@ =~= sv.take(j + 1).map_values(|p: (String, NoteSummary)| p.1));
            j = j + 1;
        }
        assert(sv.take(m as int) =~= sv);
        assert(out@.map_values(|s: NoteSummary| note_summary_view(s)) =~= sv.map_values(
            |p: (String, NoteSummary)| note_summary_view(p.1),
        ));
        proof {
            let view = |s: NoteSummary| note_summary_view(s);
            assert(out@ =~= crate::ordered::pair_values(sv));
            assert(crate::ordered::pair_values(unsorted).map_values(view) =~= unsorted.map_values(
                |p: (String, NoteSummary)| note_summary_view(p.1),
            ));
            assert forall|k: Seq<char>| #[trigger] notes_titled(note_views(out@), k) == notes_titled(listed_notes(docs), k) by {
                let g = |v: (Seq<char>, Seq<char>, Seq<char>, Seq<char>, ScannedDocumentStatus, Option<Seq<char>>)| unicode_lowercase(v.1) == k;
                crate::ordered::lemma_with_key_views(sv, view, g, k);
                crate::ordered::lemma_with_key_views(unsorted, view, g, k);
                assert(crate::ordered::with_key(sv, k) == crate::ordered::with_key(unsorted, k));
                assert(note_views(out@) =~= out@.map_values(view));
                assert(notes_titled(note_views(out@), k) == crate::ordered::pair_values(sv).map_values(view).filter(g));
                assert(notes_titled(listed_notes(docs), k) == crate::ordered::pair_values(unsorted).map_values(view).filter(g));
            }
        }
        out
    }

    /// Reads a note from its metadata, its Markdown, its layout metadata
    /// (where that could be read) and the outcome of loading the notes
    /// schema; see `read_record`.
    pub fn read_note(
        metadata: DocumentMetadata,
        markdown: &str,
        layout_metadata: Option<LayoutMetadata>,
        schema: Result<ModuleSchema, String>,
    ) -> (r: Result<NoteDocument, String>)
        ensures
            match r {
                Ok(n) => crate::record_files::valid_content_path(RecordKind::Note, metadata.current_path@)
                    && n.document_id@ == metadata.document_id@ && n.markdown_relative_path@
                    == metadata.current_path@ && n.markdown_body@ == crate::record_files::record_body(markdown@)
                    && n.title@ == crate::records::record_title(
                    crate::record_files::record_body(markdown@),
                    metadata.current_path@,
                    "Untitled Note"@,
                ) && n.document_metadata == metadata && n.layout_metadata == layout_metadata
                    && opt_string_view(n.parsed_entity.module_id) == Some("notes"@)
                    && opt_string_view(n.parsed_entity.entity_type) == Some("note"@),
                Err(e) => !crate::record_files::valid_content_path(RecordKind::Note, metadata.current_path@) && e@
                    == crate::record_files::content_path_error(RecordKind::Note),
            },
    {
        let rr = match crate::record_files::read_record(RecordKind::Note, &metadata, markdown, schema) {
            Ok(rr) => rr,
            Err(e) => {
                return Err(e);
            },
        };
        Ok(NoteDocument {
            document_id: metadata.document_id.clone(),
            title: rr.title,
            markdown_relative_path: metadata.current_path.clone(),
            markdown_body: rr.markdown_body,
            parsed_entity: rr.parsed_entity,
            schema_warnings: rr.schema_warnings,
            document_metadata: metadata,
            layout_metadata,
        })
    }

    /// Makes a new note, ready to be written (see `new_record`).
    pub fn create_note(
        title: &str,
        markdown_body: Option<&str>,
        existing_paths: &Vec<String>,
        process_id: u32,
    ) -> (r: Result<NewRecord, String>)
        ensures
            match r {
                Ok(rec) => crate::record_files::new_record_fields(
                    rec,
                    RecordKind::Note,
                    title@,
                    match markdown_body {
                        Some(b) => b@,
                        None => ""@,
                    },
                ) && !crate::text::string_views(existing_paths@).contains(rec.markdown_relative_path@)
                    && crate::record_files::new_record_error(RecordKind::Note, title@, crate::text::string_views(existing_paths@)) is None,
                Err(e) => crate::record_files::new_record_error(RecordKind::Note, title@, crate::text::string_views(existing_paths@))
                    == Some(e@),
            },
    {
        crate::record_files::new_record(RecordKind::Note, title, markdown_body, existing_paths, process_id)
    }

    /// Updates a note's body: refused for a note path outside the notes
    /// folder, or, unless the conflict is to be overwritten, when the note
    /// was changed since the expected hash (by default its metadata's) was
    /// taken; else see `update_record`.  `current_markdown` is the note's
    /// Markdown as it now is on disk (not consulted when overwriting).
    pub fn update_note(
        metadata: DocumentMetadata,
        markdown_body: &str,
        current_markdown: &str,
        expected_content_hash: Option<String>,
        overwrite_conflict: bool,
    ) -> (r: Result<(DocumentMetadata, String), String>)
        ensures
            !crate::record_files::valid_content_path(RecordKind::Note, metadata.current_path@) ==> (r matches Err(
                e,
            ) && e@ == crate::record_files::content_path_error(RecordKind::Note)),
            r matches Ok(p) ==> crate::record_files::valid_content_path(RecordKind::Note, metadata.current_path@)
                && p.1@ == crate::markdown_document::managed_markdown(
                crate::records::body_with_title(markdown_body@, metadata.current_path@, "Untitled Note"@),
                metadata.document_id@,
                metadata.frontmatter_contract.required_value@,
            ) && p.0.document_type@ == "note"@ && p.0 == (DocumentMetadata {
                document_type: p.0.document_type,
                content_hash: p.0.content_hash,
                updated_at: p.0.updated_at,
                ..metadata
            }),
            r matches Ok(p) ==> p.0.content_hash@ == crate::storage::text_hash(p.1@),
            r is Ok <==> (crate::record_files::valid_content_path(RecordKind::Note, metadata.current_path@) && (
            overwrite_conflict || crate::storage::text_hash(current_markdown@) == match expected_content_hash {
                Some(h) => h@,
                None => metadata.content_hash@,
            })),
            crate::record_files::valid_content_path(RecordKind::Note, metadata.current_path@) ==> (r matches Err(e)
                ==> e@ == crate::record_files::stale_write_error(RecordKind::Note)),
    {
        match crate::record_files::validate_record_content_path(RecordKind::Note, metadata.current_path.as_str()) {
            Ok(_) => {},
            Err(e) => {
                return Err(e);
            },
        }
        let expected = match expected_content_hash {
            Some(h) => h,
            None => metadata.content_hash.clone(),
        };
        match crate::record_files::reject_stale_write(
            RecordKind::Note,
            current_markdown,
            expected.as_str(),
            overwrite_conflict,
        ) {
            Ok(_) => {},
            Err(e) => {
                return Err(e);
            },
        }
        crate::record_files::update_record(RecordKind::Note, metadata, markdown_body)
    }

    /// Renames a note (see `rename_record`); `new_path_exists` tells whether
    /// a file exists at the path the new title gives.
    pub fn rename_note(
        metadata: DocumentMetadata,
        markdown_body: &str,
        new_title: &str,
        new_path_exists: bool,
    ) -> (r: Result<RenamedRecord, String>)
        ensures
            ({
                let t = crate::records::cleaned_title(new_title@, "Untitled Note"@);
                let np = crate::record_files::path_for_title(RecordKind::Note, t);
                match r {
                    Ok(rr) => rr.document_metadata.current_path@ == np && rr.markdown_body@ == crate::records::retitled(
                        markdown_body@,
                        t,
                    ) && rr.document_metadata.document_id == metadata.document_id,
                    Err(e) => !crate::record_files::valid_content_path(RecordKind::Note, metadata.current_path@)
                        || !crate::record_files::valid_content_path(RecordKind::Note, np) || (np
                        != metadata.current_path@ && new_path_exists && e@
                        == crate::record_files::rename_collision_error(RecordKind::Note, np)),
                }
            }),
    {
        crate::record_files::rename_record(RecordKind::Note, metadata, markdown_body, new_title, new_path_exists)
    }
}

} // verus!
