//! The adopted corpus: where the data root is, and the rules an unpacked
//! canonical corpus must meet before it is adopted.
use vstd::prelude::*;
use crate::json::{
    array_v, get_str_v, get_u64_v, get_v, group_json_view, str_v, view_arr, view_obj, Json,
    JsonV,
};
use crate::text::{chars_of, split_char, split_char_exec, str_eq, string_of, trim, trim_chars};

verus! {

// ---------------------------------------------------------------------------
// The command line

/// The operation a corpus command line asks for.
#[derive(PartialEq, Eq, Structural, Debug, Clone, Copy)]
pub enum CorpusOperation {
    Adopt,
    Status,
    Usage,
}

/// The operation a corpus command line names; `Err` carries an unknown word.
pub open spec fn corpus_command_spec(rest: Seq<Seq<char>>) -> Result<CorpusOperation, Seq<char>> {
    if rest.len() == 0 {
        Ok(CorpusOperation::Usage)
    } else if rest[0] == "adopt"@ {
        Ok(CorpusOperation::Adopt)
    } else if rest[0] == "status"@ {
        Ok(CorpusOperation::Status)
    } else if rest[0] == "--help"@ || rest[0] == "-h"@ {
        Ok(CorpusOperation::Usage)
    } else {
        Err(rest[0])
    }
}

/// Decide which corpus operation a command line asks for; its own arguments
/// follow the operation word.
pub fn run(rest: &[String]) -> (r: Result<CorpusOperation, String>)
    ensures
        match r {
            Ok(op) => corpus_command_spec(crate::crawl::strings_view(rest@)) == Ok::<
                CorpusOperation,
                Seq<char>,
            >(op),
            Err(w) => corpus_command_spec(crate::crawl::strings_view(rest@)) == Err::<
                CorpusOperation,
                Seq<char>,
            >(w@),
        },
{
    if rest.len() == 0 {
        return Ok(CorpusOperation::Usage);
    }
    let w = rest[0].as_str();
    if str_eq(w, "adopt") {
        Ok(CorpusOperation::Adopt)
    } else if str_eq(w, "status") {
        Ok(CorpusOperation::Status)
    } else if str_eq(w, "--help") || str_eq(w, "-h") {
        Ok(CorpusOperation::Usage)
    } else {
        Err(rest[0].clone())
    }
}

// ---------------------------------------------------------------------------
// The data root

pub const CONFIG_SCHEMA: &'static str = "spis.corpus-location.v1";

/// The root data is read from: the adopted corpus when one is configured,
/// else the checkout the program was built from.
pub fn data_root(configured: Option<String>, checkout: &str) -> (r: String)
    ensures
        match configured {
            Some(c) => r@ == c@,
            None => r@ == checkout@,
        },
{
    match configured {
        Some(c) => c,
        None => String::from_str(checkout),
    }
}

/// Why a remembered corpus location is unusable.
pub enum LocationError {
    /// The document does not declare the corpus-location schema.
    UnsupportedSchema,
    /// The document names no root.
    NoRoot,
}

/// The root a corpus-location document names.
pub fn configured_root_from_document(document: &Json) -> (r: Result<String, LocationError>)
    ensures
        match r {
            Ok(root) => get_str_v(document@, "schema"@) == Some(CONFIG_SCHEMA@) && get_str_v(
                document@,
                "root"@,
            ) == Some(root@),
            Err(LocationError::UnsupportedSchema) => get_str_v(document@, "schema"@) != Some(
                CONFIG_SCHEMA@,
            ),
            Err(LocationError::NoRoot) => get_str_v(document@, "schema"@) == Some(CONFIG_SCHEMA@)
                && get_str_v(document@, "root"@) is None,
        },
{
    match document.get_str("schema") {
        Some(s) => if !str_eq(s, CONFIG_SCHEMA) {
            return Err(LocationError::UnsupportedSchema);
        },
        None => return Err(LocationError::UnsupportedSchema),
    }
    match document.get_str("root") {
        Some(root) => Ok(String::from_str(root)),
        None => Err(LocationError::NoRoot),
    }
}

// ---------------------------------------------------------------------------
// Names and paths inside a corpus

/// A catalog slug that may name a directory: not empty, `.` or `..`, and
/// without `/` or a backslash.
pub open spec fn corpus_component_spec(value: Seq<char>) -> bool {
    value.len() > 0 && value != "."@ && value != ".."@ && !value.contains('/') && !value.contains(
        '\\',
    )
}

pub fn corpus_safe_component(value: &str) -> (r: bool)
    ensures
        r == corpus_component_spec(value@),
{
    let v = chars_of(value);
    if v.len() == 0 || str_eq(value, ".") || str_eq(value, "..") {
        return false;
    }
    !crate::text::contains_char(&v, '/') && !crate::text::contains_char(&v, '\\')
}

/// A string field that is present and not blank.
pub open spec fn required_text_spec(document: JsonV, key: Seq<char>) -> Option<Seq<char>> {
    match get_str_v(document, key) {
        Some(s) => if trim(s).len() > 0 {
            Some(s)
        } else {
            None
        },
        None => None,
    }
}

pub fn required_text<'a>(document: &'a Json, key: &str) -> (r: Option<&'a str>)
    ensures
        match r {
            Some(s) => required_text_spec(document@, key@) == Some(s@),
            None => required_text_spec(document@, key@) is None,
        },
{
    match document.get_str(key) {
        Some(s) => if trim_chars(&chars_of(s)).len() > 0 {
            Some(s)
        } else {
            None
        },
        None => None,
    }
}

/// A relative path that stays inside the directory it is joined to: not
/// absolute, no `..` component, and not starting with a `.` component.
pub open spec fn contained_relative_spec(rel: Seq<char>) -> bool {
    let parts = split_char(rel, '/');
    &&& !(rel.len() > 0 && rel[0] == '/')
    &&& !(parts.len() > 0 && parts[0] == "."@)
    &&& forall|i: int| 0 <= i < parts.len() ==> #[trigger] parts[i] != ".."@
}

pub fn is_contained_relative(rel: &str) -> (r: bool)
    ensures
        r == contained_relative_spec(rel@),
{
    let v = chars_of(rel);
    if v.len() > 0 && v[0] == '/' {
        return false;
    }
    let parts = split_char_exec(&v, '/');
    let ghost pv = parts@.map_values(|x: Vec<char>| x@);
    let dot = chars_of(".");
    let dots = chars_of("..");
    if parts.len() > 0 && crate::text::seq_eq(&parts[0], &dot) {
        assert(pv[0] == "."@);
        return false;
    }
    let mut i: usize = 0;
    while i < parts.len()
        invariant
            i <= parts@.len(),
            pv == parts@.map_values(|x: Vec<char>| x@),
            pv == split_char(rel@, '/'),
            dots@ == ".."@,
            forall|j: int| 0 <= j < i ==> #[trigger] pv[j] != ".."@,
        decreases parts.len() - i,
    {
        if crate::text::seq_eq(&parts[i], &dots) {
            assert(pv[i as int] == ".."@);
            return false;
        }
        assert(pv[i as int] == parts@[i as int]@);
        i = i + 1;
    }
    true
}

// ---------------------------------------------------------------------------
// The index and its catalogs

pub const INDEX_SCHEMA: &'static str = "wisent.example-catalog.v2";

pub const SOURCES_SCHEMA: &'static str = "wisent.example-catalog.v2";

pub const REFERENCES_SCHEMA: &'static str = "wisent.full-reference-catalog.v2";

pub const RECORD_SCHEMA: &'static str = "wisent.full-product-reference.v2";

/// Why an unpacked corpus was refused.
pub enum CorpusError {
    /// The index does not declare the canonical schema.
    NotCanonicalIndex,
    /// The index has no catalogs array.
    NoCatalogs,
    /// The catalogs array is empty.
    EmptyCatalogs,
    /// A catalog entry has no slug.
    NoSlug,
    /// A slug is not a safe path component.
    UnsafeSlug(String),
    /// A slug occurs twice.
    RepeatedCatalog(String),
    /// A catalog lacks a required text field (slug, field).
    MissingText(String, String),
    /// A catalog has no numeric count.
    NoCount(String),
    /// A catalog lacks a numeric field (slug, field).
    MissingNumber(String, String),
    /// A catalog has no measured provenance object.
    NoMeasuredProvenance(String),
    /// A catalog has no source path.
    NoSource(String),
    /// A catalog has no reference index path.
    NoReferenceIndex(String),
}

/// What one valid catalog entry of the index names.
pub struct CatalogEntry {
    pub slug: String,
    pub count: u64,
    pub source: String,
    pub full_reference_source: String,
}

/// The catalogs array of a canonical index.
pub open spec fn index_catalogs_spec(index: JsonV) -> Result<Seq<JsonV>, CorpusErrorKind> {
    if get_str_v(index, "schema"@) != Some(INDEX_SCHEMA@) {
        Err(CorpusErrorKind::NotCanonicalIndex)
    } else {
        match get_v(index, "catalogs"@) {
            Some(c) => match array_v(c) {
                Some(items) => if items.len() == 0 {
                    Err(CorpusErrorKind::EmptyCatalogs)
                } else {
                    Ok(items)
                },
                None => Err(CorpusErrorKind::NoCatalogs),
            },
            None => Err(CorpusErrorKind::NoCatalogs),
        }
    }
}

/// The kind of a [`CorpusError`].
pub enum CorpusErrorKind {
    NotCanonicalIndex,
    NoCatalogs,
    EmptyCatalogs,
    NoSlug,
    UnsafeSlug,
    RepeatedCatalog,
    MissingText,
    NoCount,
    MissingNumber,
    NoMeasuredProvenance,
    NoSource,
    NoReferenceIndex,
}

impl CorpusError {
    pub open spec fn kind(&self) -> CorpusErrorKind {
        match self {
            CorpusError::NotCanonicalIndex => CorpusErrorKind::NotCanonicalIndex,
            CorpusError::NoCatalogs => CorpusErrorKind::NoCatalogs,
            CorpusError::EmptyCatalogs => CorpusErrorKind::EmptyCatalogs,
            CorpusError::NoSlug => CorpusErrorKind::NoSlug,
            CorpusError::UnsafeSlug(_) => CorpusErrorKind::UnsafeSlug,
            CorpusError::RepeatedCatalog(_) => CorpusErrorKind::RepeatedCatalog,
            CorpusError::MissingText(_, _) => CorpusErrorKind::MissingText,
            CorpusError::NoCount(_) => CorpusErrorKind::NoCount,
            CorpusError::MissingNumber(_, _) => CorpusErrorKind::MissingNumber,
            CorpusError::NoMeasuredProvenance(_) => CorpusErrorKind::NoMeasuredProvenance,
            CorpusError::NoSource(_) => CorpusErrorKind::NoSource,
            CorpusError::NoReferenceIndex(_) => CorpusErrorKind::NoReferenceIndex,
        }
    }
}

/// The catalogs of a canonical corpus index.
pub fn index_catalogs(index: &Json) -> (r: Result<&[Json], CorpusError>)
    ensures
        match r {
            Ok(items) => index_catalogs_spec(index@) == Ok::<Seq<JsonV>, CorpusErrorKind>(
                view_arr(items@),
            ),
            Err(e) => index_catalogs_spec(index@) == Err::<Seq<JsonV>, CorpusErrorKind>(e.kind()),
        },
{
    broadcast use group_json_view;

    match index.get_str("schema") {
        Some(s) => if !str_eq(s, INDEX_SCHEMA) {
            return Err(CorpusError::NotCanonicalIndex);
        },
        None => return Err(CorpusError::NotCanonicalIndex),
    }
    match index.get("catalogs") {
        Some(c) => match c.as_array() {
            Some(items) => if items.len() == 0 {
                Err(CorpusError::EmptyCatalogs)
            } else {
                Ok(items.as_slice())
            },
            None => Err(CorpusError::NoCatalogs),
        },
        None => Err(CorpusError::NoCatalogs),
    }
}

/// A catalog entry of the index meets the index contract: a safe slug not
/// seen before, title and description, numeric counts, a measured
/// provenance object and both source paths.
pub open spec fn catalog_entry_ok(catalog: JsonV, seen: Seq<Seq<char>>) -> bool {
    match required_text_spec(catalog, "slug"@) {
        None => false,
        Some(slug) => {
            &&& corpus_component_spec(slug)
            &&& !seen.contains(slug)
            &&& required_text_spec(catalog, "title"@) is Some
            &&& required_text_spec(catalog, "description"@) is Some
            &&& get_u64_v(catalog, "count"@) is Some
            &&& get_u64_v(catalog, "image_count"@) is Some
            &&& get_u64_v(catalog, "structure_count"@) is Some
            &&& get_u64_v(catalog, "complete_record_count"@) is Some
            &&& get_u64_v(catalog, "partial_record_count"@) is Some
            &&& match get_v(catalog, "measured_provenance"@) {
                Some(JsonV::Object(_)) => true,
                _ => false,
            }
            &&& required_text_spec(catalog, "source"@) is Some
            &&& required_text_spec(catalog, "full_reference_source"@) is Some
        },
    }
}

fn numeric_field(catalog: &Json, slug: &str, key: &str) -> (r: Result<(), CorpusError>)
    ensures
        r is Ok <==> crate::json::get_u64_v(catalog@, key@) is Some,
        r matches Err(e) ==> e.kind() == CorpusErrorKind::MissingNumber,
{
    match catalog.get_u64(key) {
        Some(_) => Ok(()),
        None => Err(CorpusError::MissingNumber(String::from_str(slug), String::from_str(key))),
    }
}

fn text_field(catalog: &Json, slug: &str, key: &str) -> (r: Result<(), CorpusError>)
    ensures
        r is Ok <==> required_text_spec(catalog@, key@) is Some,
        r matches Err(e) ==> e.kind() == CorpusErrorKind::MissingText,
{
    match required_text(catalog, key) {
        Some(_) => Ok(()),
        None => Err(CorpusError::MissingText(String::from_str(slug), String::from_str(key))),
    }
}

/// Check one catalog entry of the index against the slugs already seen.
pub fn check_catalog_entry(catalog: &Json, seen: &Vec<String>) -> (r: Result<
    CatalogEntry,
    CorpusError,
>)
    ensures
        r is Ok <==> catalog_entry_ok(catalog@, crate::text::string_views(seen@)),
        r matches Ok(e) ==> required_text_spec(catalog@, "slug"@) == Some(e.slug@) && get_u64_v(
            catalog@,
            "count"@,
        ) == Some(e.count) && required_text_spec(catalog@, "source"@) == Some(e.source@)
            && required_text_spec(catalog@, "full_reference_source"@) == Some(
            e.full_reference_source@,
        ),
{
    let slug = match required_text(catalog, "slug") {
        Some(s) => s,
        None => return Err(CorpusError::NoSlug),
    };
    if !corpus_safe_component(slug) {
        return Err(CorpusError::UnsafeSlug(String::from_str(slug)));
    }
    if crate::runstate::has_state(seen, slug) {
        return Err(CorpusError::RepeatedCatalog(String::from_str(slug)));
    }
    text_field(catalog, slug, "title")?;
    text_field(catalog, slug, "description")?;
    let count = match catalog.get_u64("count") {
        Some(n) => n,
        None => return Err(CorpusError::NoCount(String::from_str(slug))),
    };
    numeric_field(catalog, slug, "image_count")?;
    numeric_field(catalog, slug, "structure_count")?;
    numeric_field(catalog, slug, "complete_record_count")?;
    numeric_field(catalog, slug, "partial_record_count")?;
    match catalog.get("measured_provenance") {
        Some(Json::Object(_)) => {},
        _ => return Err(CorpusError::NoMeasuredProvenance(String::from_str(slug))),
    }
    let source = match required_text(catalog, "source") {
        Some(s) => s,
        None => return Err(CorpusError::NoSource(String::from_str(slug))),
    };
    let references = match required_text(catalog, "full_reference_source") {
        Some(s) => s,
        None => return Err(CorpusError::NoReferenceIndex(String::from_str(slug))),
    };
    Ok(
        CatalogEntry {
            slug: String::from_str(slug),
            count,
            source: String::from_str(source),
            full_reference_source: String::from_str(references),
        },
    )
}

// ---------------------------------------------------------------------------
// A catalog's documents

/// Why a catalog's source, reference index or records were refused.
pub enum CatalogError {
    /// The source document does not identify the catalog.
    SourceMismatch,
    /// The reference index does not identify the catalog.
    ReferencesMismatch,
    /// The source has no examples array.
    NoExamples,
    /// The source's counts differ from its examples.
    SourceCounts,
    /// The reference index has no references array.
    NoReferences,
    /// The reference index's counts differ from its references.
    ReferenceCounts,
    /// A reference entry has no path.
    NoEntryPath,
    /// A record path occurs twice.
    RepeatedRecordPath,
    /// A record is not a canonical record.
    NotCanonicalRecord,
    /// A record has no evidence status.
    NoEvidenceStatus,
    /// A record has no evidence gaps array.
    NoEvidenceGaps,
    /// The index entry's facts differ from its record.
    EntryFacts,
}

/// The length of an array field, when the field is an array.
pub open spec fn array_len_v(document: JsonV, key: Seq<char>) -> Option<nat> {
    match get_v(document, key) {
        Some(a) => match array_v(a) {
            Some(items) => Some(items.len()),
            None => None,
        },
        None => None,
    }
}

/// The first check a catalog's source and reference index fail, if any.
pub open spec fn catalog_source_check(
    slug: Seq<char>,
    declared: u64,
    source: JsonV,
    references: JsonV,
) -> Option<CatalogError> {
    if get_str_v(source, "schema"@) != Some(SOURCES_SCHEMA@) || get_str_v(source, "catalog"@)
        != Some(slug) {
        Some(CatalogError::SourceMismatch)
    } else if get_str_v(references, "schema"@) != Some(REFERENCES_SCHEMA@) || get_str_v(
        references,
        "catalog"@,
    ) != Some(slug) {
        Some(CatalogError::ReferencesMismatch)
    } else {
        match array_len_v(source, "examples"@) {
            None => Some(CatalogError::NoExamples),
            Some(n) => if get_u64_v(source, "count"@) != Some(n as u64) || declared != n {
                Some(CatalogError::SourceCounts)
            } else {
                None
            },
        }
    }
}

fn array_len(document: &Json, key: &str) -> (r: Option<usize>)
    ensures
        match r {
            Some(n) => array_len_v(document@, key@) == Some(n as nat),
            None => array_len_v(document@, key@) is None,
        },
{
    broadcast use group_json_view;

    match document.get(key) {
        Some(a) => match a.as_array() {
            Some(items) => Some(items.len()),
            None => None,
        },
        None => None,
    }
}

fn str_field_is(document: &Json, key: &str, expected: &str) -> (r: bool)
    ensures
        r == (get_str_v(document@, key@) == Some(expected@)),
{
    match document.get_str(key) {
        Some(s) => str_eq(s, expected),
        None => false,
    }
}

fn u64_field_is(document: &Json, key: &str, expected: u64) -> (r: bool)
    ensures
        r == (get_u64_v(document@, key@) == Some(expected)),
{
    match document.get_u64(key) {
        Some(n) => n == expected,
        None => false,
    }
}

/// Check that a catalog's source and reference index identify it and that
/// the source's counts match its examples.
pub fn check_catalog_source(slug: &str, declared: u64, source: &Json, references: &Json) -> (r:
    Result<(), CatalogError>)
    ensures
        match catalog_source_check(slug@, declared, source@, references@) {
            None => r is Ok,
            Some(e) => r == Err::<(), CatalogError>(e),
        },
{
    if !str_field_is(source, "schema", SOURCES_SCHEMA) || !str_field_is(source, "catalog", slug) {
        return Err(CatalogError::SourceMismatch);
    }
    if !str_field_is(references, "schema", REFERENCES_SCHEMA) || !str_field_is(
        references,
        "catalog",
        slug,
    ) {
        return Err(CatalogError::ReferencesMismatch);
    }
    let n = match array_len(source, "examples") {
        Some(n) => n,
        None => return Err(CatalogError::NoExamples),
    };
    if !u64_field_is(source, "count", n as u64) || declared != n as u64 {
        return Err(CatalogError::SourceCounts);
    }
    Ok(())
}

/// The references of a reference index whose counts match.
pub open spec fn reference_entries_spec(declared: u64, references: JsonV) -> Result<
    Seq<JsonV>,
    CatalogError,
> {
    match get_v(references, "references"@) {
        Some(a) => match array_v(a) {
            Some(items) => if get_u64_v(references, "reference_count"@) != Some(
                items.len() as u64,
            ) || declared != items.len() {
                Err(CatalogError::ReferenceCounts)
            } else {
                Ok(items)
            },
            None => Err(CatalogError::NoReferences),
        },
        None => Err(CatalogError::NoReferences),
    }
}

/// The references of a reference index whose declared counts match them.
pub fn reference_entries(declared: u64, references: &Json) -> (r: Result<&[Json], CatalogError>)
    ensures
        match r {
            Ok(items) => reference_entries_spec(declared, references@) == Ok::<
                Seq<JsonV>,
                CatalogError,
            >(view_arr(items@)),
            Err(e) => reference_entries_spec(declared, references@) == Err::<
                Seq<JsonV>,
                CatalogError,
            >(e),
        },
{
    broadcast use group_json_view;

    match references.get("references") {
        Some(a) => match a.as_array() {
            Some(items) => {
                if !u64_field_is(references, "reference_count", items.len() as u64) || declared
                    != items.len() as u64 {
                    return Err(CatalogError::ReferenceCounts);
                }
                Ok(items.as_slice())
            },
            None => Err(CatalogError::NoReferences),
        },
        None => Err(CatalogError::NoReferences),
    }
}

/// The first check a reference record fails against its index entry.
pub open spec fn record_check(entry: JsonV, record: JsonV) -> Option<CatalogError> {
    if get_str_v(record, "schema"@) != Some(RECORD_SCHEMA@) {
        Some(CatalogError::NotCanonicalRecord)
    } else {
        match get_str_v(record, "evidence_status"@) {
            None => Some(CatalogError::NoEvidenceStatus),
            Some(status) => match array_len_v(record, "evidence_gaps"@) {
                None => Some(CatalogError::NoEvidenceGaps),
                Some(gaps) => if get_str_v(entry, "evidence_status"@) != Some(status) || get_u64_v(
                    entry,
                    "evidence_gap_count"@,
                ) != Some(gaps as u64) {
                    Some(CatalogError::EntryFacts)
                } else {
                    None
                },
            },
        }
    }
}

/// Check a reference record against the index entry that points at it.
pub fn check_reference_record(entry: &Json, record: &Json) -> (r: Result<(), CatalogError>)
    ensures
        match record_check(entry@, record@) {
            None => r is Ok,
            Some(e) => r == Err::<(), CatalogError>(e),
        },
{
    if !str_field_is(record, "schema", RECORD_SCHEMA) {
        return Err(CatalogError::NotCanonicalRecord);
    }
    let status = match record.get_str("evidence_status") {
        Some(s) => s,
        None => return Err(CatalogError::NoEvidenceStatus),
    };
    let gaps = match array_len(record, "evidence_gaps") {
        Some(n) => n,
        None => return Err(CatalogError::NoEvidenceGaps),
    };
    if !str_field_is(entry, "evidence_status", status) || !u64_field_is(
        entry,
        "evidence_gap_count",
        gaps as u64,
    ) {
        return Err(CatalogError::EntryFacts);
    }
    Ok(())
}

/// Why the index's totals were refused.
pub enum TotalsError {
    CatalogCount,
    RecordCount,
}

/// Check the index's declared catalog and record totals.
pub fn check_totals(index: &Json, catalogs: u64, records: u64) -> (r: Result<(), TotalsError>)
    ensures
        get_u64_v(index@, "catalog_count"@) != Some(catalogs) ==> r
            == Err::<(), TotalsError>(TotalsError::CatalogCount),
        get_u64_v(index@, "catalog_count"@) == Some(catalogs) && get_u64_v(
            index@,
            "record_count"@,
        ) != Some(records) ==> r == Err::<(), TotalsError>(TotalsError::RecordCount),
        get_u64_v(index@, "catalog_count"@) == Some(catalogs) && get_u64_v(
            index@,
            "record_count"@,
        ) == Some(records) ==> r is Ok,
{
    if !u64_field_is(index, "catalog_count", catalogs) {
        return Err(TotalsError::CatalogCount);
    }
    if !u64_field_is(index, "record_count", records) {
        return Err(TotalsError::RecordCount);
    }
    Ok(())
}

/// The SHA-256 of the index file, as the adopted location records it.
pub fn index_digest(index_bytes: &[u8]) -> (r: String)
    ensures
        r@ == crate::digest::hex_lower_spec(crate::digest::sha256_spec(index_bytes@)),
{
    crate::digest::sha256_hex(index_bytes)
}

// ---------------------------------------------------------------------------
// Evidence paths inside documents

/// The `local_path` and `motion_path` values a document names, depth first
/// in document order; `Err` carries the first such key whose value is not a
/// string.
pub open spec fn local_paths_spec(v: JsonV) -> Result<Seq<Seq<char>>, Seq<char>>
    decreases v,
{
    match v {
        JsonV::Object(fields) => local_paths_fields(fields),
        JsonV::Array(items) => local_paths_items(items),
        _ => Ok(Seq::empty()),
    }
}

pub open spec fn local_paths_fields(fields: Seq<(Seq<char>, JsonV)>) -> Result<
    Seq<Seq<char>>,
    Seq<char>,
>
    decreases fields,
{
    if fields.len() == 0 {
        Ok(Seq::empty())
    } else {
        match local_paths_fields(fields.drop_last()) {
            Err(k) => Err(k),
            Ok(before) => {
                let (key, value) = fields.last();
                if key == "local_path"@ || key == "motion_path"@ {
                    match str_v(value) {
                        Some(p) => Ok(before.push(p)),
                        None => Err(key),
                    }
                } else {
                    match local_paths_spec(value) {
                        Ok(more) => Ok(before + more),
                        Err(k) => Err(k),
                    }
                }
            },
        }
    }
}

pub open spec fn local_paths_items(items: Seq<JsonV>) -> Result<Seq<Seq<char>>, Seq<char>>
    decreases items,
{
    if items.len() == 0 {
        Ok(Seq::empty())
    } else {
        match local_paths_items(items.drop_last()) {
            Err(k) => Err(k),
            Ok(before) => match local_paths_spec(items.last()) {
                Ok(more) => Ok(before + more),
                Err(k) => Err(k),
            },
        }
    }
}

proof fn lemma_fields_err_extends(fv: Seq<(Seq<char>, JsonV)>, i: int, n: int)
    requires
        0 <= i <= n <= fv.len(),
        local_paths_fields(fv.take(i)) is Err,
    ensures
        local_paths_fields(fv.take(n)) == local_paths_fields(fv.take(i)),
    decreases n - i,
{
    if n > i {
        lemma_fields_err_extends(fv, i, n - 1);
        assert(fv.take(n).drop_last() =~= fv.take(n - 1));
    }
    if n == fv.len() {
        assert(fv.take(n) =~= fv);
    }
}

proof fn lemma_items_err_extends(iv: Seq<JsonV>, i: int, n: int)
    requires
        0 <= i <= n <= iv.len(),
        local_paths_items(iv.take(i)) is Err,
    ensures
        local_paths_items(iv.take(n)) == local_paths_items(iv.take(i)),
    decreases n - i,
{
    if n > i {
        lemma_items_err_extends(iv, i, n - 1);
        assert(iv.take(n).drop_last() =~= iv.take(n - 1));
    }
}

pub open spec fn local_paths_result(v: JsonV) -> Result<Seq<Seq<char>>, Seq<char>> {
    local_paths_spec(v)
}

/// The `local_path` and `motion_path` values of a document, depth first in
/// document order; `Err` names the first such key whose value is not a
/// string.
pub fn local_paths(document: &Json) -> (r: Result<Vec<String>, String>)
    ensures
        match r {
            Ok(paths) => local_paths_spec(document@) == Ok::<Seq<Seq<char>>, Seq<char>>(
                crate::text::string_views(paths@),
            ),
            Err(key) => local_paths_spec(document@) == Err::<Seq<Seq<char>>, Seq<char>>(key@),
        },
    decreases document,
{
    match document {
        Json::Object(fields) => local_paths_in_fields(fields),
        Json::Array(items) => local_paths_in_items(items),
        _ => {
            assert(crate::text::string_views(Seq::<String>::empty()) =~= Seq::<Seq<char>>::empty());
            Ok(Vec::new())
        },
    }
}

fn local_paths_in_fields(fields: &Vec<(String, Json)>) -> (r: Result<Vec<String>, String>)
    ensures
        match r {
            Ok(paths) => local_paths_fields(view_obj(fields@)) == Ok::<Seq<Seq<char>>, Seq<char>>(
                crate::text::string_views(paths@),
            ),
            Err(key) => local_paths_fields(view_obj(fields@)) == Err::<Seq<Seq<char>>, Seq<char>>(
                key@,
            ),
        },
    decreases fields,
{
    let ghost fv = view_obj(fields@);
    proof {
        crate::json::lemma_view_obj(fields@);
    }
    let mut out: Vec<String> = Vec::new();
    let mut i: usize = 0;
    assert(fv.take(0) =~= Seq::<(Seq<char>, JsonV)>::empty());
    assert(crate::text::string_views(out@) =~= Seq::<Seq<char>>::empty());
    while i < fields.len()
        invariant
            i <= fields@.len(),
            fv == view_obj(fields@),
            fv.len() == fields@.len(),
            forall|j: int| 0 <= j < fields@.len() ==> #[trigger] fv[j] == (fields@[j].0@, fields@[j].1@),
            local_paths_fields(fv.take(i as int)) == Ok::<Seq<Seq<char>>, Seq<char>>(
                crate::text::string_views(out@),
            ),
        decreases fields.len() - i,
    {
        proof {
            broadcast use vstd::std_specs::vec::axiom_vec_index_decreases;

            assert(decreases_to!(*fields => fields[i as int]));
            assert(decreases_to!(*fields => fields[i as int].1));
        }
        let ghost before = out@;
        assert(fv.take(i + 1).drop_last() =~= fv.take(i as int));
        assert(fv.take(i + 1).last() == fv[i as int]);
        let key = fields[i].0.as_str();
        if str_eq(key, "local_path") || str_eq(key, "motion_path") {
            match fields[i].1.as_str() {
                Some(p) => {
                    out.push(String::from_str(p));
                    assert(crate::text::string_views(out@) =~= crate::text::string_views(before).push(
                        p@,
                    ));
                },
                None => {
                    proof {
                        assert(local_paths_fields(fv.take(i + 1)) == Err::<Seq<Seq<char>>, Seq<char>>(
                            key@,
                        ));
                        lemma_fields_err_extends(fv, i + 1, fv.len() as int);
                        assert(fv.take(fv.len() as int) =~= fv);
                    }
                    return Err(String::from_str(key));
                },
            }
        } else {
            match local_paths(&fields[i].1) {
                Ok(more) => {
                    let ghost mv = crate::text::string_views(more@);
                    let mut k: usize = 0;
                    while k < more.len()
                        invariant
                            k <= more@.len(),
                            mv == crate::text::string_views(more@),
                            crate::text::string_views(out@) == crate::text::string_views(before)
                                + mv.take(k as int),
                        decreases more.len() - k,
                    {
                        let ghost prev = out@;
                        out.push(more[k].clone());
                        assert(crate::text::string_views(out@) =~= crate::text::string_views(prev).push(
                            more@[k as int]@,
                        ));
                        assert(mv.take(k + 1) =~= mv.take(k as int).push(mv[k as int]));
                        assert(crate::text::string_views(out@) =~= crate::text::string_views(before)
                            + mv.take(k + 1));
                        k = k + 1;
                    }
                    assert(mv.take(more@.len() as int) =~= mv);
                },
                Err(k) => {
                    proof {
                        assert(local_paths_fields(fv.take(i + 1)) == Err::<Seq<Seq<char>>, Seq<char>>(
                            k@,
                        ));
                        lemma_fields_err_extends(fv, i + 1, fv.len() as int);
                        assert(fv.take(fv.len() as int) =~= fv);
                    }
                    return Err(k);
                },
            }
        }
        i = i + 1;
    }
    assert(fv.take(fields@.len() as int) =~= fv);
    Ok(out)
}

fn local_paths_in_items(items: &Vec<Json>) -> (r: Result<Vec<String>, String>)
    ensures
        match r {
            Ok(paths) => local_paths_items(view_arr(items@)) == Ok::<Seq<Seq<char>>, Seq<char>>(
                crate::text::string_views(paths@),
            ),
            Err(key) => local_paths_items(view_arr(items@)) == Err::<Seq<Seq<char>>, Seq<char>>(
                key@,
            ),
        },
    decreases items,
{
    let ghost iv = view_arr(items@);
    proof {
        crate::json::lemma_view_arr(items@);
    }
    let mut out: Vec<String> = Vec::new();
    let mut i: usize = 0;
    assert(iv.take(0) =~= Seq::<JsonV>::empty());
    assert(crate::text::string_views(out@) =~= Seq::<Seq<char>>::empty());
    while i < items.len()
        invariant
            i <= items@.len(),
            iv == view_arr(items@),
            iv.len() == items@.len(),
            forall|j: int| 0 <= j < items@.len() ==> #[trigger] iv[j] == items@[j]@,
            local_paths_items(iv.take(i as int)) == Ok::<Seq<Seq<char>>, Seq<char>>(
                crate::text::string_views(out@),
            ),
        decreases items.len() - i,
    {
        proof {
            broadcast use vstd::std_specs::vec::axiom_vec_index_decreases;

            assert(decreases_to!(*items => items[i as int]));
        }
        let ghost before = out@;
        assert(iv.take(i + 1).drop_last() =~= iv.take(i as int));
        assert(iv.take(i + 1).last() == iv[i as int]);
        match local_paths(&items[i]) {
            Ok(more) => {
                let ghost mv = crate::text::string_views(more@);
                let mut k: usize = 0;
                while k < more.len()
                    invariant
                        k <= more@.len(),
                        mv == crate::text::string_views(more@),
                        crate::text::string_views(out@) == crate::text::string_views(before)
                            + mv.take(k as int),
                    decreases more.len() - k,
                {
                    let ghost prev = out@;
                    out.push(more[k].clone());
                    assert(crate::text::string_views(out@) =~= crate::text::string_views(prev).push(
                        more@[k as int]@,
                    ));
                    assert(mv.take(k + 1) =~= mv.take(k as int).push(mv[k as int]));
                    assert(crate::text::string_views(out@) =~= crate::text::string_views(before)
                        + mv.take(k + 1));
                    k = k + 1;
                }
                assert(mv.take(more@.len() as int) =~= mv);
            },
            Err(k) => {
                proof {
                    assert(local_paths_items(iv.take(i + 1)) == Err::<Seq<Seq<char>>, Seq<char>>(
                        k@,
                    ));
                    lemma_items_err_extends(iv, i + 1, iv.len() as int);
                    assert(iv.take(iv.len() as int) =~= iv);
                }
                return Err(k);
            },
        }
        i = i + 1;
    }
    assert(iv.take(items@.len() as int) =~= iv);
    Ok(out)
}

// ---------------------------------------------------------------------------
// Record paths and totals

/// The position of the first path that repeats an earlier one.
pub open spec fn first_repeat(paths: Seq<Seq<char>>) -> Option<int>
    decreases paths.len(),
{
    if paths.len() == 0 {
        None
    } else {
        match first_repeat(paths.drop_last()) {
            Some(j) => Some(j),
            None => if paths.drop_last().contains(paths.last()) {
                Some(paths.len() - 1)
            } else {
                None
            },
        }
    }
}

proof fn lemma_first_repeat_prefix(s: Seq<Seq<char>>, k: int)
    requires
        0 <= k <= s.len(),
        first_repeat(s.take(k)) is Some,
    ensures
        first_repeat(s) == first_repeat(s.take(k)),
    decreases s.len() - k,
{
    if k < s.len() {
        assert(s.take(k + 1).drop_last() =~= s.take(k));
        lemma_first_repeat_prefix(s, k + 1);
    } else {
        assert(s.take(k) =~= s);
    }
}

/// Where a catalog's (canonical) record paths first repeat one, if they do.
pub fn first_repeated_path(paths: &Vec<String>) -> (r: Option<usize>)
    ensures
        match first_repeat(crate::text::string_views(paths@)) {
            Some(j) => r matches Some(x) && x as int == j,
            None => r is None,
        },
{
    let ghost pv = crate::text::string_views(paths@);
    let mut j: usize = 0;
    assert(pv.take(0) =~= Seq::<Seq<char>>::empty());
    while j < paths.len()
        invariant
            j <= paths@.len(),
            pv == crate::text::string_views(paths@),
            first_repeat(pv.take(j as int)) is None,
        decreases paths.len() - j,
    {
        let ghost prefix = pv.take(j + 1);
        assert(prefix.drop_last() =~= pv.take(j as int));
        assert(prefix.last() == paths@[j as int]@);
        let mut i: usize = 0;
        let mut seen = false;
        while i < j
            invariant
                i <= j < paths@.len(),
                pv == crate::text::string_views(paths@),
                seen <==> exists|k: int| 0 <= k < i && pv[k] == pv[j as int],
            decreases j - i,
        {
            if str_eq(paths[i].as_str(), paths[j].as_str()) {
                assert(pv[i as int] == pv[j as int]);
                seen = true;
            }
            i = i + 1;
        }
        proof {
            let d = pv.take(j as int);
            if seen {
                let k = choose|k: int| 0 <= k < j && pv[k] == pv[j as int];
                assert(d[k] == pv[j as int]);
            } else if d.contains(pv[j as int]) {
                let k = choose|k: int| 0 <= k < d.len() && d[k] == pv[j as int];
                assert(pv[k] == d[k]);
            }
        }
        if seen {
            proof {
                lemma_first_repeat_prefix(pv, j + 1);
            }
            return Some(j);
        }
        j = j + 1;
    }
    assert(pv.take(paths@.len() as int) =~= pv);
    None
}

pub open spec fn sum_of(counts: Seq<u64>) -> nat
    decreases counts.len(),
{
    if counts.len() == 0 {
        0
    } else {
        sum_of(counts.drop_last()) + counts.last() as nat
    }
}

/// The references of all catalogs together, `None` past `u64::MAX`.
pub fn total_references(counts: &Vec<u64>) -> (r: Option<u64>)
    ensures
        match r {
            Some(t) => t == sum_of(counts@),
            None => sum_of(counts@) > u64::MAX,
        },
{
    let mut total: u64 = 0;
    let mut i: usize = 0;
    assert(counts@.take(0) =~= Seq::<u64>::empty());
    while i < counts.len()
        invariant
            i <= counts@.len(),
            total == sum_of(counts@.take(i as int)),
        decreases counts.len() - i,
    {
        assert(counts@.take(i + 1).drop_last() =~= counts@.take(i as int));
        if counts[i] > u64::MAX - total {
            proof {
                lemma_sum_of_prefix(counts@, i + 1);
            }
            return None;
        }
        total = total + counts[i];
        i = i + 1;
    }
    assert(counts@.take(counts@.len() as int) =~= counts@);
    Some(total)
}

proof fn lemma_sum_of_prefix(counts: Seq<u64>, k: int)
    requires
        0 <= k <= counts.len(),
    ensures
        sum_of(counts.take(k)) <= sum_of(counts),
    decreases counts.len() - k,
{
    if k < counts.len() {
        lemma_sum_of_prefix(counts, k + 1);
        assert(counts.take(k + 1).drop_last() =~= counts.take(k));
    } else {
        assert(counts.take(k) =~= counts);
    }
}

} // verus!
