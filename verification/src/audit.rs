//! Audit trail, compliance report, and export — the auditor's surface.
//!
//! The audit trail is the artifact's embedded, append-only operation log: each entry records an
//! action (genesis, commit, verify, inspect), who, when, and a detail string, plus the BLAKE3
//! hash of the entry's bytes. It is presented as recorded history, not as a re-verified hash
//! chain.
//!
//! Reading the artifact file and producing the report or export (aion-context reads the file
//! itself) happen in the application; this module renders the trail from the artifact's bytes and
//! chooses the framework and formats.

use vstd::prelude::*;

use crate::artifact::{
    aion_audit_count, aion_audit_entry, aion_string_table, audit_count, audit_entry, string_table,
    AuditRecord,
};
use crate::error::StudioError;
use crate::keystore::{hex_encode, hex_of};
use crate::text::same_text;
use crate::workspace::{join, PolicyId, Workspace};

verus! {

/// One audit-trail entry, rendered.
#[derive(Debug, Clone)]
pub struct AuditEntryView {
    pub index: u64,
    pub timestamp: u64,
    pub author_id: u64,
    pub action: String,
    pub detail: String,
    pub hash: String,
}

/// A policy's recorded operation history.
#[derive(Debug, Clone)]
pub struct AuditView {
    pub entries: Vec<AuditEntryView>,
}

/// `std::str::from_utf8`, as an owned string: `None` when the bytes are not UTF-8.
#[verifier::external_body]
fn utf8_text(bytes: &[u8]) -> (r: Option<String>)
    ensures
        r is Some <==> vstd::utf8::valid_utf8(bytes@),
        r matches Some(s) ==> vstd::utf8::encode_utf8(s@) == bytes@,
{
    std::str::from_utf8(bytes).ok().map(|s| s.to_string())
}

/// The detail string at `offset..offset + length` of the string table, when that range lies in
/// the table and holds UTF-8; empty otherwise.
pub open spec fn detail_range(offset: u64, length: u32) -> (int, int) {
    let start = (offset as usize) as int;
    let end = if start + length as int > usize::MAX { usize::MAX as int } else { start + length as int };
    (start, end)
}

/// `s` is the detail string that `offset` and `length` select from `table`.
pub open spec fn resolves_detail(s: Seq<char>, table: Seq<u8>, offset: u64, length: u32) -> bool {
    let (start, end) = detail_range(offset, length);
    let piece = table.subrange(start, end);
    if start <= end <= table.len() && vstd::utf8::valid_utf8(piece) {
        vstd::utf8::encode_utf8(s) == piece
    } else {
        s.len() == 0
    }
}

/// Read a detail string out of the string table; out of range or non-UTF-8 gives `""`.
pub fn resolve_detail(table: &[u8], offset: u64, length: u32) -> (s: String)
    ensures
        resolves_detail(s@, table@, offset, length),
{
    let start = offset as usize;
    let end = start.saturating_add(length as usize);
    if end > table.len() {
        return String::new();
    }
    let piece = vstd::slice::slice_subrange(table, start, end);
    match utf8_text(piece) {
        Some(text) => text,
        None => String::new(),
    }
}

/// `v` renders audit record `rec` as entry `index`, with its detail read from `table`.
pub open spec fn renders_entry(v: AuditEntryView, index: u64, rec: AuditRecord, table: Seq<u8>) -> bool {
    &&& v.index == index
    &&& v.timestamp == rec.timestamp
    &&& v.author_id == rec.author_id
    &&& v.hash@ == hex_of(rec.hash@)
    &&& resolves_detail(v.detail@, table, rec.details_offset, rec.details_length)
    &&& match rec.action {
        Some(a) => v.action@ == a@,
        None => v.action@ == "unknown"@,
    }
}

/// `v` renders entry `k` of the artifact `bytes`, whose string table is `table`.
pub open spec fn renders_entry_at(v: AuditEntryView, bytes: Seq<u8>, k: int, table: Seq<u8>) -> bool {
    match aion_audit_entry(bytes, (k as usize) as int) {
        Some(rec) => renders_entry(v, k as u64, rec, table),
        None => false,
    }
}


/// Render an artifact's embedded audit trail from its bytes.
pub fn read_trail(bytes: &[u8]) -> (r: Result<AuditView, StudioError>)
    ensures
        r is Err ==> r matches Err(StudioError::Aion(_)),
        (aion_audit_count(bytes@) matches Some(n) && aion_string_table(bytes@) is Some && forall|k: int|
            0 <= k < n ==> #[trigger] aion_audit_entry(bytes@, (k as usize) as int) is Some) ==> r is Ok,
        r matches Ok(view) ==> ({
            &&& aion_audit_count(bytes@) matches Some(n) && view.entries.len() == n
            &&& aion_string_table(bytes@) matches Some(table) && forall|k: int|
                0 <= k < view.entries.len() ==> renders_entry_at(#[trigger] view.entries@[k], bytes@, k, table)
        }),
{
    let count = match audit_count(bytes) {
        Ok(n) => n,
        Err(e) => return Err(StudioError::Aion(e)),
    };
    let table = match string_table(bytes) {
        Ok(t) => t,
        Err(e) => return Err(StudioError::Aion(e)),
    };
    let mut entries: Vec<AuditEntryView> = Vec::new();
    let mut i: u64 = 0;
    while i < count
        invariant
            i <= count,
            aion_audit_count(bytes@) == Some(count),
            aion_string_table(bytes@) == Some(table@),
            entries.len() == i,
            forall|k: int| 0 <= k < i ==> renders_entry_at(#[trigger] entries@[k], bytes@, k, table@),
        decreases count - i,
    {
        let rec = match audit_entry(bytes, i as usize) {
            Ok(rec) => rec,
            Err(e) => return Err(StudioError::Aion(e)),
        };
        let action = match &rec.action {
            Some(a) => a.clone(),
            None => String::from_str("unknown"),
        };
        let view = AuditEntryView {
            index: i,
            timestamp: rec.timestamp,
            author_id: rec.author_id,
            action,
            detail: resolve_detail(table.as_slice(), rec.details_offset, rec.details_length),
            hash: hex_encode(&rec.hash),
        };
        assert(renders_entry(view, i, rec, table@));
        let ghost before = entries@;
        entries.push(view);
        assert(forall|k: int| 0 <= k < i ==> entries@[k] == before[k]);
        assert(entries@[i as int] == view);
        assert(aion_audit_entry(bytes@, ((i as int) as usize) as int) == Some(rec));
        assert(renders_entry_at(entries@[i as int], bytes@, i as int, table@));
        i = i + 1;
    }
    Ok(AuditView { entries })
}

/// The compliance frameworks a report can follow.
#[derive(Debug, Clone, Copy, PartialEq, Eq, Structural)]
pub enum Framework {
    Sox,
    Hipaa,
    Gdpr,
    Generic,
}

/// The formats a compliance report can take.
#[derive(Debug, Clone, Copy, PartialEq, Eq, Structural)]
pub enum ReportFormat {
    Markdown,
    Text,
    Json,
}

/// The formats a policy can be exported in.
#[derive(Debug, Clone, Copy, PartialEq, Eq, Structural)]
pub enum ExportFormat {
    Json,
    Yaml,
    Csv,
}

/// The framework a name selects: `sox`, `hipaa`, `gdpr`; anything else is the generic report.
pub fn framework_named(name: &str) -> (f: Framework)
    ensures
        f == (if name@ == "sox"@ {
            Framework::Sox
        } else if name@ == "hipaa"@ {
            Framework::Hipaa
        } else if name@ == "gdpr"@ {
            Framework::Gdpr
        } else {
            Framework::Generic
        }),
{
    if same_text(name, "sox") {
        Framework::Sox
    } else if same_text(name, "hipaa") {
        Framework::Hipaa
    } else if same_text(name, "gdpr") {
        Framework::Gdpr
    } else {
        Framework::Generic
    }
}

/// The report format a name selects: `json`, `text`; anything else is markdown.
pub fn report_format_named(name: &str) -> (f: ReportFormat)
    ensures
        f == (if name@ == "json"@ {
            ReportFormat::Json
        } else if name@ == "text"@ {
            ReportFormat::Text
        } else {
            ReportFormat::Markdown
        }),
{
    if same_text(name, "json") {
        ReportFormat::Json
    } else if same_text(name, "text") {
        ReportFormat::Text
    } else {
        ReportFormat::Markdown
    }
}

/// The export format a name selects: `yaml`, `csv`; anything else is JSON.
pub fn export_format_named(name: &str) -> (f: ExportFormat)
    ensures
        f == (if name@ == "yaml"@ {
            ExportFormat::Yaml
        } else if name@ == "csv"@ {
            ExportFormat::Csv
        } else {
            ExportFormat::Json
        }),
{
    if same_text(name, "yaml") {
        ExportFormat::Yaml
    } else if same_text(name, "csv") {
        ExportFormat::Csv
    } else {
        ExportFormat::Json
    }
}

/// The content type and the download disposition of an export in each format.
pub open spec fn export_headers_of(f: ExportFormat) -> (Seq<char>, Seq<char>) {
    match f {
        ExportFormat::Yaml => ("application/yaml"@, "attachment; filename=\"aion-export.yaml\""@),
        ExportFormat::Csv => ("text/csv; charset=utf-8"@, "attachment; filename=\"aion-export.csv\""@),
        ExportFormat::Json => ("application/json"@, "attachment; filename=\"aion-export.json\""@),
    }
}

/// The content type and the download disposition of an export.
pub fn export_headers(f: ExportFormat) -> (h: (&'static str, &'static str))
    ensures
        h.0@ == export_headers_of(f).0,
        h.1@ == export_headers_of(f).1,
{
    match f {
        ExportFormat::Yaml => ("application/yaml", "attachment; filename=\"aion-export.yaml\""),
        ExportFormat::Csv => ("text/csv; charset=utf-8", "attachment; filename=\"aion-export.csv\""),
        ExportFormat::Json => ("application/json", "attachment; filename=\"aion-export.json\""),
    }
}

/// The artifact path of a policy that must exist: `exists` is whether the file is there.
pub fn require(ws: &Workspace, id: &PolicyId, exists: bool) -> (r: Result<String, StudioError>)
    ensures
        exists ==> (r matches Ok(p) && p@ == join(join(ws@, "policies"@), id@ + ".aion"@)),
        !exists ==> (r matches Err(StudioError::NotFound(m)) && m@ == id@),
{
    if exists {
        Ok(ws.policy_path(id))
    } else {
        Err(StudioError::NotFound(String::from_str(id.as_str())))
    }
}

} // verus!
