use studio_core::audit::{export_format_named, export_headers, framework_named, read_trail, report_format_named, resolve_detail, ExportFormat, Framework, ReportFormat};
use studio_core::error::StudioError;

#[test]
fn resolve_detail_reads_the_slice() {
    let table = b"hello world";
    assert_eq!(resolve_detail(table, 0, 5), "hello");
    assert_eq!(resolve_detail(table, 6, 5), "world");
    assert_eq!(resolve_detail(table, 100, 5), "");
}

#[test]
fn resolve_detail_rejects_overrun_and_bad_utf8() {
    assert_eq!(resolve_detail(b"hello", 3, 5), "");
    assert_eq!(resolve_detail(&[0xff, 0xfe], 0, 2), "");
    assert_eq!(resolve_detail("héllo".as_bytes(), 1, 2), "é");
    assert_eq!(resolve_detail(b"abc", u64::MAX, u32::MAX), "");
}

#[test]
fn names_select_frameworks_and_formats() {
    assert_eq!(framework_named("sox"), Framework::Sox);
    assert_eq!(framework_named("hipaa"), Framework::Hipaa);
    assert_eq!(framework_named("gdpr"), Framework::Gdpr);
    assert_eq!(framework_named("SOX"), Framework::Generic);
    assert_eq!(report_format_named("json"), ReportFormat::Json);
    assert_eq!(report_format_named("text"), ReportFormat::Text);
    assert_eq!(report_format_named("pdf"), ReportFormat::Markdown);
    assert_eq!(export_format_named("yaml"), ExportFormat::Yaml);
    assert_eq!(export_format_named("csv"), ExportFormat::Csv);
    assert_eq!(export_format_named(""), ExportFormat::Json);
}

#[test]
fn garbage_bytes_are_not_an_artifact() {
    assert!(matches!(read_trail(&[0u8; 16]), Err(StudioError::Aion(_))));
}

#[test]
fn exports_carry_their_content_type() {
    assert_eq!(export_headers(ExportFormat::Yaml), ("application/yaml", "attachment; filename=\"aion-export.yaml\""));
    assert_eq!(export_headers(ExportFormat::Csv), ("text/csv; charset=utf-8", "attachment; filename=\"aion-export.csv\""));
    assert_eq!(export_headers(ExportFormat::Json), ("application/json", "attachment; filename=\"aion-export.json\""));
}
