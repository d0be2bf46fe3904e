use omnifs_sdk::content_type::ContentType;
use omnifs_sdk::error::{ProviderError, ProviderErrorKind, Result};
use omnifs_sdk::repr::{Atom, Diff, Format, Html, Json, Markdown, Octet, RenderTable, Yaml};

fn upper(canonical: &[u8]) -> Result<Vec<u8>> {
    let source = std::str::from_utf8(canonical)
        .map_err(|error| ProviderError::invalid_input(&format!("utf-8 decode: {error}")))?;
    Ok(source.to_ascii_uppercase().into_bytes())
}

type Render = fn(&[u8]) -> Result<Vec<u8>>;

#[test]
fn serve_source_is_verbatim() {
    let table =
        RenderTable::build(ContentType::Json, vec![(ContentType::Markdown, upper)]).unwrap();
    let raw = br"{raw}";
    assert_eq!(table.serve(ContentType::Json, raw).unwrap(), raw);
}

#[test]
fn serve_render_invokes_fn() {
    let table =
        RenderTable::build(ContentType::Json, vec![(ContentType::Markdown, upper)]).unwrap();
    assert_eq!(
        table.serve(ContentType::Markdown, b"hi").unwrap(),
        b"HI".as_slice()
    );
}

#[test]
fn serve_unknown_ct_errors() {
    let table =
        RenderTable::build(ContentType::Json, vec![(ContentType::Markdown, upper)]).unwrap();
    assert!(table.serve(ContentType::Octet, b"x").is_err());
}

#[test]
fn build_rejects_duplicate_render_ct() {
    let result = RenderTable::build(
        ContentType::Json,
        vec![
            (ContentType::Markdown, upper),
            (ContentType::Markdown, upper),
        ],
    );
    assert_eq!(
        result.err().map(|e| e.kind()),
        Some(ProviderErrorKind::InvalidInput),
    );
}

#[test]
fn build_rejects_render_equal_source() {
    let result = RenderTable::build(ContentType::Json, vec![(ContentType::Json, upper)]);
    assert_eq!(
        result.err().map(|e| e.kind()),
        Some(ProviderErrorKind::InvalidInput),
    );
}

#[test]
fn a_failing_render_reports_its_error() {
    let table =
        RenderTable::build(ContentType::Json, vec![(ContentType::Markdown, upper as Render)])
            .unwrap();
    let error = table.serve(ContentType::Markdown, &[0xff]).unwrap_err();
    assert_eq!(error.kind(), ProviderErrorKind::InvalidInput);
    assert!(error.message().starts_with("utf-8 decode: "));
    assert_eq!(table.source_ct(), ContentType::Json);
    assert_eq!(table.renders().len(), 1);
}

#[test]
fn types_without_an_extension_do_not_clash() {
    let table = RenderTable::build(
        ContentType::Json,
        vec![
            (ContentType::Octet, upper as Render),
            (ContentType::Custom("x/unknown"), upper as Render),
        ],
    )
    .unwrap();
    assert_eq!(
        table.serve(ContentType::Custom("x/unknown"), b"a").unwrap(),
        b"A".as_slice()
    );
    let error = table
        .serve(ContentType::Custom("x/\"other\""), b"a")
        .unwrap_err();
    assert_eq!(error.kind(), ProviderErrorKind::NotFound);
    assert_eq!(
        error.message(),
        "no render registered for content type Custom(\"x/\\\"other\\\"\")"
    );
}

#[test]
fn formats_name_their_content_types() {
    assert_eq!(Json::ct(), ContentType::Json);
    assert_eq!(Markdown::ct(), ContentType::Markdown);
    assert_eq!(Octet::ct(), ContentType::Octet);
    assert_eq!(Atom::ct().as_mime(), "application/atom+xml");
    assert_eq!(Yaml::ct().as_mime(), "application/yaml");
    assert_eq!(Html::ct().as_mime(), "text/html");
    assert_eq!(Diff::ct().as_mime(), "text/x-diff");
}
