use freemarker_lsp::assets::{
    builtin_completions, directive_completions, hover_asset, hover_markdown, CompletionAssetItem,
    HoverAssetItem,
};

#[test]
fn test_asset_assign_directive() {
    let item = CompletionAssetItem::from_embed("assign.toml");
    assert!(item.is_some());
    let item = item.unwrap();
    assert_eq!(item.category.as_str(), "directive");
    assert_eq!(item.label.as_str(), "assign");
    assert!(item.label_details.is_none());
}

#[test]
fn test_asset_assign_capture_directive() {
    let item = CompletionAssetItem::from_embed("assign(capture).toml");
    assert!(item.is_some());
    let item = item.unwrap();
    assert_eq!(item.category.as_str(), "directive");
    assert_eq!(item.label.as_str(), "assign");
    match item.label_details {
        Some(label_details) => {
            assert_eq!(label_details.detail.unwrap_or_default(), "(capture)");
            assert!(label_details.description.is_none());
        }
        None => assert!(false),
    }
}

#[test]
fn test_asset_builtin_from_file() {
    let embedded_file = hover_asset("built-ins/c.toml").expect("must success");
    assert!(!embedded_file.is_empty());
    if let Some(item) = HoverAssetItem::from_embed("built-ins/c.toml") {
        assert_eq!(item.identifier, "c".to_string());
        assert_eq!(item.category, "built-in".to_string());
        assert!(item.markdown.is_some());
    }
}

#[test]
fn test_asset_builtin_from_str() {
    if let Some(item) = HoverAssetItem::from_text(
        r#"identifier = "foo"
category = "bar"
markdown = """baz"""
"#,
    ) {
        assert_eq!(item.identifier, "foo".to_string());
        assert_eq!(item.category, "bar".to_string());
        assert!(item.markdown.is_some());
        assert_eq!(item.markdown.unwrap(), "baz".to_string());
    } else {
        panic!("record not read");
    }
}

#[test]
fn asset_record_without_required_field_is_refused() {
    assert!(CompletionAssetItem::from_text("label = \"x\"\n").is_none());
    assert!(CompletionAssetItem::from_text("not toml [").is_none());
    assert!(CompletionAssetItem::from_embed("missing.toml").is_none());
    assert!(HoverAssetItem::from_embed("built-ins/none.toml").is_none());
}

#[test]
fn asset_record_reads_optional_fields() {
    let item = CompletionAssetItem::from_text(
        "category = \"directive\"\nlabel = \"if\"\ninsert_text = \"if\"\ndocumentation = \"d\"\ndeprecated = true\n",
    )
    .unwrap();
    assert_eq!(item.deprecated, Some(true));
    assert_eq!(item.insert_text, "if");
    assert!(item.label_details.is_none());
}

#[test]
fn test_asset_directives() {
    let asset = directive_completions();
    assert!(!asset.is_empty());
}

#[test]
fn test_asset_builtin() {
    let asset = builtin_completions();
    assert!(!asset.is_empty());
    assert!(hover_markdown("built-in", "c").is_some());
    assert!(hover_markdown("types", "c").is_none());
}
