use freemarker_lsp::reactor::Reactor;
use freemarker_lsp::syntax::SyntaxTree;
use freemarker_lsp::text::TextDocument;
use freemarker_lsp::workspace::Workspace;

fn reactor(text: &str, version: i32) -> Reactor {
    Reactor::new("/w/a.ftl".to_string(), text, version, SyntaxTree::empty(), vec![])
}

#[test]
fn open_change_close_lifecycle() {
    let mut ws = Workspace::new();
    assert!(ws.needs_open("file:///w/a.ftl", 1));
    ws.on_did_open("file:///w/a.ftl".to_string(), reactor("one", 1));
    assert!(!ws.needs_open("file:///w/a.ftl", 1));
    // same identity, same version: nothing happens
    ws.on_did_open("file:///w/a.ftl".to_string(), reactor("other", 1));
    assert_eq!(ws.get("file:///w/a.ftl").unwrap().get_document().to_text(), "one");
    // a new version replaces the entry
    ws.on_did_open("file:///w/a.ftl".to_string(), reactor("two", 2));
    assert_eq!(ws.get("file:///w/a.ftl").unwrap().get_document().to_text(), "two");
    assert!(ws.on_did_change(
        "file:///w/a.ftl",
        3,
        TextDocument::new("three"),
        SyntaxTree::empty(),
        vec![]
    ));
    let r = ws.get("file:///w/a.ftl").unwrap();
    assert_eq!(r.version(), 3);
    assert_eq!(r.get_document().to_text(), "three");
    assert!(!ws.on_did_change("file:///w/b.ftl", 1, TextDocument::new(""), SyntaxTree::empty(), vec![]));
    ws.on_did_close("file:///w/a.ftl");
    assert!(ws.get("file:///w/a.ftl").is_none());
}
