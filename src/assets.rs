//! Documentation assets for completion and hover: TOML records, read
//! through the `toml` crate, and the built-in catalog of them.

use crate::rule::same_text;
use vstd::prelude::*;
use vstd::string::StringExecFns;

verus! {

/// The string at `key` of the top-level table of the TOML document `text`;
/// `None` when the text is no TOML document or holds no string there.
pub uninterp spec fn toml_string_field(text: Seq<char>, key: Seq<char>) -> Option<Seq<char>>;

/// The boolean at `key` of the top-level table of the TOML document `text`.
pub uninterp spec fn toml_bool_field(text: Seq<char>, key: Seq<char>) -> Option<bool>;

/// The string at `key` of the table at `table` of the TOML document `text`.
pub uninterp spec fn toml_nested_string_field(text: Seq<char>, table: Seq<char>, key: Seq<char>) -> Option<
    Seq<char>,
>;

/// Whether the top-level table of the TOML document `text` holds a table
/// at `key`.
pub uninterp spec fn toml_table_present(text: Seq<char>, key: Seq<char>) -> bool;

/// Relies on `toml::Table`'s `FromStr`, `Map::get` and `Value::as_str`: the
/// string under a top-level key.
#[verifier::external_body]
fn toml_string(text: &str, key: &str) -> (r: Option<String>)
    ensures
        r matches Some(v) ==> toml_string_field(text@, key@) == Some(v@),
        r is None ==> toml_string_field(text@, key@) is None,
{
    match text.parse::<toml::Table>() {
        Ok(t) => t.get(key).and_then(|v| v.as_str()).map(|s| s.to_string()),
        Err(_) => None,
    }
}

/// Relies on `toml::Table`'s `FromStr`, `Map::get` and `Value::as_bool`: the
/// boolean under a top-level key.
#[verifier::external_body]
fn toml_bool(text: &str, key: &str) -> (r: Option<bool>)
    ensures
        r == toml_bool_field(text@, key@),
{
    match text.parse::<toml::Table>() {
        Ok(t) => t.get(key).and_then(|v| v.as_bool()),
        Err(_) => None,
    }
}

/// Relies on `toml::Table`'s `FromStr`, `Map::get`, `Value::as_table` and
/// `Value::as_str`: the string under a key of a nested table.
#[verifier::external_body]
fn toml_nested_string(text: &str, table: &str, key: &str) -> (r: Option<String>)
    ensures
        r matches Some(v) ==> toml_nested_string_field(text@, table@, key@) == Some(v@),
        r is None ==> toml_nested_string_field(text@, table@, key@) is None,
{
    match text.parse::<toml::Table>() {
        Ok(t) => t.get(table).and_then(|v| v.as_table()).and_then(|n| n.get(key)).and_then(
            |v| v.as_str(),
        ).map(|s| s.to_string()),
        Err(_) => None,
    }
}

/// Relies on `toml::Table`'s `FromStr`, `Map::get` and `Value::is_table`:
/// whether a top-level key holds a table.
#[verifier::external_body]
fn toml_has_table(text: &str, key: &str) -> (r: bool)
    ensures
        r == toml_table_present(text@, key@),
{
    match text.parse::<toml::Table>() {
        Ok(t) => t.get(key).is_some_and(|v| v.is_table()),
        Err(_) => false,
    }
}

/// The text of the completion asset stored under `file`.
pub open spec fn completion_asset_text(file: Seq<char>) -> Option<Seq<char>> {
    if file == "assign.toml"@ {
        Some(ASSIGN_DIRECTIVE@)
    } else if file == "assign(capture).toml"@ {
        Some(ASSIGN_CAPTURE_DIRECTIVE@)
    } else {
        None
    }
}

/// The text of the hover asset stored under `file`.
pub open spec fn hover_asset_text(file: Seq<char>) -> Option<Seq<char>> {
    if file == "built-ins/c.toml"@ {
        Some(BUILTIN_C@)
    } else {
        None
    }
}

/// Completion for `<#assign name = value>`.
pub const ASSIGN_DIRECTIVE: &'static str = "category = \"directive\"\nlabel = \"assign\"\ninsert_text = \"assign ${1:name} = ${2:value}>\"\ndocumentation = \"Creates a new variable, or replaces an existing one, in the current namespace: `<#assign name = value>`.\"\n";

/// Completion for the capturing form `<#assign name>...</#assign>`.
pub const ASSIGN_CAPTURE_DIRECTIVE: &'static str = "category = \"directive\"\nlabel = \"assign\"\ninsert_text = \"assign ${1:name}>\\n\\t$0\\n</#assign>\"\ndocumentation = \"Captures the output printed between the start-tag and the end-tag into a variable: `<#assign name>...</#assign>`.\"\n\n[label_details]\ndetail = \"(capture)\"\n";

/// Hover text of the `c` built-in.
pub const BUILTIN_C: &'static str = "identifier = \"c\"\ncategory = \"built-in\"\nmarkdown = \"\"\"\n`?c` formats a number or a boolean for a computer audience: numbers without locale-specific formatting, booleans as `true` or `false`.\n\"\"\"\n";

/// The text of the completion asset stored under `file`.
pub fn completion_asset(file: &str) -> (r: Option<&'static str>)
    ensures
        r matches Some(t) ==> completion_asset_text(file@) == Some(t@),
        r is None ==> completion_asset_text(file@) is None,
{
    if same_text(file, "assign.toml") {
        Some(ASSIGN_DIRECTIVE)
    } else if same_text(file, "assign(capture).toml") {
        Some(ASSIGN_CAPTURE_DIRECTIVE)
    } else {
        None
    }
}

/// The text of the hover asset stored under `file`.
pub fn hover_asset(file: &str) -> (r: Option<&'static str>)
    ensures
        r matches Some(t) ==> hover_asset_text(file@) == Some(t@),
        r is None ==> hover_asset_text(file@) is None,
{
    if same_text(file, "built-ins/c.toml") {
        Some(BUILTIN_C)
    } else {
        None
    }
}

/// A TOML record holds what a completion item needs.
pub open spec fn completion_record(t: Seq<char>) -> bool {
    &&& toml_string_field(t, "category"@) is Some
    &&& toml_string_field(t, "label"@) is Some
    &&& toml_string_field(t, "insert_text"@) is Some
    &&& toml_string_field(t, "documentation"@) is Some
}

/// A TOML record holds what a hover item needs.
pub open spec fn hover_record(t: Seq<char>) -> bool {
    &&& toml_string_field(t, "identifier"@) is Some
    &&& toml_string_field(t, "category"@) is Some
}

/// The texts of all hover assets.
pub open spec fn hover_catalog() -> Seq<Seq<char>> {
    seq![BUILTIN_C@]
}

/// The texts of all completion assets.
pub open spec fn completion_catalog() -> Seq<Seq<char>> {
    seq![ASSIGN_DIRECTIVE@, ASSIGN_CAPTURE_DIRECTIVE@]
}

/// The texts of all hover assets.
pub fn hover_texts() -> (v: Vec<&'static str>)
    ensures
        v@.map_values(|t: &'static str| t@) == hover_catalog(),
{
    let v = vec![BUILTIN_C];
    assert(v@.map_values(|t: &'static str| t@) =~= hover_catalog());
    v
}

/// The texts of all completion assets.
pub fn completion_texts() -> (v: Vec<&'static str>)
    ensures
        v@.map_values(|t: &'static str| t@) == completion_catalog(),
{
    let v = vec![ASSIGN_DIRECTIVE, ASSIGN_CAPTURE_DIRECTIVE];
    assert(v@.map_values(|t: &'static str| t@) =~= completion_catalog());
    v
}

/// The markdown of the last hover record among `texts` of the given
/// category and identifier (empty when it has none).
pub open spec fn hover_lookup(texts: Seq<Seq<char>>, category: Seq<char>, id: Seq<char>) -> Option<
    Seq<char>,
>
    decreases texts.len(),
{
    if texts.len() == 0 {
        None
    } else {
        let t = texts.last();
        if hover_record(t) && toml_string_field(t, "category"@) == Some(category) && toml_string_field(
            t,
            "identifier"@,
        ) == Some(id) {
            Some(
                match toml_string_field(t, "markdown"@) {
                    Some(m) => m,
                    None => Seq::empty(),
                },
            )
        } else {
            hover_lookup(texts.drop_last(), category, id)
        }
    }
}

/// The hover markdown of the asset of the given category and identifier.
pub fn hover_markdown(category: &str, id: &str) -> (r: Option<String>)
    ensures
        r matches Some(m) ==> hover_lookup(hover_catalog(), category@, id@) == Some(m@),
        r is None ==> hover_lookup(hover_catalog(), category@, id@) is None,
{
    let texts = hover_texts();
    let ghost tv = texts@.map_values(|t: &'static str| t@);
    let cat = category.to_owned();
    let ident = id.to_owned();
    let mut found: Option<String> = None;
    let mut i: usize = 0;
    assert(tv.take(0) =~= Seq::<Seq<char>>::empty());
    while i < texts.len()
        invariant
            i <= texts@.len(),
            tv == texts@.map_values(|t: &'static str| t@),
            cat@ == category@,
            ident@ == id@,
            found matches Some(m) ==> hover_lookup(tv.take(i as int), category@, id@) == Some(m@),
            found is None ==> hover_lookup(tv.take(i as int), category@, id@) is None,
        decreases texts@.len() - i,
    {
        assert(tv.take(i + 1).drop_last() =~= tv.take(i as int));
        assert(tv.take(i + 1).last() == texts@[i as int]@);
        match HoverAssetItem::from_text(texts[i]) {
            Some(item) => {
                if item.category == cat && item.identifier == ident {
                    found = Some(
                        match item.markdown {
                            Some(m) => m,
                            None => String::new(),
                        },
                    );
                }
            },
            None => {},
        }
        i += 1;
    }
    assert(tv.take(texts@.len() as int) =~= tv);
    found
}

/// The items of the completion records among `texts` whose category is
/// `directive`, in order.
pub open spec fn directive_items(texts: Seq<Seq<char>>) -> Seq<CompletionItemView>
    decreases texts.len(),
{
    if texts.len() == 0 {
        Seq::empty()
    } else {
        let rest = directive_items(texts.drop_last());
        let t = texts.last();
        if completion_record(t) && toml_string_field(t, "category"@) == Some("directive"@) {
            rest.push(record_item(t))
        } else {
            rest
        }
    }
}

/// The completion items of all directive assets, in catalog order.
pub fn directive_completions() -> (v: Vec<CompletionAssetItem>)
    ensures
        v@.map_values(|c: CompletionAssetItem| c@) == directive_items(completion_catalog()),
{
    let texts = completion_texts();
    let ghost tv = texts@.map_values(|t: &'static str| t@);
    let directive = String::from_str("directive");
    let mut v: Vec<CompletionAssetItem> = Vec::new();
    let mut i: usize = 0;
    assert(tv.take(0) =~= Seq::<Seq<char>>::empty());
    assert(v@.map_values(|c: CompletionAssetItem| c@) =~= Seq::<CompletionItemView>::empty());
    while i < texts.len()
        invariant
            i <= texts@.len(),
            tv == texts@.map_values(|t: &'static str| t@),
            directive@ == "directive"@,
            v@.map_values(|c: CompletionAssetItem| c@) == directive_items(tv.take(i as int)),
        decreases texts@.len() - i,
    {
        assert(tv.take(i + 1).drop_last() =~= tv.take(i as int));
        assert(tv.take(i + 1).last() == texts@[i as int]@);
        let ghost before = v@;
        match CompletionAssetItem::from_text(texts[i]) {
            Some(item) => {
                if item.category == directive {
                    v.push(item);
                    assert(v@.map_values(|c: CompletionAssetItem| c@) =~= before.map_values(
                        |c: CompletionAssetItem| c@,
                    ).push(v@.last()@));
                }
            },
            None => {},
        }
        i += 1;
    }
    assert(tv.take(texts@.len() as int) =~= tv);
    v
}

/// The identifiers of the hover records among `texts` whose category is
/// `built-in`, in order.
pub open spec fn builtin_names(texts: Seq<Seq<char>>) -> Seq<Seq<char>>
    decreases texts.len(),
{
    if texts.len() == 0 {
        Seq::empty()
    } else {
        let rest = builtin_names(texts.drop_last());
        let t = texts.last();
        if hover_record(t) && toml_string_field(t, "category"@) == Some("built-in"@) {
            rest.push(toml_string_field(t, "identifier"@).unwrap())
        } else {
            rest
        }
    }
}

/// The names of the built-ins that the assets document, in catalog order.
pub fn builtin_completions() -> (v: Vec<String>)
    ensures
        v@.map_values(|s: String| s@) == builtin_names(hover_catalog()),
{
    let texts = hover_texts();
    let ghost tv = texts@.map_values(|t: &'static str| t@);
    let builtin = String::from_str("built-in");
    let mut v: Vec<String> = Vec::new();
    let mut i: usize = 0;
    assert(tv.take(0) =~= Seq::<Seq<char>>::empty());
    assert(v@.map_values(|s: String| s@) =~= Seq::<Seq<char>>::empty());
    while i < texts.len()
        invariant
            i <= texts@.len(),
            tv == texts@.map_values(|t: &'static str| t@),
            builtin@ == "built-in"@,
            v@.map_values(|s: String| s@) == builtin_names(tv.take(i as int)),
        decreases texts@.len() - i,
    {
        assert(tv.take(i + 1).drop_last() =~= tv.take(i as int));
        assert(tv.take(i + 1).last() == texts@[i as int]@);
        let ghost before = v@;
        match HoverAssetItem::from_text(texts[i]) {
            Some(item) => {
                if item.category == builtin {
                    v.push(item.identifier);
                    assert(v@.map_values(|s: String| s@) =~= before.map_values(|s: String| s@).push(
                        v@.last()@,
                    ));
                }
            },
            None => {},
        }
        i += 1;
    }
    assert(tv.take(texts@.len() as int) =~= tv);
    v
}

/// The extra label of a completion item.
pub struct LabelDetails {
    pub detail: Option<String>,
    pub description: Option<String>,
}

/// A completion item as an asset describes it.
pub struct CompletionAssetItem {
    pub category: String,
    pub deprecated: Option<bool>,
    pub label: String,
    pub insert_text: String,
    pub documentation: String,
    pub label_details: Option<LabelDetails>,
}

/// A completion item as a mathematical value; its label details as their
/// detail and description.
pub struct CompletionItemView {
    pub category: Seq<char>,
    pub deprecated: Option<bool>,
    pub label: Seq<char>,
    pub insert_text: Seq<char>,
    pub documentation: Seq<char>,
    pub label_details: Option<(Option<Seq<char>>, Option<Seq<char>>)>,
}

impl View for CompletionAssetItem {
    type V = CompletionItemView;

    open spec fn view(&self) -> CompletionItemView {
        CompletionItemView {
            category: self.category@,
            deprecated: self.deprecated,
            label: self.label@,
            insert_text: self.insert_text@,
            documentation: self.documentation@,
            label_details: match self.label_details {
                Some(d) => Some((opt_view(d.detail), opt_view(d.description))),
                None => None,
            },
        }
    }
}

/// The item that a completion record describes, its fields as the TOML
/// document holds them.
pub open spec fn record_item(t: Seq<char>) -> CompletionItemView {
    CompletionItemView {
        category: toml_string_field(t, "category"@).unwrap(),
        deprecated: toml_bool_field(t, "deprecated"@),
        label: toml_string_field(t, "label"@).unwrap(),
        insert_text: toml_string_field(t, "insert_text"@).unwrap(),
        documentation: toml_string_field(t, "documentation"@).unwrap(),
        label_details: if toml_table_present(t, "label_details"@) {
            Some(
                (
                    toml_nested_string_field(t, "label_details"@, "detail"@),
                    toml_nested_string_field(t, "label_details"@, "description"@),
                ),
            )
        } else {
            None
        },
    }
}

/// The optional string view.
pub open spec fn opt_view(o: Option<String>) -> Option<Seq<char>> {
    match o {
        Some(s) => Some(s@),
        None => None,
    }
}

impl CompletionAssetItem {
    /// The item that a TOML record describes: `None` unless it holds the
    /// strings `category`, `label`, `insert_text` and `documentation`.
    pub fn from_text(text: &str) -> (r: Option<CompletionAssetItem>)
        ensures
            r is Some <==> completion_record(text@),
            r matches Some(item) ==> item@ == record_item(text@),
            r matches Some(item) ==> {
                &&& toml_string_field(text@, "category"@) == Some(item.category@)
                &&& toml_string_field(text@, "label"@) == Some(item.label@)
                &&& toml_string_field(text@, "insert_text"@) == Some(item.insert_text@)
                &&& toml_string_field(text@, "documentation"@) == Some(item.documentation@)
                &&& item.deprecated == toml_bool_field(text@, "deprecated"@)
                &&& (item.label_details is Some <==> toml_table_present(text@, "label_details"@))
                &&& (item.label_details matches Some(d) ==> opt_view(d.detail)
                    == toml_nested_string_field(text@, "label_details"@, "detail"@) && opt_view(
                    d.description,
                ) == toml_nested_string_field(text@, "label_details"@, "description"@))
            },
    {
        let category = match toml_string(text, "category") {
            Some(v) => v,
            None => {
                return None;
            },
        };
        let label = match toml_string(text, "label") {
            Some(v) => v,
            None => {
                return None;
            },
        };
        let insert_text = match toml_string(text, "insert_text") {
            Some(v) => v,
            None => {
                return None;
            },
        };
        let documentation = match toml_string(text, "documentation") {
            Some(v) => v,
            None => {
                return None;
            },
        };
        let label_details = if toml_has_table(text, "label_details") {
            Some(
                LabelDetails {
                    detail: toml_nested_string(text, "label_details", "detail"),
                    description: toml_nested_string(text, "label_details", "description"),
                },
            )
        } else {
            None
        };
        Some(
            CompletionAssetItem {
                category,
                deprecated: toml_bool(text, "deprecated"),
                label,
                insert_text,
                documentation,
                label_details,
            },
        )
    }

    /// The item of the completion asset stored under `file`; `None` when
    /// there is none or it does not describe an item.
    pub fn from_embed(file: &str) -> (r: Option<CompletionAssetItem>)
        ensures
            completion_asset_text(file@) is None ==> r is None,
            completion_asset_text(file@) matches Some(t) ==> (r is Some <==> completion_record(t)),
            r matches Some(item) ==> completion_asset_text(file@) matches Some(t) && toml_string_field(
                t,
                "category"@,
            ) == Some(item.category@) && toml_string_field(t, "label"@) == Some(item.label@)
                && (item.label_details is Some <==> toml_table_present(t, "label_details"@)),
    {
        match completion_asset(file) {
            Some(text) => CompletionAssetItem::from_text(text),
            None => None,
        }
    }
}

/// A hover text as an asset describes it.
pub struct HoverAssetItem {
    pub identifier: String,
    pub category: String,
    pub markdown: Option<String>,
}

impl HoverAssetItem {
    /// The item that a TOML record describes: `None` unless it holds the
    /// strings `identifier` and `category`.
    pub fn from_text(text: &str) -> (r: Option<HoverAssetItem>)
        ensures
            r is Some <==> hover_record(text@),
            r matches Some(item) ==> {
                &&& toml_string_field(text@, "identifier"@) == Some(item.identifier@)
                &&& toml_string_field(text@, "category"@) == Some(item.category@)
                &&& opt_view(item.markdown) == toml_string_field(text@, "markdown"@)
            },
    {
        let identifier = match toml_string(text, "identifier") {
            Some(v) => v,
            None => {
                return None;
            },
        };
        let category = match toml_string(text, "category") {
            Some(v) => v,
            None => {
                return None;
            },
        };
        Some(HoverAssetItem { identifier, category, markdown: toml_string(text, "markdown") })
    }

    /// The item of the hover asset stored under `file`.
    pub fn from_embed(file: &str) -> (r: Option<HoverAssetItem>)
        ensures
            hover_asset_text(file@) is None ==> r is None,
            hover_asset_text(file@) matches Some(t) ==> (r is Some <==> hover_record(t)),
            r matches Some(item) ==> hover_asset_text(file@) matches Some(t) && toml_string_field(
                t,
                "identifier"@,
            ) == Some(item.identifier@) && toml_string_field(t, "category"@) == Some(
                item.category@,
            ),
    {
        match hover_asset(file) {
            Some(text) => HoverAssetItem::from_text(text),
            None => None,
        }
    }
}

} // verus!
