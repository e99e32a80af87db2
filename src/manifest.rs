//! Edits of package manifests: the package's own name, and the keys under
//! which the dependency tables refer to a renamed package.
use vstd::prelude::*;

use crate::error::RenameError;
use toml_edit::{ArrayOfTables, Document, InlineTable, Item, Table, TomlError, Value};

verus! {

#[verifier::external_type_specification]
#[verifier::external_body]
pub struct ExDocument(toml_edit::Document);

#[verifier::external_type_specification]
#[verifier::external_body]
pub struct ExTable(toml_edit::Table);

#[verifier::external_type_specification]
#[verifier::external_body]
pub struct ExValue(toml_edit::Value);

#[verifier::external_type_specification]
#[verifier::external_body]
pub struct ExArrayOfTables(toml_edit::ArrayOfTables);

#[verifier::external_type_specification]
#[verifier::external_body]
pub struct ExTomlError(toml_edit::TomlError);

#[verifier::external_type_specification]
#[verifier::external_body]
pub struct ExInlineTable(toml_edit::InlineTable);

#[verifier::external_type_specification]
pub struct ExItem(toml_edit::Item);

/// The item is a table, written as a section or inline.
pub open spec fn is_table_like(i: Item) -> bool {
    match i {
        Item::Table(_) => true,
        Item::Value(v) => value_inline_entries(v) is Some,
        _ => false,
    }
}

/// The entries of the item, where it is a table, written as a section or
/// inline.
pub open spec fn entries_of(i: Item) -> Map<Seq<char>, Item> {
    match i {
        Item::Table(t) => table_entries(t),
        Item::Value(v) => match value_inline_entries(v) {
            Some(m) => m,
            None => Map::empty(),
        },
        _ => Map::empty(),
    }
}

/// The item is a table that holds `key`: with a non-empty item in a section,
/// with a value in an inline table.
pub open spec fn holds_key(i: Item, key: Seq<char>) -> bool {
    match i {
        Item::Table(t) => has_live_key(table_entries(t), key),
        Item::Value(v) => match value_inline_entries(v) {
            Some(m) => holds_value(m, key),
            None => false,
        },
        _ => false,
    }
}

/// The entries hold a value under `key`.
pub open spec fn holds_value(m: Map<Seq<char>, Item>, key: Seq<char>) -> bool {
    m.contains_key(key) && m[key] is Value
}

/// The table holds `key` with a value that is not the empty item.
pub open spec fn has_live_key(m: Map<Seq<char>, Item>, key: Seq<char>) -> bool {
    m.contains_key(key) && !(m[key] matches Item::None)
}

/// The entries after the value under `old_key` is moved to `new_key`; a
/// key renamed to itself stays as it was.
pub open spec fn renamed_entries(m: Map<Seq<char>, Item>, old_key: Seq<char>, new_key: Seq<char>) -> Map<
    Seq<char>,
    Item,
> {
    if old_key == new_key {
        m
    } else {
        m.insert(new_key, m[old_key]).remove(old_key)
    }
}

/// `[dependencies]`
pub open spec fn dependencies_key() -> Seq<char> {
    seq!['d', 'e', 'p', 'e', 'n', 'd', 'e', 'n', 'c', 'i', 'e', 's']
}

/// `[dev-dependencies]`
pub open spec fn dev_dependencies_key() -> Seq<char> {
    seq!['d', 'e', 'v', '-'] + dependencies_key()
}

/// `[package]`
pub open spec fn package_key() -> Seq<char> {
    seq!['p', 'a', 'c', 'k', 'a', 'g', 'e']
}

/// `name`
pub open spec fn name_key() -> Seq<char> {
    seq!['n', 'a', 'm', 'e']
}

/// The root entries hold a table under `section` that refers to `old_name`.
pub open spec fn section_refers_to(root: Map<Seq<char>, Item>, section: Seq<char>, old_name: Seq<char>) -> bool {
    root.contains_key(section) && holds_key(root[section], old_name)
}

/// What becomes of the entry under `section` when `old_name` is renamed to
/// `new_name`: a table that refers to it gets its entries renamed; anything
/// else stays as it was.
pub open spec fn section_rewritten(
    before: Map<Seq<char>, Item>,
    after: Map<Seq<char>, Item>,
    section: Seq<char>,
    old_name: Seq<char>,
    new_name: Seq<char>,
) -> bool {
    if section_refers_to(before, section, old_name) {
        after.contains_key(section) && is_table_like(after[section]) && entries_of(after[section])
            == renamed_entries(entries_of(before[section]), old_name, new_name)
    } else {
        after.contains_key(section) == before.contains_key(section) && (before.contains_key(section)
            ==> after[section] == before[section])
    }
}

/// The dependency rename, from the root entries before to those after.
pub open spec fn dependencies_rewritten(
    before: Map<Seq<char>, Item>,
    after: Map<Seq<char>, Item>,
    old_name: Seq<char>,
    new_name: Seq<char>,
) -> bool {
    &&& after.dom() == before.dom()
    &&& forall|k: Seq<char>|
        #![trigger after[k]]
        before.contains_key(k) && k != dependencies_key() && k != dev_dependencies_key() ==> after[k]
            == before[k]
    &&& section_rewritten(before, after, dependencies_key(), old_name, new_name)
    &&& section_rewritten(before, after, dev_dependencies_key(), old_name, new_name)
}

/// Some dependency table of the root entries refers to `old_name`.
pub open spec fn refers_to(root: Map<Seq<char>, Item>, old_name: Seq<char>) -> bool {
    section_refers_to(root, dependencies_key(), old_name) || section_refers_to(
        root,
        dev_dependencies_key(),
        old_name,
    )
}

/// The package name set, from the root entries before to those after.
pub open spec fn package_renamed(
    before: Map<Seq<char>, Item>,
    after: Map<Seq<char>, Item>,
    new_name: Seq<char>,
) -> bool {
    &&& after.dom() == before.dom()
    &&& forall|k: Seq<char>|
        #![trigger after[k]]
        before.contains_key(k) && k != package_key() ==> after[k] == before[k]
    &&& is_table_like(after[package_key()])
    &&& entries_of(after[package_key()]) == entries_of(before[package_key()]).insert(name_key(), Item::Value(toml_string(new_name)))
}

/// The root entries hold a `[package]` table.
pub open spec fn has_package_table(root: Map<Seq<char>, Item>) -> bool {
    root.contains_key(package_key()) && is_table_like(root[package_key()])
}

/// The entries of a table, by key.
pub uninterp spec fn table_entries(t: Table) -> Map<Seq<char>, Item>;

/// The entries of an inline table, by key.
pub uninterp spec fn inline_entries(t: InlineTable) -> Map<Seq<char>, Item>;

/// The entries of a value that is an inline table; none for any other value.
pub uninterp spec fn value_inline_entries(v: Value) -> Option<Map<Seq<char>, Item>>;

/// The root item of a document.
pub uninterp spec fn document_root(d: Document) -> Item;

/// The entries of a document's root table, by key.
pub open spec fn document_entries(d: Document) -> Map<Seq<char>, Item> {
    match document_root(d) {
        Item::Table(t) => table_entries(t),
        _ => Map::empty(),
    }
}

/// The document's root is a table, as it is for every parsed document.
pub open spec fn has_table_root(d: Document) -> bool {
    document_root(d) is Table
}

/// Whether the text is a TOML document.
pub uninterp spec fn toml_accepts(s: Seq<char>) -> bool;

/// The entries of the root table of the document that the text parses to.
pub uninterp spec fn parsed_entries(s: Seq<char>) -> Map<Seq<char>, Item>;

/// The text of a document.
pub uninterp spec fn document_text(d: Document) -> Seq<char>;

/// The TOML string value that holds the given text.
pub uninterp spec fn toml_string(s: Seq<char>) -> Value;

/// Relies on toml_edit::Document::as_item_mut: the document's root item,
/// changed in place.
pub assume_specification[ Document::as_item_mut ](doc: &mut Document) -> (r: &mut Item)
    ensures
        *r == document_root(*old(doc)),
        document_root(*final(doc)) == *final(r),
;

/// Relies on toml_edit::Value::as_inline_table_mut: the inline table that the
/// value is, changed in place.
pub assume_specification[ Value::as_inline_table_mut ](v: &mut Value) -> (r: Option<
    &mut InlineTable,
>)
    ensures
        r is Some <==> value_inline_entries(*old(v)) is Some,
        r is None ==> *final(v) == *old(v),
        r is Some ==> inline_entries(*r.unwrap()) == value_inline_entries(*old(v))->Some_0
            && value_inline_entries(*final(v)) == Some(inline_entries(*final(r.unwrap())))
            && (*final(r.unwrap()) == *r.unwrap() ==> *final(v) == *old(v)),
;

/// Relies on toml_edit::InlineTable::contains_key: the key is present with a
/// value.
pub assume_specification[ InlineTable::contains_key ](t: &InlineTable, key: &str) -> (r: bool)
    ensures
        r == holds_value(inline_entries(*t), key@),
;

/// Relies on toml_edit::InlineTable::remove: takes the key out and hands back
/// its value.
pub assume_specification[ InlineTable::remove ](t: &mut InlineTable, key: &str) -> (r: Option<
    Value,
>)
    ensures
        inline_entries(*final(t)) == inline_entries(*old(t)).remove(key@),
        !inline_entries(*old(t)).contains_key(key@) ==> r is None,
        inline_entries(*old(t)).contains_key(key@) ==> (inline_entries(*old(t))[key@] matches Item::Value(
            v,
        ) ==> r == Some(v)),
;

/// Relies on toml_edit::InlineTable::insert: sets the value under the key.
#[verifier::external_body]
fn inline_insert(t: &mut InlineTable, key: &str, value: Value)
    ensures
        inline_entries(*final(t)) == inline_entries(*old(t)).insert(key@, Item::Value(value)),
{
    t.insert(key, value);
}

/// Relies on toml_edit::Table::contains_key: the key is present with a value
/// that is not the empty item.
pub assume_specification[ Table::contains_key ](t: &Table, key: &str) -> (r: bool)
    ensures
        r == has_live_key(table_entries(*t), key@),
;

/// Relies on toml_edit::Table::get_mut: the value under a key that holds a
/// non-empty item, changed in place.
pub assume_specification<'a>[ Table::get_mut ](t: &'a mut Table, key: &str) -> (r: Option<
    &'a mut Item,
>)
    ensures
        r is Some <==> has_live_key(table_entries(*old(t)), key@),
        r is None ==> table_entries(*final(t)) == table_entries(*old(t)),
        r is Some ==> *r.unwrap() == table_entries(*old(t))[key@] && table_entries(*final(t))
            == table_entries(*old(t)).insert(key@, *final(r.unwrap())),
;

/// Relies on toml_edit::Table::insert: sets the value under the key and hands
/// back the one it replaced.
pub assume_specification[ Table::insert ](t: &mut Table, key: &str, item: Item) -> (r: Option<
    Item,
>)
    ensures
        table_entries(*final(t)) == table_entries(*old(t)).insert(key@, item),
        r == (if table_entries(*old(t)).contains_key(key@) {
            Some(table_entries(*old(t))[key@])
        } else {
            None
        }),
;

/// Relies on toml_edit::Table::remove: takes the key out and hands back its
/// value.
pub assume_specification[ Table::remove ](t: &mut Table, key: &str) -> (r: Option<Item>)
    ensures
        table_entries(*final(t)) == table_entries(*old(t)).remove(key@),
        r == (if table_entries(*old(t)).contains_key(key@) {
            Some(table_entries(*old(t))[key@])
        } else {
            None
        }),
;

/// Relies on `Document`'s `FromStr`: the text parses or is refused, and the
/// document depends on the text alone.
#[verifier::external_body]
fn parse_document(text: &str) -> (r: Result<Document, TomlError>)
    ensures
        r is Ok <==> toml_accepts(text@),
        r matches Ok(d) ==> has_table_root(d) && document_entries(d) == parsed_entries(text@),
{
    text.parse::<Document>()
}

/// Relies on `Document`'s `Display`, which writes the document as TOML.
#[verifier::external_body]
fn render(doc: &Document) -> (r: String)
    requires
        has_table_root(*doc),
    ensures
        r@ == document_text(*doc),
{
    doc.to_string()
}

/// Relies on toml_edit::value: a plain string value built from the text.
#[verifier::external_body]
fn string_item(s: &str) -> (r: Item)
    ensures
        r == Item::Value(toml_string(s@)),
{
    toml_edit::value(s)
}

} // verus!

verus! {

/// Whether two texts are the same.
fn same_text(a: &str, b: &str) -> (r: bool)
    ensures
        r == (a@ == b@),
{
    String::from_str(a) == String::from_str(b)
}

/// Moves the entry under `old_name` to `new_name` in one dependency table.
/// Returns whether the table referred to `old_name`; a table that did not is
/// left as it was.
pub fn rename_in_table(table: &mut Table, old_name: &str, new_name: &str) -> (changed: bool)
    ensures
        changed == has_live_key(table_entries(*old(table)), old_name@),
        changed ==> table_entries(*final(table)) == renamed_entries(
            table_entries(*old(table)),
            old_name@,
            new_name@,
        ),
        !changed ==> *final(table) == *old(table),
{
    if !table.contains_key(old_name) {
        return false;
    }
    if same_text(old_name, new_name) {
        return true;
    }
    let ghost before = table_entries(*table);
    if let Some(item) = table.remove(old_name) {
        table.insert(new_name, item);
    }
    assert(table_entries(*table) =~= renamed_entries(before, old_name@, new_name@));
    true
}

/// Moves the entry under `old_name` to `new_name` in a dependency table
/// written inline. Returns whether it held a value under `old_name`; one that
/// did not is left as it was.
pub fn rename_in_inline_table(table: &mut InlineTable, old_name: &str, new_name: &str) -> (changed:
    bool)
    ensures
        changed == holds_value(inline_entries(*old(table)), old_name@),
        changed ==> inline_entries(*final(table)) == renamed_entries(
            inline_entries(*old(table)),
            old_name@,
            new_name@,
        ),
        !changed ==> *final(table) == *old(table),
{
    if !table.contains_key(old_name) {
        return false;
    }
    if same_text(old_name, new_name) {
        return true;
    }
    let ghost before = inline_entries(*table);
    if let Some(value) = table.remove(old_name) {
        inline_insert(table, new_name, value);
    }
    assert(inline_entries(*table) =~= renamed_entries(before, old_name@, new_name@));
    true
}

/// Renames `old_name` to `new_name` in the dependency table under `section`
/// of the root table, where there is one, written as a section or inline.
fn rename_in_section(root: &mut Table, section: &str, old_name: &str, new_name: &str) -> (changed:
    bool)
    ensures
        changed == section_refers_to(table_entries(*old(root)), section@, old_name@),
        table_entries(*final(root)).dom() == table_entries(*old(root)).dom(),
        forall|k: Seq<char>|
            #![trigger table_entries(*final(root))[k]]
            table_entries(*old(root)).contains_key(k) && k != section@ ==> table_entries(
                *final(root),
            )[k] == table_entries(*old(root))[k],
        section_rewritten(
            table_entries(*old(root)),
            table_entries(*final(root)),
            section@,
            old_name@,
            new_name@,
        ),
{
    let ghost before = table_entries(*root);
    match root.get_mut(section) {
        Some(item) => {
            let changed = match item {
                Item::Table(deps) => rename_in_table(deps, old_name, new_name),
                Item::Value(value) => match value.as_inline_table_mut() {
                    Some(deps) => rename_in_inline_table(deps, old_name, new_name),
                    None => false,
                },
                _ => false,
            };
            proof {
                assert(table_entries(*root).dom() =~= before.dom());
            }
            changed
        },
        None => false,
    }
}

/// Renames the dependency `old_name` to `new_name` in the `[dependencies]`
/// and `[dev-dependencies]` tables of the document. Returns whether either
/// table referred to `old_name`.
pub fn rename_dependency_in_document(doc: &mut Document, old_name: &str, new_name: &str) -> (changed:
    bool)
    ensures
        changed == refers_to(document_entries(*old(doc)), old_name@),
        dependencies_rewritten(
            document_entries(*old(doc)),
            document_entries(*final(doc)),
            old_name@,
            new_name@,
        ),
        has_table_root(*old(doc)) ==> has_table_root(*final(doc)),
{
    let root = doc.as_item_mut();
    match root {
        Item::Table(root) => {
            proof {
                reveal_strlit("dependencies");
                reveal_strlit("dev-dependencies");
                assert("dependencies"@ =~= dependencies_key());
                assert("dev-dependencies"@ =~= dev_dependencies_key());
                assert(dependencies_key() != dev_dependencies_key());
            }
            let runtime = rename_in_section(root, "dependencies", old_name, new_name);
            let dev = rename_in_section(root, "dev-dependencies", old_name, new_name);
            runtime || dev
        },
        _ => false,
    }
}

/// Renames the dependency `old_name` to `new_name` in the manifest text.
/// Text in which no dependency table refers to `old_name` comes back as it
/// is; otherwise it is the rewritten document.
pub fn update_dependencies(manifest: &str, old_name: &str, new_name: &str) -> (r: Result<
    String,
    RenameError,
>)
    ensures
        r is Err <==> !toml_accepts(manifest@),
        r matches Err(e) ==> e == RenameError::Manifest,
        r matches Ok(s) ==> !refers_to(parsed_entries(manifest@), old_name@) ==> s@ == manifest@,
        r matches Ok(s) ==> refers_to(parsed_entries(manifest@), old_name@) ==> exists|d: Document|
            #![trigger document_text(d)]
            s@ == document_text(d) && dependencies_rewritten(
                parsed_entries(manifest@),
                document_entries(d),
                old_name@,
                new_name@,
            ),
{
    let mut doc = match parse_document(manifest) {
        Ok(doc) => doc,
        Err(_) => return Err(RenameError::Manifest),
    };
    if rename_dependency_in_document(&mut doc, old_name, new_name) {
        let text = render(&doc);
        assert(text@ == document_text(doc));
        Ok(text)
    } else {
        Ok(String::from_str(manifest))
    }
}

/// Sets the `name` of the document's `[package]` table, written as a section
/// or inline.
pub fn set_package_name(doc: &mut Document, new_name: &str) -> (r: Result<(), RenameError>)
    ensures
        r is Ok <==> has_package_table(document_entries(*old(doc))),
        r matches Err(e) ==> e == RenameError::MissingPackageTable && document_entries(*final(doc))
            == document_entries(*old(doc)),
        r is Ok ==> package_renamed(
            document_entries(*old(doc)),
            document_entries(*final(doc)),
            new_name@,
        ),
        has_table_root(*old(doc)) ==> has_table_root(*final(doc)),
{
    proof {
        reveal_strlit("package");
        reveal_strlit("name");
        assert("package"@ =~= package_key());
        assert("name"@ =~= name_key());
    }
    let root = match doc.as_item_mut() {
        Item::Table(root) => root,
        _ => return Err(RenameError::MissingPackageTable),
    };
    let ghost before = table_entries(*root);
    let value = match string_item(new_name) {
        Item::Value(value) => value,
        _ => return Err(RenameError::MissingPackageTable),
    };
    match root.get_mut("package") {
        Some(item) => match item {
            Item::Table(package) => {
                match package.get_mut("name") {
                    Some(slot) => {
                        *slot = Item::Value(value);
                    },
                    None => {
                        package.insert("name", Item::Value(value));
                    },
                }
                proof {
                    assert(table_entries(*root).dom() =~= before.dom());
                }
                Ok(())
            },
            Item::Value(inline) => match inline.as_inline_table_mut() {
                Some(package) => {
                    inline_insert(package, "name", value);
                    proof {
                        assert(table_entries(*root).dom() =~= before.dom());
                    }
                    Ok(())
                },
                None => Err(RenameError::MissingPackageTable),
            },
            _ => Err(RenameError::MissingPackageTable),
        },
        None => Err(RenameError::MissingPackageTable),
    }
}

/// Sets the package name in the manifest text to `new_name`.
pub fn rename_package(manifest: &str, new_name: &str) -> (r: Result<String, RenameError>)
    ensures
        r == Err::<String, RenameError>(RenameError::Manifest) <==> !toml_accepts(manifest@),
        r == Err::<String, RenameError>(RenameError::MissingPackageTable) <==> toml_accepts(
            manifest@,
        ) && !has_package_table(parsed_entries(manifest@)),
        r is Ok <==> toml_accepts(manifest@) && has_package_table(parsed_entries(manifest@)),
        r matches Ok(s) ==> exists|d: Document|
            #![trigger document_text(d)]
            s@ == document_text(d) && package_renamed(
                parsed_entries(manifest@),
                document_entries(d),
                new_name@,
            ),
{
    let mut doc = match parse_document(manifest) {
        Ok(doc) => doc,
        Err(_) => return Err(RenameError::Manifest),
    };
    set_package_name(&mut doc, new_name)?;
    let text = render(&doc);
    assert(text@ == document_text(doc));
    Ok(text)
}

/// A dependency table that refers to `old_name` refers, after the rename, to
/// `new_name` with the same specification, no longer to `old_name`, and keeps
/// its other entries.
pub proof fn law_dependency_key_renamed(
    before: Map<Seq<char>, Item>,
    after: Map<Seq<char>, Item>,
    section: Seq<char>,
    old_name: Seq<char>,
    new_name: Seq<char>,
)
    requires
        section == dependencies_key() || section == dev_dependencies_key(),
        section_refers_to(before, section, old_name),
        old_name != new_name,
        dependencies_rewritten(before, after, old_name, new_name),
    ensures
        is_table_like(after[section]),
        entries_of(after[section]).contains_key(new_name),
        entries_of(after[section])[new_name] == entries_of(before[section])[old_name],
        !entries_of(after[section]).contains_key(old_name),
        forall|k: Seq<char>|
            #![trigger entries_of(after[section])[k]]
            entries_of(before[section]).contains_key(k) && k != old_name && k != new_name
                ==> entries_of(after[section]).contains_key(k) && entries_of(after[section])[k]
                == entries_of(before[section])[k],
{
}

/// A manifest with neither a `[dependencies]` nor a `[dev-dependencies]`
/// table does not refer to any dependency, so its text is returned byte for
/// byte, and its document comes out of the rename unchanged.
pub proof fn law_manifest_without_dependency_tables(
    manifest: Seq<char>,
    after: Map<Seq<char>, Item>,
    old_name: Seq<char>,
    new_name: Seq<char>,
)
    requires
        !parsed_entries(manifest).contains_key(dependencies_key()),
        !parsed_entries(manifest).contains_key(dev_dependencies_key()),
        dependencies_rewritten(parsed_entries(manifest), after, old_name, new_name),
    ensures
        !refers_to(parsed_entries(manifest), old_name),
        after == parsed_entries(manifest),
{
    let before = parsed_entries(manifest);
    assert forall|k: Seq<char>| after.contains_key(k) implies after[k] == before[k] by {
        assert(k != dependencies_key() && k != dev_dependencies_key());
    }
    assert(after =~= before);
}

} // verus!
