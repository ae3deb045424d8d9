//! Manifests: documents of sections, merged additively.
//!
//! A manifest is kept as a `toml_edit` document, so that what a merge does
//! not touch is written back as it was read. What the merge reads and
//! changes is described over two plain values of the document: the set of
//! its top-level keys, and, for each top-level key that holds a table, the
//! table's keys with each value written as TOML.

use vstd::prelude::*;
use crate::error::ErrorKind;
use crate::layout::default_source_root;
use crate::paths::{parent_dir, parent_of};
use crate::text::{contains_text, texts_of};

verus! {

/// `toml_edit::DocumentMut`, an editable document. Nothing is known of its
/// inside but what the functions below say.
#[verifier::external_type_specification]
#[verifier::external_body]
pub struct ExDocumentMut(toml_edit::DocumentMut);

/// `toml_edit::TomlError`, the parser's error. It is only handed through.
#[verifier::external_type_specification]
#[verifier::external_body]
pub struct ExTomlError(toml_edit::TomlError);

/// The document that a text parses to; `None` where it is not well-formed.
pub uninterp spec fn parsed_document(text: Seq<char>) -> Option<toml_edit::DocumentMut>;

/// The text that a document is written as.
pub uninterp spec fn document_text(document: toml_edit::DocumentMut) -> Seq<char>;

/// The top-level keys of a document.
pub uninterp spec fn document_keys(document: toml_edit::DocumentMut) -> Set<Seq<char>>;

/// The tables of a document: for each top-level key that holds a table,
/// the keys of that table, each with its value written as TOML.
pub uninterp spec fn document_tables(document: toml_edit::DocumentMut) -> Map<
    Seq<char>,
    Map<Seq<char>, Seq<char>>,
>;

/// The string that a document holds under `key` in the table `table`;
/// `None` where there is no such entry or it is no string.
pub uninterp spec fn document_string(
    document: toml_edit::DocumentMut,
    table: Seq<char>,
    key: Seq<char>,
) -> Option<Seq<char>>;

/// The keys of the table that a document holds under `section`, in the
/// order in which the table lists them.
pub uninterp spec fn section_key_list(
    document: toml_edit::DocumentMut,
    section: Seq<char>,
) -> Seq<Seq<char>>;

/// The document with a new, empty table put under `name`.
pub uninterp spec fn with_table(
    document: toml_edit::DocumentMut,
    name: Seq<char>,
) -> toml_edit::DocumentMut;

/// The document with the entry that `source` holds under `key` in its
/// table `section` put under `key` into the document's table `section`.
pub uninterp spec fn with_entry(
    document: toml_edit::DocumentMut,
    source: toml_edit::DocumentMut,
    section: Seq<char>,
    key: Seq<char>,
) -> toml_edit::DocumentMut;

/// `str::parse` to a `toml_edit::DocumentMut`, the document's `FromStr`.
///
/// Trusted: the result is the parsed document, or the parser's error where
/// the text is not well-formed.
#[verifier::external_body]
fn parse_document(text: &str) -> (r: Result<toml_edit::DocumentMut, toml_edit::TomlError>)
    ensures
        r is Ok <==> parsed_document(text@) is Some,
        r matches Ok(document) ==> parsed_document(text@) == Some(document),
{
    text.parse::<toml_edit::DocumentMut>()
}

/// `to_string` of a `toml_edit::DocumentMut`, the document's `Display`.
///
/// Trusted: the result is the document written as text.
#[verifier::external_body]
fn render_document(document: &toml_edit::DocumentMut) -> (text: String)
    ensures
        text@ == document_text(*document),
{
    document.to_string()
}

/// `toml_edit::Table::contains_key` on the root table.
///
/// Trusted: tells whether the document has an item under the key.
#[verifier::external_body]
fn has_key(document: &toml_edit::DocumentMut, name: &str) -> (r: bool)
    ensures
        r == document_keys(*document).contains(name@),
{
    document.contains_key(name)
}

/// `toml_edit::Table::contains_table` on the root table.
///
/// Trusted: tells whether the document has a table under the key; a key
/// that holds a table is one of the document's keys.
#[verifier::external_body]
fn has_table(document: &toml_edit::DocumentMut, name: &str) -> (r: bool)
    ensures
        r == document_tables(*document).contains_key(name@),
        r ==> document_keys(*document).contains(name@),
{
    document.contains_table(name)
}

/// `toml_edit::Table::insert` on the root table, with a new empty table.
///
/// Trusted: afterwards the key holds an empty table, and every other
/// top-level entry is as before. The document that results is a function
/// of the document and the name.
#[verifier::external_body]
fn add_table(document: &mut toml_edit::DocumentMut, name: &str)
    ensures
        *final(document) == with_table(*old(document), name@),
        document_keys(*final(document)) == document_keys(*old(document)).insert(name@),
        document_tables(*final(document)) == document_tables(*old(document)).insert(
            name@,
            Map::empty(),
        ),
{
    document.insert(name, toml_edit::Item::Table(toml_edit::Table::new()));
}

/// `toml_edit::Table::iter` on the table under `section`, keys only.
///
/// Trusted: lists the keys of that table, in the table's order.
#[verifier::external_body]
fn section_keys(document: &toml_edit::DocumentMut, section: &str) -> (keys: Vec<String>)
    requires
        document_tables(*document).contains_key(section@),
    ensures
        texts_of(keys@) == section_key_list(*document, section@),
        forall|key: Seq<char>|
            document_tables(*document)[section@].contains_key(key) <==> exists|i: int|
                0 <= i < keys@.len() && #[trigger] keys@[i]@ == key,
{
    document[section].as_table().unwrap().iter().map(|(key, _)| key.to_owned()).collect()
}

/// `toml_edit::Table::insert` on the table under `section`, with a clone
/// of the item that `source` holds there under `key`.
///
/// Trusted: afterwards the table holds under `key` the value that `source`
/// holds, and every other entry of every table is as before. The document
/// that results is a function of the two documents, the section and the
/// key.
#[verifier::external_body]
fn copy_entry(
    document: &mut toml_edit::DocumentMut,
    source: &toml_edit::DocumentMut,
    section: &str,
    key: &str,
)
    requires
        document_tables(*old(document)).contains_key(section@),
        document_tables(*source).contains_key(section@),
        document_tables(*source)[section@].contains_key(key@),
    ensures
        *final(document) == with_entry(*old(document), *source, section@, key@),
        document_keys(*final(document)) == document_keys(*old(document)),
        document_tables(*final(document)) == document_tables(*old(document)).insert(
            section@,
            document_tables(*old(document))[section@].insert(
                key@,
                document_tables(*source)[section@][key@],
            ),
        ),
{
    let item = source[section][key].clone();
    document[section].as_table_mut().unwrap().insert(key, item);
}

/// `toml_edit::Table::get` on the root table, `toml_edit::Item::get` on
/// what it finds, and `toml_edit::Item::as_str` on what that finds.
///
/// Trusted: the string under `key` in the table under `table`, if the
/// document holds one there.
#[verifier::external_body]
fn string_entry(document: &toml_edit::DocumentMut, table: &str, key: &str) -> (r: Option<String>)
    ensures
        r is Some <==> document_string(*document, table@, key@) is Some,
        r matches Some(s) ==> document_string(*document, table@, key@) == Some(s@),
{
    let text = document.get(table)?.get(key)?.as_str()?;
    Some(text.to_owned())
}

/// A manifest.
#[derive(Debug)]
pub struct Manifest {
    pub document: toml_edit::DocumentMut,
}

/// What a merge reads of a manifest.
pub struct ManifestView {
    /// The top-level keys.
    pub keys: Set<Seq<char>>,
    /// The sections: each top-level key that holds a table, with the
    /// table's entries.
    pub tables: Map<Seq<char>, Map<Seq<char>, Seq<char>>>,
}

/// What a merge reads of a document.
pub open spec fn manifest_view(document: toml_edit::DocumentMut) -> ManifestView {
    ManifestView { keys: document_keys(document), tables: document_tables(document) }
}

impl View for Manifest {
    type V = ManifestView;

    open spec fn view(&self) -> ManifestView {
        manifest_view(self.document)
    }
}

/// The outcome of merging a package's manifest into a consumer's.
#[derive(Debug)]
pub struct Merged {
    /// The consumer's manifest after the merge.
    pub manifest: Manifest,
    /// Its text, to be written back.
    pub text: String,
    /// The source root that the package declares.
    pub source_root: String,
}

/// The sections that a merge copies from: no other section is touched.
pub open spec fn allow_listed(name: Seq<char>) -> bool {
    name == "dev-dependencies"@ || name == "features"@ || name == "dependencies"@
}

/// The entries of a section; none where the manifest has no such section.
pub open spec fn section_of(manifest: ManifestView, name: Seq<char>) -> Map<Seq<char>, Seq<char>> {
    if manifest.tables.contains_key(name) {
        manifest.tables[name]
    } else {
        Map::empty()
    }
}

/// A section can be merged into unless its name is taken by something that
/// is no table.
pub open spec fn mergeable(manifest: ManifestView, name: Seq<char>) -> bool {
    manifest.keys.contains(name) ==> manifest.tables.contains_key(name)
}

/// All sections of the allow-list can be merged into.
pub open spec fn all_mergeable(manifest: ManifestView) -> bool {
    forall|name: Seq<char>| allow_listed(name) ==> mergeable(manifest, name)
}

/// The manifest with one section merged: the section exists, holds all it
/// held before, and also each entry of the package's section whose key it
/// did not have.
pub open spec fn merge_section(
    manifest: ManifestView,
    package: ManifestView,
    name: Seq<char>,
) -> ManifestView {
    ManifestView {
        keys: manifest.keys.insert(name),
        tables: manifest.tables.insert(
            name,
            section_of(package, name).union_prefer_right(section_of(manifest, name)),
        ),
    }
}

/// The manifest with the sections of the allow-list merged.
pub open spec fn merged(manifest: ManifestView, package: ManifestView) -> ManifestView {
    merge_section(
        merge_section(
            merge_section(manifest, package, "dev-dependencies"@),
            package,
            "features"@,
        ),
        package,
        "dependencies"@,
    )
}

/// The section is there and has every key of the package's section: a
/// merge finds nothing to add to it.
pub open spec fn section_settled(
    manifest: ManifestView,
    package: ManifestView,
    name: Seq<char>,
) -> bool {
    manifest.tables.contains_key(name) && section_of(package, name).dom().subset_of(
        manifest.tables[name].dom(),
    )
}

/// A merge finds nothing to add.
pub open spec fn settled(manifest: ManifestView, package: ManifestView) -> bool {
    &&& section_settled(manifest, package, "dev-dependencies"@)
    &&& section_settled(manifest, package, "features"@)
    &&& section_settled(manifest, package, "dependencies"@)
}

/// The document with the offered entries of the package's section put in,
/// one after the other, but for those whose keys the section held.
pub open spec fn with_entries(
    document: toml_edit::DocumentMut,
    package: toml_edit::DocumentMut,
    section: Seq<char>,
    offered: Seq<Seq<char>>,
    held: Set<Seq<char>>,
) -> toml_edit::DocumentMut
    decreases offered.len(),
{
    if offered.len() == 0 {
        document
    } else {
        let before = with_entries(document, package, section, offered.drop_last(), held);
        if held.contains(offered.last()) {
            before
        } else {
            with_entry(before, package, section, offered.last())
        }
    }
}

/// The document after one section is merged: the section is created where
/// it is missing, and then gets, in the order of the package's section,
/// each entry whose key it did not hold. Nothing else is done to the
/// document.
pub open spec fn merge_section_document(
    document: toml_edit::DocumentMut,
    package: toml_edit::DocumentMut,
    name: Seq<char>,
) -> toml_edit::DocumentMut {
    with_entries(
        if document_tables(document).contains_key(name) {
            document
        } else {
            with_table(document, name)
        },
        package,
        name,
        if document_tables(package).contains_key(name) {
            section_key_list(package, name)
        } else {
            Seq::empty()
        },
        section_of(manifest_view(document), name).dom(),
    )
}

/// The document after the sections of the allow-list are merged.
pub open spec fn merged_document(
    document: toml_edit::DocumentMut,
    package: toml_edit::DocumentMut,
) -> toml_edit::DocumentMut {
    merge_section_document(
        merge_section_document(
            merge_section_document(document, package, "dev-dependencies"@),
            package,
            "features"@,
        ),
        package,
        "dependencies"@,
    )
}

/// The source root that a package declares: the directory of its library
/// path, or `src` where it declares no library path.
pub open spec fn source_root_of(library_path: Option<Seq<char>>) -> Seq<char> {
    match library_path {
        Some(path) => parent_of(path),
        None => "src"@,
    }
}

/// The three section names differ.
pub proof fn lemma_section_names_differ()
    ensures
        "dev-dependencies"@ != "features"@,
        "dev-dependencies"@ != "dependencies"@,
        "features"@ != "dependencies"@,
{
    reveal_strlit("dev-dependencies");
    reveal_strlit("features");
    reveal_strlit("dependencies");
    assert("dev-dependencies"@.len() == 16);
    assert("features"@.len() == 8);
    assert("dependencies"@.len() == 12);
}

impl Manifest {
    /// Reads a manifest from its text.
    pub fn from_text(text: &str) -> (r: Result<Manifest, ErrorKind>)
        ensures
            match r {
                Ok(manifest) => parsed_document(text@) == Some(manifest.document),
                Err(e) => e == ErrorKind::ManifestParse && parsed_document(text@) is None,
            },
    {
        match parse_document(text) {
            Ok(document) => Ok(Manifest { document }),
            Err(_) => Err(ErrorKind::ManifestParse),
        }
    }

    /// Writes the manifest as text.
    pub fn render(&self) -> (text: String)
        ensures
            text@ == document_text(self.document),
    {
        render_document(&self.document)
    }

    /// The source root that the manifest declares.
    pub fn source_root(&self) -> (root: String)
        ensures
            root@ == source_root_of(document_string(self.document, "lib"@, "path"@)),
    {
        match string_entry(&self.document, "lib", "path") {
            Some(path) => parent_dir(path.as_str()),
            None => default_source_root(),
        }
    }

    /// Whether the section `name` can be merged into.
    fn can_merge(&self, name: &str) -> (r: bool)
        ensures
            r == mergeable(self@, name@),
    {
        !has_key(&self.document, name) || has_table(&self.document, name)
    }

    /// Merges one section of `package` into the manifest.
    fn merge_one(&mut self, package: &Manifest, name: &str)
        requires
            mergeable(old(self)@, name@),
        ensures
            final(self)@ == merge_section(old(self)@, package@, name@),
            final(self).document == merge_section_document(
                old(self).document,
                package.document,
                name@,
            ),
            section_settled(old(self)@, package@, name@)
                ==> final(self).document == old(self).document,
    {
        let ghost own = section_of(self@, name@);
        let ghost theirs = section_of(package@, name@);
        let offered = if has_table(&package.document, name) {
            section_keys(&package.document, name)
        } else {
            let none: Vec<String> = Vec::new();
            assert(texts_of(none@) =~= Seq::<Seq<char>>::empty());
            none
        };
        if !has_table(&self.document, name) {
            add_table(&mut self.document, name);
        }
        let ghost prepared = self.document;
        let ghost all = texts_of(offered@);
        let held = section_keys(&self.document, name);
        assert(self@.tables[name@] == own);
        let mut i: usize = 0;
        assert(all.take(0) =~= Seq::<Seq<char>>::empty());
        while i < offered.len()
            invariant
                i <= offered.len(),
                all == texts_of(offered@),
                self.document == with_entries(
                    prepared,
                    package.document,
                    name@,
                    all.take(i as int),
                    own.dom(),
                ),
                own == section_of(old(self)@, name@),
                theirs == section_of(package@, name@),
                !package@.tables.contains_key(name@) ==> offered@.len() == 0,
                forall|key: Seq<char>|
                    theirs.contains_key(key) <==> exists|j: int|
                        0 <= j < offered@.len() && #[trigger] offered@[j]@ == key,
                forall|key: Seq<char>|
                    own.contains_key(key) <==> exists|j: int|
                        0 <= j < held@.len() && #[trigger] held@[j]@ == key,
                self@.keys =~= old(self)@.keys.insert(name@),
                self@.tables.contains_key(name@),
                self@.tables == old(self)@.tables.insert(name@, self@.tables[name@]),
                self@.tables[name@].dom() =~= Set::new(
                    |key: Seq<char>|
                        own.contains_key(key) || exists|j: int|
                            0 <= j < i && #[trigger] offered@[j]@ == key,
                ),
                forall|key: Seq<char>| #[trigger]
                    self@.tables[name@].contains_key(key) ==> self@.tables[name@][key]
                        == theirs.union_prefer_right(own)[key],
                section_settled(old(self)@, package@, name@)
                    ==> self.document == old(self).document,
            decreases offered.len() - i,
        {
            let key = offered[i].as_str();
            assert(theirs.contains_key(key@));
            assert(all.take(i as int + 1).drop_last() == all.take(i as int));
            assert(all.take(i as int + 1).last() == key@);
            if !contains_text(&held, key) {
                assert(!own.contains_key(key@));
                copy_entry(&mut self.document, &package.document, name, key);
            }
            i += 1;
        }
        assert(self@.tables[name@] =~= theirs.union_prefer_right(own));
        assert(all.take(offered.len() as int) == all);
    }

    /// Merges the sections of the allow-list from `package` into the
    /// manifest. Nothing that the manifest holds is removed or changed:
    /// each section gains the entries of the package's section whose keys
    /// it lacks, and a section that it lacks is created. The document is
    /// touched by these insertions and by nothing else. Where a merge
    /// finds nothing to add, the document is left as it is. Where the name
    /// of a section is taken by something that is no table, the manifest
    /// is malformed and stays untouched.
    pub fn merge_from(&mut self, package: &Manifest) -> (r: Result<(), ErrorKind>)
        ensures
            match r {
                Ok(_) => {
                    &&& all_mergeable(old(self)@)
                    &&& final(self)@ == merged(old(self)@, package@)
                    &&& final(self).document == merged_document(
                        old(self).document,
                        package.document,
                    )
                },
                Err(e) => {
                    &&& e == ErrorKind::ManifestParse
                    &&& !all_mergeable(old(self)@)
                    &&& *final(self) == *old(self)
                },
            },
            settled(old(self)@, package@) ==> *final(self) == *old(self),
    {
        proof {
            lemma_section_names_differ();
        }
        if !(self.can_merge("dev-dependencies") && self.can_merge("features") && self.can_merge(
            "dependencies",
        )) {
            proof {
                assert(allow_listed("dev-dependencies"@));
                assert(allow_listed("features"@));
                assert(allow_listed("dependencies"@));
            }
            return Err(ErrorKind::ManifestParse);
        }
        self.merge_one(package, "dev-dependencies");
        self.merge_one(package, "features");
        self.merge_one(package, "dependencies");
        Ok(())
    }
}

/// Merges the manifest of a package into the manifest of its consumer,
/// both given as text, and finds the package's source root. An absent
/// consumer manifest is given as the empty text. The merge fails where
/// one of the two texts is malformed, or the consumer's manifest keeps
/// something that is no table under the name of a section.
pub fn merge_manifests(own: &str, package: &str) -> (r: Result<Merged, ErrorKind>)
    ensures
        match r {
            Ok(merge) => {
                &&& parsed_document(own@) matches Some(before)
                &&& parsed_document(package@) matches Some(theirs)
                &&& all_mergeable(manifest_view(before))
                &&& merge.manifest@ == merged(manifest_view(before), manifest_view(theirs))
                &&& merge.manifest.document == merged_document(before, theirs)
                &&& settled(manifest_view(before), manifest_view(theirs))
                    ==> merge.manifest.document == before
                &&& merge.text@ == document_text(merge.manifest.document)
                &&& merge.source_root@ == source_root_of(
                    document_string(theirs, "lib"@, "path"@),
                )
            },
            Err(e) => {
                &&& e == ErrorKind::ManifestParse
                &&& parsed_document(own@) matches Some(before) ==> parsed_document(package@)
                    matches Some(theirs) ==> !all_mergeable(manifest_view(before))
            },
        },
{
    let mut manifest = match Manifest::from_text(own) {
        Ok(m) => m,
        Err(e) => {
            return Err(e);
        },
    };
    let theirs = match Manifest::from_text(package) {
        Ok(m) => m,
        Err(e) => {
            return Err(e);
        },
    };
    match manifest.merge_from(&theirs) {
        Ok(_) => {},
        Err(e) => {
            return Err(e);
        },
    }
    let text = manifest.render();
    let source_root = theirs.source_root();
    Ok(Merged { manifest, text, source_root })
}

/// Merging never removes or changes what the manifest holds: every key
/// stays, every section stays, and every entry of every section keeps its
/// value.
pub proof fn lemma_merge_is_additive(manifest: ManifestView, package: ManifestView)
    requires
        all_mergeable(manifest),
    ensures
        manifest.keys.subset_of(merged(manifest, package).keys),
        forall|name: Seq<char>| #[trigger]
            manifest.tables.contains_key(name) ==> merged(manifest, package).tables.contains_key(
                name,
            ),
        forall|name: Seq<char>, key: Seq<char>|
            manifest.tables.contains_key(name) && #[trigger] manifest.tables[name].contains_key(
                key,
            ) ==> merged(manifest, package).tables[name].contains_key(key) && merged(
                manifest,
                package,
            ).tables[name][key] == manifest.tables[name][key],
{
    lemma_section_names_differ();
}

/// What merging adds: in a section of the allow-list, exactly the entries
/// of the package's section whose keys the manifest lacked, each with the
/// package's value; in any other section, nothing.
pub proof fn lemma_merge_adds_missing(manifest: ManifestView, package: ManifestView)
    requires
        all_mergeable(manifest),
    ensures
        forall|name: Seq<char>| #[trigger]
            allow_listed(name) ==> merged(manifest, package).tables.contains_key(name) && merged(
                manifest,
                package,
            ).tables[name] == section_of(package, name).union_prefer_right(
                section_of(manifest, name),
            ),
        forall|name: Seq<char>|
            !allow_listed(name) ==> (#[trigger] merged(manifest, package).tables.contains_key(name)
                <==> manifest.tables.contains_key(name)),
        forall|name: Seq<char>|
            !allow_listed(name) && #[trigger] manifest.tables.contains_key(name) ==> merged(
                manifest,
                package,
            ).tables[name] == manifest.tables[name],
{
    lemma_section_names_differ();
}

/// Merging the same package again finds nothing to add.
pub proof fn lemma_merged_is_settled(manifest: ManifestView, package: ManifestView)
    requires
        all_mergeable(manifest),
    ensures
        settled(merged(manifest, package), package),
{
    lemma_section_names_differ();
}

} // verus!
