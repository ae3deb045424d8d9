//! Invocations: which package to vendor, in which version, and with which
//! patches.
//!
//! An invocation is written `name { version: "1.2.3", patches: ["a", "b"] }`.
//! Whoever reads the tokens hands over the name and the fields as plain
//! values; what the fields may be is decided here.

use vstd::prelude::*;
use crate::package::PackageReference;
use crate::text::{same_text, texts_of};

verus! {

/// The value of one field of an invocation.
#[derive(Debug, Clone, PartialEq, Eq)]
pub enum FieldValue {
    /// A string literal.
    Text(String),
    /// A list. Each item is a string literal, or `None` for any other item.
    List(Vec<Option<String>>),
    /// Any other expression.
    Other,
}

/// The mathematical value of a [`FieldValue`].
pub enum FieldValueView {
    Text(Seq<char>),
    List(Seq<Option<Seq<char>>>),
    Other,
}

/// The values of the items of a list, in order.
pub open spec fn items_of(items: Seq<Option<String>>) -> Seq<Option<Seq<char>>> {
    Seq::new(
        items.len(),
        |i: int|
            match items[i] {
                Some(s) => Some(s@),
                None => None,
            },
    )
}

impl View for FieldValue {
    type V = FieldValueView;

    open spec fn view(&self) -> FieldValueView {
        match self {
            FieldValue::Text(t) => FieldValueView::Text(t@),
            FieldValue::List(items) => FieldValueView::List(items_of(items@)),
            FieldValue::Other => FieldValueView::Other,
        }
    }
}

/// One field of an invocation: its name, unless the member is unnamed,
/// and its value.
#[derive(Debug, Clone, PartialEq, Eq)]
pub struct Field {
    pub name: Option<String>,
    pub value: FieldValue,
}

/// The mathematical value of a [`Field`].
pub struct FieldView {
    pub name: Option<Seq<char>>,
    pub value: FieldValueView,
}

impl View for Field {
    type V = FieldView;

    open spec fn view(&self) -> FieldView {
        FieldView {
            name: match self.name {
                Some(n) => Some(n@),
                None => None,
            },
            value: self.value@,
        }
    }
}

/// Why an invocation is refused.
#[derive(Debug, Clone, PartialEq, Eq)]
pub enum InvocationError {
    /// A member has no name.
    UnnamedMember,
    /// A member has a name other than `version` and `patches`.
    UnknownMember(String),
    /// `version` is given again after a version that is not empty.
    RepeatedVersion,
    /// The value of `version` is no string literal.
    VersionNotText,
    /// `patches` is given a second time.
    RepeatedPatches,
    /// The value of `patches` is no list.
    PatchesNotList,
    /// An item of `patches` is no string literal.
    PatchNotText,
}

/// The mathematical value of an [`InvocationError`].
pub enum InvocationErrorView {
    UnnamedMember,
    UnknownMember(Seq<char>),
    RepeatedVersion,
    VersionNotText,
    RepeatedPatches,
    PatchesNotList,
    PatchNotText,
}

impl View for InvocationError {
    type V = InvocationErrorView;

    open spec fn view(&self) -> InvocationErrorView {
        match self {
            InvocationError::UnnamedMember => InvocationErrorView::UnnamedMember,
            InvocationError::UnknownMember(n) => InvocationErrorView::UnknownMember(n@),
            InvocationError::RepeatedVersion => InvocationErrorView::RepeatedVersion,
            InvocationError::VersionNotText => InvocationErrorView::VersionNotText,
            InvocationError::RepeatedPatches => InvocationErrorView::RepeatedPatches,
            InvocationError::PatchesNotList => InvocationErrorView::PatchesNotList,
            InvocationError::PatchNotText => InvocationErrorView::PatchNotText,
        }
    }
}

/// What an invocation asks for.
#[derive(Debug, Clone, PartialEq, Eq)]
pub struct MacroInput {
    /// The package's name.
    pub crate_name: String,
    /// The package's version; empty where the invocation gives none.
    pub version: String,
    /// The patch identifiers, in the order given; none where the
    /// invocation gives no list.
    pub patches: Vec<String>,
}

/// The mathematical value of a [`MacroInput`].
pub struct MacroInputView {
    pub crate_name: Seq<char>,
    pub version: Seq<char>,
    pub patches: Seq<Seq<char>>,
}

impl View for MacroInput {
    type V = MacroInputView;

    open spec fn view(&self) -> MacroInputView {
        MacroInputView {
            crate_name: self.crate_name@,
            version: self.version@,
            patches: texts_of(self.patches@),
        }
    }
}

/// The values of a list of fields, in order.
pub open spec fn fields_of(fields: Seq<Field>) -> Seq<FieldView> {
    Seq::new(fields.len(), |i: int| fields[i]@)
}

/// Every item of the list is a string literal.
pub open spec fn all_text(items: Seq<Option<Seq<char>>>) -> bool {
    forall|i: int| 0 <= i < items.len() ==> items[i] is Some
}

/// The string literals of a list of which every item is one.
pub open spec fn literals_of(items: Seq<Option<Seq<char>>>) -> Seq<Seq<char>> {
    Seq::new(items.len(), |i: int| items[i]->0)
}

/// What the fields ask for, read in order on top of the version and the
/// patches read so far. The first field that is out of place decides the
/// error.
///
/// `version` takes a string literal, and may be given again only while
/// the version is empty. `patches` takes a list of string literals, once.
/// No other member is known.
pub open spec fn read_fields(
    crate_name: Seq<char>,
    fields: Seq<FieldView>,
    version: Seq<char>,
    patches: Option<Seq<Seq<char>>>,
) -> Result<MacroInputView, InvocationErrorView>
    decreases fields.len(),
{
    if fields.len() == 0 {
        Ok(
            MacroInputView {
                crate_name,
                version,
                patches: match patches {
                    Some(list) => list,
                    None => Seq::empty(),
                },
            },
        )
    } else {
        match fields[0].name {
            None => Err(InvocationErrorView::UnnamedMember),
            Some(name) => if name == "version"@ {
                if version.len() != 0 {
                    Err(InvocationErrorView::RepeatedVersion)
                } else {
                    match fields[0].value {
                        FieldValueView::Text(text) => read_fields(
                            crate_name,
                            fields.drop_first(),
                            text,
                            patches,
                        ),
                        _ => Err(InvocationErrorView::VersionNotText),
                    }
                }
            } else if name == "patches"@ {
                if patches is Some {
                    Err(InvocationErrorView::RepeatedPatches)
                } else {
                    match fields[0].value {
                        FieldValueView::List(items) => if all_text(items) {
                            read_fields(
                                crate_name,
                                fields.drop_first(),
                                version,
                                Some(literals_of(items)),
                            )
                        } else {
                            Err(InvocationErrorView::PatchNotText)
                        },
                        _ => Err(InvocationErrorView::PatchesNotList),
                    }
                }
            } else {
                Err(InvocationErrorView::UnknownMember(name))
            },
        }
    }
}

/// What an invocation with this name and these fields asks for.
pub open spec fn parsed_input(crate_name: Seq<char>, fields: Seq<FieldView>) -> Result<
    MacroInputView,
    InvocationErrorView,
> {
    read_fields(crate_name, fields, Seq::empty(), None)
}

/// The string literals of a list, where every item is one.
fn literal_texts(items: &Vec<Option<String>>) -> (r: Option<Vec<String>>)
    ensures
        match r {
            Some(texts) => all_text(items_of(items@)) && texts_of(texts@) == literals_of(
                items_of(items@),
            ),
            None => !all_text(items_of(items@)),
        },
{
    let mut texts: Vec<String> = Vec::new();
    let mut i: usize = 0;
    while i < items.len()
        invariant
            i <= items.len(),
            texts@.len() == i,
            forall|j: int| 0 <= j < i ==> (#[trigger] items@[j]) is Some,
            forall|j: int| 0 <= j < i ==> (#[trigger] texts@[j])@ == items@[j]->0@,
        decreases items.len() - i,
    {
        match &items[i] {
            Some(text) => {
                let ghost before = texts@;
                texts.push(text.clone());
                assert forall|j: int| 0 <= j < i + 1 implies (#[trigger] texts@[j])@
                    == items@[j]->0@ by {
                    if j < i {
                        assert(texts@[j] == before[j]);
                    }
                }
            },
            None => {
                assert(items_of(items@)[i as int] is None);
                return None;
            },
        }
        i += 1;
    }
    proof {
        assert(texts_of(texts@) =~= literals_of(items_of(items@)));
    }
    Some(texts)
}

impl MacroInput {
    /// Reads an invocation: the package's name, and the fields that
    /// follow it.
    pub fn parse(crate_name: String, fields: &Vec<Field>) -> (r: Result<
        MacroInput,
        InvocationError,
    >)
        ensures
            match r {
                Ok(input) => parsed_input(crate_name@, fields_of(fields@)) == Ok::<
                    MacroInputView,
                    InvocationErrorView,
                >(input@),
                Err(e) => parsed_input(crate_name@, fields_of(fields@)) == Err::<
                    MacroInputView,
                    InvocationErrorView,
                >(e@),
            },
    {
        let ghost all = fields_of(fields@);
        let mut version = String::new();
        let mut patches: Option<Vec<String>> = None;
        let mut i: usize = 0;
        assert(all.skip(0) == all);
        while i < fields.len()
            invariant
                i <= fields.len(),
                all == fields_of(fields@),
                parsed_input(crate_name@, all) == read_fields(
                    crate_name@,
                    all.skip(i as int),
                    version@,
                    match patches {
                        Some(list) => Some(texts_of(list@)),
                        None => None,
                    },
                ),
            decreases fields.len() - i,
        {
            proof {
                assert(all.skip(i as int).drop_first() == all.skip(i as int + 1));
            }
            let field = &fields[i];
            match &field.name {
                None => {
                    return Err(InvocationError::UnnamedMember);
                },
                Some(member) => {
                    if same_text(member.as_str(), "version") {
                        if version.as_str().unicode_len() != 0 {
                            return Err(InvocationError::RepeatedVersion);
                        }
                        match &field.value {
                            FieldValue::Text(text) => {
                                version = text.clone();
                            },
                            _ => {
                                return Err(InvocationError::VersionNotText);
                            },
                        }
                    } else if same_text(member.as_str(), "patches") {
                        if patches.is_some() {
                            return Err(InvocationError::RepeatedPatches);
                        }
                        match &field.value {
                            FieldValue::List(items) => {
                                match literal_texts(items) {
                                    Some(texts) => {
                                        patches = Some(texts);
                                    },
                                    None => {
                                        return Err(InvocationError::PatchNotText);
                                    },
                                }
                            },
                            _ => {
                                return Err(InvocationError::PatchesNotList);
                            },
                        }
                    } else {
                        return Err(InvocationError::UnknownMember(member.clone()));
                    }
                },
            }
            i += 1;
        }
        proof {
            assert(all.skip(fields.len() as int).len() == 0);
        }
        let patches = match patches {
            Some(list) => list,
            None => {
                let none: Vec<String> = Vec::new();
                assert(texts_of(none@) =~= Seq::<Seq<char>>::empty());
                none
            },
        };
        Ok(MacroInput { crate_name, version, patches })
    }

    /// The archive that the invocation names.
    pub fn package(&self) -> (package: PackageReference)
        ensures
            package@.name == self@.crate_name,
            package@.version == self@.version,
    {
        PackageReference { name: self.crate_name.clone(), version: self.version.clone() }
    }
}

} // verus!
