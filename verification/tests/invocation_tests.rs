use crate_patcher::invocation::{Field, FieldValue, InvocationError, MacroInput};
use crate_patcher::package::PackageReference;

fn version(text: &str) -> Field {
    Field { name: Some("version".to_string()), value: FieldValue::Text(text.to_string()) }
}

fn patches(items: &[&str]) -> Field {
    Field {
        name: Some("patches".to_string()),
        value: FieldValue::List(items.iter().map(|item| Some(item.to_string())).collect()),
    }
}

fn input(name: &str, version: &str, patches: &[&str]) -> MacroInput {
    MacroInput {
        crate_name: name.to_string(),
        version: version.to_string(),
        patches: patches.iter().map(|item| item.to_string()).collect(),
    }
}

#[test]
fn an_invocation_names_package_and_version() {
    assert_eq!(
        MacroInput::parse("serde".to_string(), &vec![version("1.0.200")]),
        Ok(input("serde", "1.0.200", &[]))
    );
}

#[test]
fn an_invocation_may_list_patches() {
    assert_eq!(
        MacroInput::parse(
            "serde".to_string(),
            &vec![version("1.0.200"), patches(&["fix-a", "fix-b"])]
        ),
        Ok(input("serde", "1.0.200", &["fix-a", "fix-b"]))
    );
}

#[test]
fn the_patches_may_come_first_or_alone() {
    assert_eq!(
        MacroInput::parse("p".to_string(), &vec![patches(&["b", "a", "b"]), version("2")]),
        Ok(input("p", "2", &["b", "a", "b"]))
    );
    assert_eq!(
        MacroInput::parse("p".to_string(), &vec![patches(&["only"])]),
        Ok(input("p", "", &["only"]))
    );
}

#[test]
fn the_list_of_patches_may_be_empty() {
    assert_eq!(
        MacroInput::parse("p".to_string(), &vec![version("1"), patches(&[])]),
        Ok(input("p", "1", &[]))
    );
}

#[test]
fn an_invocation_without_fields_has_an_empty_version() {
    assert_eq!(MacroInput::parse("serde".to_string(), &Vec::new()), Ok(input("serde", "", &[])));
}

#[test]
fn a_version_may_follow_an_empty_version() {
    assert_eq!(
        MacroInput::parse("p".to_string(), &vec![version(""), version("2")]),
        Ok(input("p", "2", &[]))
    );
}

#[test]
fn a_repeated_version_is_refused() {
    assert_eq!(
        MacroInput::parse("p".to_string(), &vec![version("1"), version("2")]),
        Err(InvocationError::RepeatedVersion)
    );
    assert_eq!(
        MacroInput::parse(
            "p".to_string(),
            &vec![
                version("1"),
                Field { name: Some("version".to_string()), value: FieldValue::Other },
            ]
        ),
        Err(InvocationError::RepeatedVersion)
    );
}

#[test]
fn a_version_that_is_no_string_literal_is_refused() {
    for value in [FieldValue::Other, FieldValue::List(vec![Some("1".to_string())])] {
        assert_eq!(
            MacroInput::parse(
                "p".to_string(),
                &vec![Field { name: Some("version".to_string()), value }]
            ),
            Err(InvocationError::VersionNotText)
        );
    }
}

#[test]
fn repeated_patches_are_refused() {
    assert_eq!(
        MacroInput::parse("p".to_string(), &vec![patches(&["a"]), version("1"), patches(&["b"])]),
        Err(InvocationError::RepeatedPatches)
    );
    assert_eq!(
        MacroInput::parse("p".to_string(), &vec![patches(&[]), patches(&[])]),
        Err(InvocationError::RepeatedPatches)
    );
}

#[test]
fn patches_that_are_no_list_are_refused() {
    for value in [FieldValue::Other, FieldValue::Text("a".to_string())] {
        assert_eq!(
            MacroInput::parse(
                "p".to_string(),
                &vec![version("1"), Field { name: Some("patches".to_string()), value }]
            ),
            Err(InvocationError::PatchesNotList)
        );
    }
}

#[test]
fn a_patch_that_is_no_string_literal_is_refused() {
    assert_eq!(
        MacroInput::parse(
            "p".to_string(),
            &vec![Field {
                name: Some("patches".to_string()),
                value: FieldValue::List(vec![Some("a".to_string()), None, Some("c".to_string())]),
            }]
        ),
        Err(InvocationError::PatchNotText)
    );
}

#[test]
fn an_unknown_member_is_refused() {
    assert_eq!(
        MacroInput::parse(
            "p".to_string(),
            &vec![
                version("1"),
                Field { name: Some("features".to_string()), value: FieldValue::Other },
            ]
        ),
        Err(InvocationError::UnknownMember("features".to_string()))
    );
}

#[test]
fn an_unnamed_member_is_refused() {
    assert_eq!(
        MacroInput::parse(
            "p".to_string(),
            &vec![Field { name: None, value: FieldValue::Text("1".to_string()) }, version("1")]
        ),
        Err(InvocationError::UnnamedMember)
    );
}

#[test]
fn the_first_field_out_of_place_decides() {
    assert_eq!(
        MacroInput::parse(
            "p".to_string(),
            &vec![
                Field { name: Some("first".to_string()), value: FieldValue::Other },
                Field { name: None, value: FieldValue::Other },
            ]
        ),
        Err(InvocationError::UnknownMember("first".to_string()))
    );
    assert_eq!(
        MacroInput::parse(
            "p".to_string(),
            &vec![version("1"), version("2"), Field { name: None, value: FieldValue::Other }]
        ),
        Err(InvocationError::RepeatedVersion)
    );
}

#[test]
fn an_invocation_names_its_archive() {
    let input = input("serde", "1.0.200", &["a"]);
    assert_eq!(
        input.package(),
        PackageReference { name: "serde".to_string(), version: "1.0.200".to_string() }
    );
}
