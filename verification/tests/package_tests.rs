use crate_patcher::error::ErrorKind;
use crate_patcher::package::{default_registry, staging_name, PackageReference};
use crate_patcher::pipeline::{advance, Command, Event, Stage};

fn reference(name: &str, version: &str) -> PackageReference {
    PackageReference { name: name.to_string(), version: version.to_string() }
}

#[test]
fn names_derived_from_a_reference() {
    let package = reference("serde", "1.0.200");
    assert_eq!(package.pristine_dir_name(), "serde-1.0.200");
    assert_eq!(package.archive_file_name(), "serde-1.0.200.crate");
    assert_eq!(
        package.archive_url("https://registry.example/crates"),
        "https://registry.example/crates/serde/serde-1.0.200.crate"
    );
    assert_eq!(
        package.archive_url(&default_registry()),
        "https://static.crates.io/crates/serde/serde-1.0.200.crate"
    );
}

#[test]
fn names_derived_from_an_empty_reference() {
    let package = reference("", "");
    assert_eq!(package.pristine_dir_name(), "-");
    assert_eq!(package.archive_file_name(), "-.crate");
    assert_eq!(package.archive_url(""), "//-.crate");
}

#[test]
fn a_cache_entry_is_built_under_its_staging_name() {
    assert_eq!(staging_name("serde-1.0.200"), "serde-1.0.200.partial");
    assert_eq!(staging_name("serde-1.0.200.crate"), "serde-1.0.200.crate.partial");
    assert_eq!(staging_name(""), ".partial");
}

fn run(events: &[Event]) -> (Stage, Vec<Command>) {
    let mut stage = Stage::Start;
    let mut commands = Vec::new();
    for event in events {
        let (next, command) = advance(stage, *event);
        stage = next;
        commands.push(command);
    }
    (stage, commands)
}

#[test]
fn a_run_with_an_empty_cache() {
    let (stage, commands) = run(&[
        Event::Begin,
        Event::LockAcquired,
        Event::Missing,
        Event::Response { status: 200 },
        Event::Completed,
        Event::Missing,
        Event::Completed,
        Event::Completed,
    ]);
    assert_eq!(stage, Stage::Finished);
    assert_eq!(
        commands,
        vec![
            Command::TryLock,
            Command::ProbeArchive,
            Command::Download,
            Command::StoreArchive,
            Command::ProbePristine,
            Command::Unpack,
            Command::Vendor,
            Command::Emit,
        ]
    );
}

#[test]
fn a_run_with_a_full_cache_asks_for_nothing_from_outside() {
    let (stage, commands) =
        run(&[Event::Begin, Event::LockAcquired, Event::Present, Event::Present, Event::Completed]);
    assert_eq!(stage, Stage::Finished);
    assert_eq!(
        commands,
        vec![
            Command::TryLock,
            Command::ProbeArchive,
            Command::ProbePristine,
            Command::Vendor,
            Command::Emit,
        ]
    );
}

#[test]
fn a_cached_archive_is_unpacked_where_the_pristine_tree_is_missing() {
    let (_, commands) = run(&[Event::Begin, Event::LockAcquired, Event::Present, Event::Missing]);
    assert_eq!(commands.last(), Some(&Command::Unpack));
}

#[test]
fn a_busy_lock_falls_back_to_what_is_there() {
    let (stage, commands) = run(&[Event::Begin, Event::LockBusy]);
    assert_eq!(stage, Stage::Finished);
    assert_eq!(commands, vec![Command::TryLock, Command::Emit]);
}

#[test]
fn any_status_but_success_is_a_network_failure() {
    for status in [0_u16, 199, 201, 204, 301, 404, 500, u16::MAX] {
        assert_eq!(
            advance(Stage::Downloading, Event::Response { status }),
            (Stage::Finished, Command::Abort { kind: ErrorKind::NetworkFailure })
        );
    }
    assert_eq!(
        advance(Stage::Downloading, Event::Response { status: 200 }),
        (Stage::StoringArchive, Command::StoreArchive)
    );
}

#[test]
fn a_transport_failure_is_a_network_failure() {
    assert_eq!(
        advance(Stage::Downloading, Event::TransportFailed),
        (Stage::Finished, Command::Abort { kind: ErrorKind::NetworkFailure })
    );
}

#[test]
fn a_failed_unpack_is_a_corrupt_archive() {
    assert_eq!(
        advance(Stage::Unpacking, Event::Failed { kind: ErrorKind::Filesystem }),
        (Stage::Finished, Command::Abort { kind: ErrorKind::ArchiveCorrupt })
    );
}

#[test]
fn any_other_failure_ends_the_run_with_its_kind() {
    assert_eq!(
        advance(Stage::StoringArchive, Event::Failed { kind: ErrorKind::Filesystem }),
        (Stage::Finished, Command::Abort { kind: ErrorKind::Filesystem })
    );
    assert_eq!(
        advance(Stage::Vendoring, Event::Failed { kind: ErrorKind::PatchApplyFailure }),
        (Stage::Finished, Command::Abort { kind: ErrorKind::PatchApplyFailure })
    );
    assert_eq!(
        advance(Stage::Vendoring, Event::Failed { kind: ErrorKind::ManifestParse }),
        (Stage::Finished, Command::Abort { kind: ErrorKind::ManifestParse })
    );
}

#[test]
fn an_event_that_the_stage_does_not_wait_for_changes_nothing() {
    assert_eq!(advance(Stage::Start, Event::Present), (Stage::Start, Command::Wait));
    assert_eq!(advance(Stage::Locking, Event::Begin), (Stage::Locking, Command::Wait));
    assert_eq!(
        advance(Stage::ProbingArchive, Event::Response { status: 200 }),
        (Stage::ProbingArchive, Command::Wait)
    );
    assert_eq!(advance(Stage::Vendoring, Event::Missing), (Stage::Vendoring, Command::Wait));
}

#[test]
fn a_finished_run_stays_finished() {
    for event in [
        Event::Begin,
        Event::LockAcquired,
        Event::Completed,
        Event::Failed { kind: ErrorKind::Filesystem },
    ] {
        assert_eq!(advance(Stage::Finished, event), (Stage::Finished, Command::Wait));
    }
}
