use std::collections::HashMap;

use era_connect::files::{DownloadRequest, FoundFile};
use era_connect::library::{
    download_library, parallel_library, Library, LibraryAction, LibraryArtifact, LibraryMetadata,
};
use era_connect::progress::Progress;
use era_connect::rules::{is_required, supported_os, ActionType, DetectedOs, Os, OsName, Rule};

fn rule(action: ActionType, name: Option<OsName>) -> Rule {
    Rule {
        action,
        features: None,
        os: Some(Os { name, version: None, arch: None }),
        value: None,
    }
}

fn general(action: ActionType) -> Rule {
    Rule { action, features: Some(HashMap::new()), os: None, value: None }
}

#[test]
fn without_rules_a_library_is_required_everywhere() {
    for os in [OsName::Osx, OsName::Windows, OsName::Linux] {
        assert!(is_required(&None, os));
    }
}

#[test]
fn empty_rules_require_nothing() {
    assert!(!is_required(&Some(Vec::new()), OsName::Linux));
}

#[test]
fn last_matching_rule_decides() {
    let rules = Some(vec![
        rule(ActionType::Allow, Some(OsName::Linux)),
        rule(ActionType::Disallow, Some(OsName::Osx)),
        rule(ActionType::Disallow, Some(OsName::Linux)),
        rule(ActionType::Allow, Some(OsName::Osx)),
        rule(ActionType::Disallow, Some(OsName::Windows)),
    ]);
    assert!(!is_required(&rules, OsName::Linux));
    assert!(is_required(&rules, OsName::Osx));
    assert!(!is_required(&rules, OsName::Windows));
}

#[test]
fn rules_that_name_no_system_do_not_count() {
    let rules = Some(vec![general(ActionType::Allow), rule(ActionType::Allow, None)]);
    assert!(!is_required(&rules, OsName::Linux));
    let rules = Some(vec![
        rule(ActionType::Allow, Some(OsName::Linux)),
        general(ActionType::Disallow),
        rule(ActionType::Disallow, None),
    ]);
    assert!(is_required(&rules, OsName::Linux));
}

#[test]
fn systems_have_names() {
    assert_eq!(OsName::Osx.to_string(), "Osx");
    assert_eq!(OsName::Windows.to_string(), "Windows");
    assert_eq!(OsName::Linux.to_string(), "Linux");
}

#[test]
fn detected_systems_map_to_names() {
    assert_eq!(supported_os(DetectedOs::Linux), Some(OsName::Linux));
    assert_eq!(supported_os(DetectedOs::MacOs), Some(OsName::Osx));
    assert_eq!(supported_os(DetectedOs::Windows), Some(OsName::Windows));
    assert_eq!(supported_os(DetectedOs::Other), None);
}

fn library(name: &str, size: usize, rules: Option<Vec<Rule>>) -> Library {
    Library {
        downloads: LibraryArtifact {
            artifact: LibraryMetadata {
                path: format!("org/{}.jar", name),
                sha1: "a9993e364706816aba3e25717850c26c9cd0d89d".to_string(),
                size,
                url: format!("https://libraries.minecraft.net/org/{}.jar", name),
            },
        },
        name: name.to_string(),
        rules,
    }
}

fn intact() -> FoundFile {
    FoundFile::Contents(b"abc".to_vec())
}

#[test]
fn request_of_a_library() {
    assert_eq!(
        download_library(&library("lwjgl", 1, None), "library/org/lwjgl.jar"),
        DownloadRequest {
            url: "https://libraries.minecraft.net/org/lwjgl.jar".to_string(),
            path: "library/org/lwjgl.jar".to_string(),
        }
    );
}

#[test]
fn each_library_is_claimed_once() {
    let list = vec![library("a", 1, None), library("b", 2, None), library("c", 3, None)];
    let (pool, mut claims) = parallel_library(list, OsName::Linux);
    assert_eq!(pool.len(), 3);
    assert_eq!(claims.claim(), Some(0));
    assert_eq!(claims.claim(), Some(1));
    assert_eq!(claims.claim(), Some(2));
    assert_eq!(claims.claim(), None);
    assert_eq!(claims.claim(), None);
    assert_eq!(pool.path(1), "org/b.jar");
}

#[test]
fn empty_pool_has_nothing_to_claim() {
    let (pool, mut claims) = parallel_library(Vec::new(), OsName::Osx);
    assert_eq!(pool.len(), 0);
    assert_eq!(claims.claim(), None);
}

#[test]
fn missing_library_is_fetched() {
    let (pool, _) = parallel_library(vec![library("a", 30, None)], OsName::Linux);
    let mut progress = Progress { current: 1, total: 12 };
    let step = pool.settle(0, FoundFile::Missing, "library/org/a.jar", &mut progress);
    assert!(step.damage.is_none());
    match step.action {
        LibraryAction::Download(request) => {
            assert_eq!(request.url, "https://libraries.minecraft.net/org/a.jar");
            assert_eq!(request.path, "library/org/a.jar");
        }
        other => panic!("{:?}", other),
    }
    assert_eq!(progress, Progress { current: 1, total: 42 });
}

#[test]
fn intact_library_is_left_alone() {
    let (pool, _) = parallel_library(vec![library("a", 30, None)], OsName::Linux);
    let mut progress = Progress::new();
    let step = pool.settle(0, intact(), "library/org/a.jar", &mut progress);
    assert!(matches!(step.action, LibraryAction::UpToDate));
    assert!(step.damage.is_none());
    assert_eq!(progress.total, 0);
}

#[test]
fn damaged_library_is_replaced() {
    let (pool, _) = parallel_library(vec![library("a", 30, None)], OsName::Linux);
    let mut progress = Progress::new();
    let found = FoundFile::Contents(Vec::new());
    let step = pool.settle(0, found, "library/org/a.jar", &mut progress);
    assert!(matches!(step.action, LibraryAction::Download(_)));
    assert_eq!(
        step.damage.unwrap().message(),
        "\nlibrary/org/a.jar hash don't fit!\nget: da39a3ee5e6b4b0d3255bfef95601890afd80709\nexpected: a9993e364706816aba3e25717850c26c9cd0d89d\n"
    );
    assert_eq!(progress.total, 30);
}

#[test]
fn unrequired_library_is_not_fetched() {
    let rules = Some(vec![rule(ActionType::Allow, Some(OsName::Osx))]);
    let (pool, _) = parallel_library(vec![library("a", 30, rules)], OsName::Windows);
    let mut progress = Progress::new();
    let found = FoundFile::Unreadable("no".to_string());
    let step = pool.settle(0, found, "library/org/a.jar", &mut progress);
    match step.action {
        LibraryAction::NotRequired { notice } => {
            assert_eq!(notice, "a is not required on Windows")
        }
        other => panic!("{:?}", other),
    }
    // What is wrong with the file is reported all the same.
    assert_eq!(step.damage.unwrap().message(), "no");
    assert_eq!(progress.total, 0);
}

#[test]
fn total_of_a_pool_does_not_depend_on_the_order() {
    let list = || vec![library("a", 1, None), library("b", 20, None), library("c", 300, None)];
    let (pool, _) = parallel_library(list(), OsName::Linux);
    let found = |i: usize| if i == 1 { intact() } else { FoundFile::Missing };
    for order in [[0, 1, 2], [2, 1, 0], [1, 2, 0]] {
        let mut progress = Progress::new();
        for i in order {
            pool.settle(i, found(i), "p", &mut progress);
        }
        assert_eq!(progress.total, 301);
    }
}

#[test]
fn up_to_date_libraries_leave_the_total_alone() {
    let rules = Some(vec![rule(ActionType::Disallow, Some(OsName::Linux))]);
    let list = vec![library("a", 1, None), library("b", 20, rules)];
    let (pool, _) = parallel_library(list, OsName::Linux);
    let mut progress = Progress::new();
    pool.settle(0, intact(), "p", &mut progress);
    pool.settle(1, FoundFile::Missing, "p", &mut progress);
    assert_eq!(progress, Progress::new());
}
