use era_connect::arguments::{
    classpath, game_flags, get_plain_arguments, get_rules, jvm_flags, jvm_options, FlagsError,
};
use era_connect::assets::{
    asset_directory, extract_assets, parallel_assets, AssetDownloads, AssetError, DirectoryError,
};
use era_connect::files::{DownloadRequest, FoundFile};
use era_connect::json::Json;
use era_connect::library::{Library, LibraryArtifact, LibraryMetadata};
use era_connect::progress::{Progress, Report};
use era_connect::release::find_release_url;
use era_connect::rules::{ActionType, Rule};
use era_connect::tasks::{parallel_join, JoinStep, MAX_CONCURRENT_TASKS};
use era_connect::text::{join, same_text};

fn text(s: &str) -> Json {
    Json::Text(s.to_string())
}

fn object(members: Vec<(&str, Json)>) -> Json {
    Json::Object(members.into_iter().map(|(key, value)| (key.to_string(), value)).collect())
}

#[test]
fn indexing_a_document() {
    let document = object(vec![("a", Json::Array(vec![Json::Null, text("x")])), ("n", Json::Number(Some(7)))]);
    assert_eq!(document.get("a").at(1).as_str(), Some("x"));
    assert!(matches!(document.get("a").at(2), Json::Null));
    assert!(matches!(document.get("b"), Json::Null));
    assert!(matches!(document.at(0), Json::Null));
    assert!(matches!(document.get("n").get("n"), Json::Null));
    assert_eq!(document.get("n").as_u64(), Some(7));
    assert_eq!(Json::Number(None).as_u64(), None);
    assert_eq!(text("7").as_u64(), None);
    assert!(document.is_object());
    assert!(!document.get("a").is_object());
    assert_eq!(document.get("a").as_array().unwrap().len(), 2);
    assert!(document.as_array().is_none());
    assert_eq!(document.as_object().unwrap()[1].0, "n");
    assert!(Json::Bool(true).as_object().is_none());
    assert_eq!(Json::Bool(true).as_str(), None);
}

fn version(id: Json, url: Json) -> Json {
    object(vec![("id", id), ("url", url)])
}

fn manifest(latest: Json, versions: Vec<Json>) -> Json {
    object(vec![
        ("latest", object(vec![("release", latest), ("snapshot", text("s"))])),
        ("versions", Json::Array(versions)),
    ])
}

#[test]
fn latest_release_is_found() {
    let list = manifest(
        text("1.20"),
        vec![
            version(text("1.21"), text("u0")),
            version(text("1.20"), text("u1")),
            version(text("1.20"), text("u2")),
        ],
    );
    assert_eq!(find_release_url(&list), Some("u1".to_string()));
}

#[test]
fn lists_without_the_latest_release() {
    assert_eq!(find_release_url(&Json::Null), None);
    assert_eq!(find_release_url(&manifest(text("1.20"), Vec::new())), None);
    let other = vec![version(text("1.19"), text("u"))];
    assert_eq!(find_release_url(&manifest(text("1.20"), other)), None);
    let without_url = vec![version(text("1.20"), Json::Null), version(text("1.20"), text("u"))];
    assert_eq!(find_release_url(&manifest(text("1.20"), without_url)), None);
}

#[test]
fn missing_identifiers_match_each_other() {
    let versions = vec![version(text("1"), text("u")), version(Json::Null, text("v"))];
    assert_eq!(find_release_url(&manifest(Json::Null, versions)), Some("v".to_string()));
}

fn asset(hash: Json, size: Json) -> Json {
    object(vec![("hash", hash), ("size", size)])
}

fn index(objects: Vec<(&str, Json)>) -> Json {
    object(vec![("objects", object(objects))])
}

#[test]
fn assets_are_listed_in_order() {
    let downloads = extract_assets(&index(vec![
        ("icons/a.png", asset(text("bdf48ef6b5d0d23bbb02e17d04865216179f510a"), Json::Number(Some(3665)))),
        ("lang/b.json", asset(text("x"), Json::Number(Some(0)))),
    ]))
    .unwrap();
    assert_eq!(
        downloads.list,
        vec![
            "https://resources.download.minecraft.net/bd/bdf48ef6b5d0d23bbb02e17d04865216179f510a",
            "https://resources.download.minecraft.net/x/x",
        ]
    );
    assert_eq!(downloads.hash, vec!["bdf48ef6b5d0d23bbb02e17d04865216179f510a", "x"]);
    assert_eq!(
        downloads.path,
        vec![
            ".minecraft/assets/objects/bd/bdf48ef6b5d0d23bbb02e17d04865216179f510a",
            ".minecraft/assets/objects/x/x",
        ]
    );
    assert_eq!(downloads.size, vec![3665, 0]);
}

#[test]
fn asset_places_are_cut_by_characters() {
    let downloads =
        extract_assets(&index(vec![("k", asset(text("\u{e9}\u{e8}z"), Json::Number(Some(1))))])).unwrap();
    assert_eq!(downloads.path, vec![".minecraft/assets/objects/\u{e9}\u{e8}/\u{e9}\u{e8}z"]);
}

#[test]
fn bad_indexes_are_refused() {
    let good = || asset(text("h"), Json::Number(Some(1)));
    let no_hash = || asset(Json::Null, Json::Null);
    let no_size = || asset(text("h"), Json::Number(None));
    assert_eq!(extract_assets(&Json::Null).unwrap_err(), AssetError::NoObjects);
    let array = object(vec![("objects", Json::Array(Vec::new()))]);
    assert_eq!(extract_assets(&array).unwrap_err(), AssetError::NoObjects);
    let result = extract_assets(&index(vec![("a", good()), ("b", no_hash()), ("c", no_size())]));
    assert_eq!(result.unwrap_err(), AssetError::HashNotText);
    let result = extract_assets(&index(vec![("a", good()), ("b", no_size()), ("c", no_hash())]));
    assert_eq!(result.unwrap_err(), AssetError::SizeNotNumber);
    assert!(extract_assets(&index(Vec::new())).unwrap().list.is_empty());
}

#[test]
fn asset_errors_have_messages() {
    assert_eq!(AssetError::NoObjects.message(), "Failure to parse asset_index_content[\"objects\"]");
    assert_eq!(AssetError::HashNotText.message(), "asset hash is not a string");
    assert_eq!(AssetError::SizeNotNumber.message(), "asset size is not u64");
    assert_eq!(
        AssetError::SizeTooLarge.message(),
        "out of range integral type conversion attempted"
    );
}

fn two_assets() -> AssetDownloads {
    extract_assets(&index(vec![
        ("a", asset(text("a9993e364706816aba3e25717850c26c9cd0d89d"), Json::Number(Some(3)))),
        ("b", asset(text("da39a3ee5e6b4b0d3255bfef95601890afd80709"), Json::Number(Some(40)))),
    ]))
    .unwrap()
}

#[test]
fn assets_are_looked_at_in_order() {
    let mut progress = Progress::new();
    let mut queue = parallel_assets(two_assets());
    assert_eq!(
        queue.next_path(),
        Some(".minecraft/assets/objects/a9/a9993e364706816aba3e25717850c26c9cd0d89d")
    );
    let step = queue.advance(FoundFile::Contents(b"abc".to_vec()), &mut progress).unwrap();
    assert!(step.request.is_none() && step.damage.is_none());
    assert_eq!(progress.total, 0);
    let path = queue.next_path().unwrap().to_string();
    let step = queue.advance(FoundFile::Missing, &mut progress).unwrap();
    assert_eq!(
        step.request,
        Some(DownloadRequest {
            url: "https://resources.download.minecraft.net/da/da39a3ee5e6b4b0d3255bfef95601890afd80709".to_string(),
            path,
        })
    );
    assert_eq!(progress.total, 40);
    assert_eq!(queue.next_path(), None);
    assert!(queue.advance(FoundFile::Missing, &mut progress).is_none());
    assert_eq!(progress.total, 40);
}

#[test]
fn damaged_asset_is_replaced() {
    let mut progress = Progress::new();
    let mut queue = parallel_assets(two_assets());
    let step = queue.advance(FoundFile::Contents(b"abd".to_vec()), &mut progress).unwrap();
    assert!(step.request.is_some() && step.damage.is_some());
    assert_eq!(progress.total, 3);
}

#[test]
fn place_without_a_directory_is_refused() {
    assert_eq!(asset_directory(Some(".minecraft/x")), Ok(".minecraft/x".to_string()));
    assert_eq!(asset_directory(None), Err(DirectoryError::NoParent));
    assert_eq!(
        asset_directory(None).unwrap_err().message(),
        "can't find asset_download's parent dir"
    );
}

#[test]
fn addresses_alone_bound_the_work() {
    let mut progress = Progress { current: 2, total: 3 };
    let mut queue = parallel_assets(AssetDownloads {
        list: Vec::new(),
        hash: vec!["zz".to_string()],
        path: vec!["/".to_string()],
        size: vec![4],
    });
    assert_eq!(queue.next_path(), None);
    assert!(queue.advance(FoundFile::Missing, &mut progress).is_none());
    assert_eq!(progress, Progress { current: 2, total: 3 });
}

#[test]
fn surplus_entries_belong_to_no_asset() {
    let mut downloads = two_assets();
    downloads.list.truncate(1);
    let mut progress = Progress::new();
    let mut queue = parallel_assets(downloads);
    assert!(queue.advance(FoundFile::Missing, &mut progress).is_some());
    assert_eq!(queue.next_path(), None);
    assert!(queue.advance(FoundFile::Missing, &mut progress).is_none());
    assert_eq!(progress.total, 3);
}

fn rule(action: ActionType) -> Rule {
    Rule { action, features: None, os: None, value: None }
}

fn guarded() -> Json {
    object(vec![("rules", Json::Array(vec![object(Vec::new())])), ("value", text("--demo"))])
}

#[test]
fn rules_of_the_guarded_arguments() {
    let argument = vec![
        text("--username"),
        guarded(),
        object(vec![("rules", Json::Array(vec![text("no object")]))]),
        guarded(),
    ];
    let parsed = vec![
        Err("not looked at".to_string()),
        Ok(rule(ActionType::Allow)),
        Err("not looked at".to_string()),
        Ok(rule(ActionType::Disallow)),
    ];
    let rules = get_rules(&argument, parsed).unwrap();
    assert_eq!(rules, vec![rule(ActionType::Allow), rule(ActionType::Disallow)]);
    assert_eq!(get_plain_arguments(&argument), vec!["--username"]);
}

#[test]
fn first_unreadable_rule_is_reported() {
    let argument = vec![guarded(), guarded(), guarded()];
    let parsed = vec![
        Ok(rule(ActionType::Allow)),
        Err("missing field `action`".to_string()),
        Err("later".to_string()),
    ];
    match get_rules(&argument, parsed) {
        Err(FlagsError::Rules(message)) => assert_eq!(message, "missing field `action`"),
        other => panic!("{:?}", other),
    }
}

fn contents() -> Json {
    object(vec![(
        "arguments",
        object(vec![
            ("game", Json::Array(vec![text("--a"), guarded(), text("--b")])),
            ("jvm", Json::Array(vec![guarded(), text("-cp")])),
        ]),
    )])
}

#[test]
fn flags_of_a_release() {
    let unread = || Err("unread".to_string());
    let game = game_flags(&contents(), vec![unread(), Ok(rule(ActionType::Allow)), unread()]).unwrap();
    assert_eq!(game.arguments, vec!["--a", "--b"]);
    assert_eq!(game.rules, vec![rule(ActionType::Allow)]);
    assert_eq!(game.additional_arguments, None);
    let jvm = jvm_flags(&contents(), vec![Ok(rule(ActionType::Disallow)), unread()]).unwrap();
    assert_eq!(jvm.arguments, vec!["-cp"]);
    assert_eq!(jvm.rules, vec![rule(ActionType::Disallow)]);
    assert_eq!(jvm.additional_arguments, None);
}

#[test]
fn flags_that_cannot_be_used() {
    let error = game_flags(&Json::Null, Vec::new()).unwrap_err();
    assert_eq!(error.message(), "Failure to parse contents[\"arguments\"][\"game\"]");
    let error = jvm_flags(&Json::Null, Vec::new()).unwrap_err();
    assert_eq!(error.message(), "Failure to parse contents[\"arguments\"][\"jvm\"]");
    let error = jvm_flags(&contents(), vec![Err("x".to_string()), Err("y".to_string())]).unwrap_err();
    assert_eq!(error.message(), "Failed to collect/serialize rules");
}

fn library(path: &str) -> Library {
    Library {
        downloads: LibraryArtifact {
            artifact: LibraryMetadata {
                path: path.to_string(),
                sha1: String::new(),
                size: 0,
                url: String::new(),
            },
        },
        name: String::new(),
        rules: None,
    }
}

#[test]
fn classpath_ends_with_the_client() {
    assert_eq!(classpath(&Vec::new(), "client.jar"), "client.jar");
    let libraries = vec![library("a/a.jar"), library("b.jar")];
    assert_eq!(classpath(&libraries, "client.jar"), "a/a.jar:b.jar:client.jar");
}

#[test]
fn options_of_the_virtual_machine() {
    let options = jvm_options(&vec![library("a.jar")], "client.jar");
    assert_eq!(options.launcher_name, "era-connect");
    assert_eq!(options.launcher_version, "0.0.1");
    assert_eq!(options.classpath, "a.jar:client.jar");
    assert_eq!(options.classpath_separator, ":");
    assert_eq!(options.primary_jar, "client.jar");
    assert_eq!(options.library_directory, "./");
    assert_eq!(options.game_directory, "~/.minecraft");
}

#[test]
fn joining_text() {
    assert_eq!(join(&Vec::new(), ":"), "");
    assert_eq!(join(&vec!["a".to_string()], ":"), "a");
    assert_eq!(join(&vec!["a".to_string(), String::new(), "b".to_string()], ", "), "a, , b");
    assert!(same_text("ab", "ab"));
    assert!(!same_text("ab", "aB"));
}

#[test]
fn counters_wrap_around() {
    let mut progress = Progress { current: usize::MAX, total: usize::MAX - 1 };
    progress.record_chunk(3);
    progress.start_download(5);
    assert_eq!(progress, Progress { current: 2, total: 3 });
}

#[test]
fn counters_show_the_sum_in_any_order() {
    let mut forwards = Progress::new();
    let mut backwards = Progress::new();
    let pieces = [5usize, usize::MAX, 17, 0];
    for piece in pieces {
        forwards.record_chunk(piece);
    }
    for piece in pieces.into_iter().rev() {
        backwards.record_chunk(piece);
    }
    assert_eq!(forwards, Progress { current: 21, total: 0 });
    assert_eq!(forwards, backwards);
}

#[test]
fn counts_kept_apart_are_added() {
    let mut progress = Progress { current: usize::MAX, total: 10 };
    progress.merge(&Progress { current: 2, total: 5 });
    assert_eq!(progress, Progress { current: 1, total: 15 });
    progress.merge(&Progress::new());
    assert_eq!(progress, Progress { current: 1, total: 15 });
}

#[test]
fn progress_is_reported() {
    assert_eq!(Progress { current: 9, total: 0 }.report(), Report::Complete);
    assert_eq!(
        Progress { current: 1, total: 4 }.report(),
        Report::Running { current: 1, total: 4 }
    );
}

#[test]
fn repeated_waiting_reports_each_failure_once() {
    let outcomes: Vec<Result<Result<(), String>, String>> = vec![
        Ok(Ok(())),
        Ok(Err("a".to_string())),
        Ok(Ok(())),
        Err("b".to_string()),
        Ok(Ok(())),
    ];
    let mut left = outcomes.into_iter();
    let mut reported = Vec::new();
    loop {
        match parallel_join(left.next()) {
            JoinStep::Wait => {}
            JoinStep::Finish(Err(error)) => reported.push(error),
            JoinStep::Finish(Ok(())) => break,
        }
    }
    assert_eq!(reported, vec!["a", "b"]);
}

#[test]
fn waiting_ends_with_the_first_failure() {
    let fine: Option<Result<Result<(), String>, String>> = Some(Ok(Ok(())));
    assert!(matches!(parallel_join(fine), JoinStep::Wait));
    assert!(matches!(parallel_join::<String>(None), JoinStep::Finish(Ok(()))));
    match parallel_join(Some(Ok(Err("failed".to_string())))) {
        JoinStep::Finish(Err(error)) => assert_eq!(error, "failed"),
        other => panic!("{:?}", other),
    }
    match parallel_join(Some(Err("panicked".to_string()))) {
        JoinStep::Finish(Err(error)) => assert_eq!(error, "panicked"),
        other => panic!("{:?}", other),
    }
    assert_eq!(MAX_CONCURRENT_TASKS, 64);
}
