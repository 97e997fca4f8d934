use lexivo::app::LexivoApp;
use lexivo::types::{Screen, UpdateStatus};
use lexivo::updates::{equals_ignoring_ascii_case, release_status, version_from_tag, ReleaseAsset};

fn asset(name: Option<&str>, url: Option<&str>) -> ReleaseAsset {
    ReleaseAsset {
        name: name.map(str::to_owned),
        browser_download_url: url.map(str::to_owned),
    }
}

#[test]
fn same_version_is_up_to_date() {
    let status = release_status(Some("v1.0.0".to_owned()), Some("https://page".to_owned()), &Vec::new());
    assert_eq!(status, UpdateStatus::UpToDate);
}

#[test]
fn missing_tag_is_up_to_date() {
    assert_eq!(release_status(None, None, &Vec::new()), UpdateStatus::UpToDate);
    assert_eq!(release_status(Some("vvv".to_owned()), None, &Vec::new()), UpdateStatus::UpToDate);
}

#[test]
fn newer_release_links_its_apk() {
    let assets = vec![
        asset(Some("notes.txt"), Some("https://dl/notes.txt")),
        asset(Some("Lexivo-1.1.0.APK"), Some("https://dl/lexivo.apk")),
        asset(Some("other.apk"), Some("https://dl/other.apk")),
    ];
    let status = release_status(Some("v1.1.0".to_owned()), Some("https://page".to_owned()), &assets);
    assert_eq!(
        status,
        UpdateStatus::Available {
            version: "1.1.0".to_owned(),
            url: "https://dl/lexivo.apk".to_owned(),
        }
    );
}

#[test]
fn newer_release_without_apk_links_its_page() {
    let assets = vec![
        asset(Some("app.apk"), None),
        asset(Some("apk"), Some("https://dl/apk")),
        asset(Some(".apk"), Some("https://dl/hidden")),
        asset(None, Some("https://dl/unnamed")),
    ];
    let status = release_status(Some("2.0".to_owned()), Some("https://page".to_owned()), &assets);
    assert_eq!(
        status,
        UpdateStatus::Available {
            version: "2.0".to_owned(),
            url: "https://page".to_owned(),
        }
    );
    let no_page = release_status(Some("2.0".to_owned()), None, &Vec::new());
    assert_eq!(
        no_page,
        UpdateStatus::Available {
            version: "2.0".to_owned(),
            url: String::new(),
        }
    );
}

#[test]
fn tags_lose_all_leading_v() {
    assert_eq!(version_from_tag(&Some("vv2.1".to_owned())), "2.1");
    assert_eq!(version_from_tag(&Some("1.2v".to_owned())), "1.2v");
    assert_eq!(version_from_tag(&None), "");
}

#[test]
fn ascii_case_is_ignored_only_for_ascii() {
    assert!(equals_ignoring_ascii_case("ApK", "aPk"));
    assert!(!equals_ignoring_ascii_case("apk", "apks"));
    assert!(!equals_ignoring_ascii_case("É", "é"));
}

#[test]
fn available_update_is_announced_on_the_start_screen() {
    let available = UpdateStatus::Available {
        version: "1.2.0".to_owned(),
        url: "https://dl".to_owned(),
    };
    let mut app = LexivoApp::default();
    app.announce_update(&available);
    assert_eq!(app.message, "Update available: v1.2.0");

    let mut playing = LexivoApp {
        screen: Screen::Game,
        ..LexivoApp::default()
    };
    playing.announce_update(&available);
    assert_eq!(playing.message, "");

    let mut quiet = LexivoApp::default();
    quiet.announce_update(&UpdateStatus::UpToDate);
    assert_eq!(quiet.message, "");
}
