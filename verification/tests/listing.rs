use spotify_dl_server::downloads::{downloads_list, is_audio_file_extension, listed_files, DirEntryInfo};
use spotify_dl_server::routes::general_not_found;

fn entry(path: &str, ext: Option<&str>, is_dir: bool) -> DirEntryInfo {
    DirEntryInfo { path: path.to_string(), extension: ext.map(|e| e.to_string()), is_dir }
}

#[test]
fn audio_extensions() {
    for ext in ["flac", "ogg", "mp3", "aac"] {
        assert!(is_audio_file_extension(ext));
    }
    for ext in ["wav", "MP3", "txt", "", "mp33", "fla"] {
        assert!(!is_audio_file_extension(ext));
    }
}

#[test]
fn listing_keeps_audio_files_in_order() {
    let entries = vec![
        entry("downloads/b.mp3", Some("mp3"), false),
        entry("downloads/notes.txt", Some("txt"), false),
        entry("downloads/a.flac", Some("flac"), false),
        entry("downloads/old.ogg", Some("ogg"), true),
        entry("downloads/c.aac", Some("aac"), false),
    ];
    assert_eq!(
        listed_files(&entries),
        vec!["downloads/b.mp3", "downloads/a.flac", "downloads/c.aac"]
    );
    assert_eq!(
        downloads_list(Some(entries)),
        "{\n  \"files\": [\n    \"downloads/b.mp3\",\n    \"downloads/a.flac\",\n    \
\"downloads/c.aac\"\n  ]\n}"
    );
}

#[test]
fn entries_without_extension_are_skipped() {
    let entries = vec![
        entry("downloads/albums", None, true),
        entry("downloads/README", None, false),
        entry("downloads/x.ogg", Some("ogg"), false),
    ];
    assert_eq!(listed_files(&entries), vec!["downloads/x.ogg"]);
    assert_eq!(
        downloads_list(Some(entries)),
        "{\n  \"files\": [\n    \"downloads/x.ogg\"\n  ]\n}"
    );
}

#[test]
fn listing_of_empty_directory_is_empty() {
    assert_eq!(downloads_list(Some(Vec::new())), "{\n  \"files\": []\n}");
}

#[test]
fn unreadable_directory_answers_json_error() {
    let body = downloads_list(None);
    assert_eq!(body, "{\"error\": \"Could not read directory\"}");
    let parsed: serde_json::Value = serde_json::from_str(&body).unwrap();
    assert_eq!(parsed["error"], "Could not read directory");
}

#[test]
fn not_found_lists_the_routes() {
    let expected = "[\n  \"/version\",\n  \"/spotify/track/<id>\",\n  \"/spotify/album/<id>\",\n  \
\"/spotify/playlist/<id>\",\n  \"/spotify/artist/<id>\",\n  \"/spotify/user_playlists\",\n  \
\"/spotify/search/<name>\",\n  \"/downloads/list\",\n  \"/downloads/queue\",\n  \
\"/downloads/add/<id>\",\n  \"/login/url\",\n  \"/login/confirm/<code>\"\n]";
    assert_eq!(general_not_found(), expected);
}
