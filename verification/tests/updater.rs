use cleankakao::updater::{
    check_wait_step, compose_notification_body, current_version, escape_xml, is_whitespace,
    latest_release_api_url, release_from_latest, release_info_from, release_note_preview,
    toast_xml, trim_version_prefix, update_notification_body, GitHubRelease,
};

fn release(tag: &str, url: &str, body: Option<&str>, date: Option<&str>) -> GitHubRelease {
    GitHubRelease {
        tag_name: tag.to_string(),
        html_url: url.to_string(),
        body: body.map(|b| b.to_string()),
        published_at: date.map(|d| d.to_string()),
    }
}

#[test]
fn newer_tag_is_announced() {
    let current = current_version("0.3.1");
    let info = release_from_latest(
        release("v0.4.0", "https://example.com/r/0.4.0", Some("notes"), Some("2024-05-01")),
        &current,
    )
    .unwrap();
    assert_eq!(info.version.as_str(), "0.4.0");
    assert_eq!(info.download_url, "https://example.com/r/0.4.0");
    assert_eq!(info.release_notes, "notes");
    assert_eq!(info.published_at, "2024-05-01");
}

#[test]
fn same_or_older_tag_is_not_announced() {
    let current = current_version("0.3.1");
    assert!(release_from_latest(release("v0.3.1", "", None, None), &current).is_none());
    assert!(release_from_latest(release("0.2.9", "", None, None), &current).is_none());
    assert!(release_from_latest(release("V0.3.1-beta", "", None, None), &current).is_none());
}

#[test]
fn unparsable_tag_is_not_announced() {
    let current = current_version("0.3.1");
    assert!(release_from_latest(release("latest", "", None, None), &current).is_none());
    assert!(release_from_latest(release("v1.0", "", None, None), &current).is_none());
}

#[test]
fn missing_page_and_fields_fall_back() {
    let current = current_version("0.1.0");
    let info = release_from_latest(release("vv1.0.0", "", None, None), &current).unwrap();
    assert_eq!(info.version.as_str(), "1.0.0");
    assert_eq!(info.download_url, "https://github.com/ghostface2232/cleankakao/releases");
    assert_eq!(info.release_notes, "");
    assert_eq!(info.published_at, "");
}

#[test]
fn unparsable_build_version_counts_as_zero() {
    assert_eq!(current_version("not a version").as_str(), "0.0.0");
    assert_eq!(current_version("1.2.3").as_str(), "1.2.3");
    let zero = current_version("bogus");
    assert!(release_from_latest(release("0.0.1", "", None, None), &zero).is_some());
}

#[test]
fn release_record_keeps_the_parsed_version() {
    let v = current_version("2.0.0");
    let info = release_info_from(release("x", "u", Some("b"), None), v);
    assert_eq!(info.version.as_str(), "2.0.0");
    assert_eq!(info.download_url, "u");
    assert_eq!(info.release_notes, "b");
}

#[test]
fn version_prefix_is_trimmed() {
    assert_eq!(trim_version_prefix("v1.2.3"), "1.2.3");
    assert_eq!(trim_version_prefix("vV1"), "1");
    assert_eq!(trim_version_prefix("1.0"), "1.0");
    assert_eq!(trim_version_prefix("vvv"), "");
}

#[test]
fn note_preview_takes_first_nonblank_line() {
    assert_eq!(release_note_preview(""), "");
    assert_eq!(release_note_preview("\n  \r\n\t## Fixes  \r\nmore"), "## Fixes");
    assert_eq!(release_note_preview("   \n\u{3000}\n"), "");
    let long = "가".repeat(100);
    assert_eq!(release_note_preview(&long), "가".repeat(90));
    assert_eq!(release_note_preview("one line"), "one line");
}

#[test]
fn whitespace_is_unicode_whitespace() {
    for c in [' ', '\t', '\n', '\r', '\u{85}', '\u{a0}', '\u{2003}', '\u{3000}'] {
        assert!(is_whitespace(c));
        assert_eq!(is_whitespace(c), c.is_whitespace());
    }
    for c in ['a', '가', '\u{200b}', '_'] {
        assert!(!is_whitespace(c));
        assert_eq!(is_whitespace(c), c.is_whitespace());
    }
}

#[test]
fn xml_special_characters_are_escaped() {
    assert_eq!(escape_xml("a&b<c>d\"e'f"), "a&amp;b&lt;c&gt;d&quot;e&apos;f");
    assert_eq!(escape_xml("plain 텍스트"), "plain 텍스트");
}

#[test]
fn toast_document_escapes_every_text() {
    let xml = toast_xml("T&", "B<", "https://x/?a=1&b=2");
    let expected = "<toast activationType=\"protocol\" launch=\"https://x/?a=1&amp;b=2\">\n    <visual>\n        <binding template=\"ToastGeneric\">\n            <text>T&amp;</text>\n            <text>B&lt;</text>\n        </binding>\n    </visual>\n    <actions>\n        <action content=\"GitHub Releases 열기\" arguments=\"https://x/?a=1&amp;b=2\" activationType=\"protocol\"/>\n    </actions>\n</toast>";
    assert_eq!(xml, expected);
}

#[test]
fn notification_text() {
    assert_eq!(
        compose_notification_body("1.2.0", ""),
        "새 버전 1.2.0이 있습니다. 클릭해서 GitHub Releases 페이지를 엽니다."
    );
    assert_eq!(
        compose_notification_body("1.2.0", "Fixes"),
        "새 버전 1.2.0이 있습니다. Fixes\n클릭해서 GitHub Releases 페이지를 엽니다."
    );
    let current = current_version("1.0.0");
    let info = release_from_latest(release("v1.2.0", "", Some("\n Fixes \nmore"), None), &current).unwrap();
    assert_eq!(
        update_notification_body(&info),
        "새 버전 1.2.0이 있습니다. Fixes\n클릭해서 GitHub Releases 페이지를 엽니다."
    );
}

#[test]
fn api_url_and_wait_steps() {
    assert_eq!(
        latest_release_api_url("ghostface2232", "cleankakao"),
        "https://api.github.com/repos/ghostface2232/cleankakao/releases/latest"
    );
    assert_eq!(check_wait_step(86_400_000), (60_000, 86_340_000));
    assert_eq!(check_wait_step(1_500), (1_500, 0));
    assert_eq!(check_wait_step(0), (0, 0));
}
