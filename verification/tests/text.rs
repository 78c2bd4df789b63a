use cleankakao::text::{
    decode_utf16_lossy, encode_wide_null, eq_ignore_ascii_case, exe_name_matches, image_name_is,
    starts_with,
};

fn wide(s: &str) -> Vec<u16> {
    s.encode_utf16().collect()
}

#[test]
fn wide_strings_are_nul_terminated_utf16() {
    assert_eq!(encode_wide_null("Ab"), vec![0x41, 0x62, 0]);
    assert_eq!(encode_wide_null("😀"), vec![0xD83D, 0xDE00, 0]);
    assert_eq!(encode_wide_null(""), vec![0]);
}

#[test]
fn lossy_decoding_replaces_lone_surrogates() {
    assert_eq!(decode_utf16_lossy(&[0x41, 0xD800, 0x42]), vec![0x41, 0xFFFD, 0x42]);
    assert_eq!(decode_utf16_lossy(&[0xD83D, 0xDE00]), vec![0x1F600]);
}

#[test]
fn exe_names_compare_without_ascii_case() {
    let mut buf = wide("kakaotalk.EXE");
    buf.push(0);
    buf.extend_from_slice(&wide("garbage"));
    assert!(exe_name_matches(&buf, "KakaoTalk.exe"));
    assert!(!exe_name_matches(&wide("KakaoTalk.ex"), "KakaoTalk.exe"));
}

#[test]
fn image_path_file_name_is_compared() {
    assert!(image_name_is(&wide("C:\\Program Files\\Kakao\\KakaoTalk.exe"), "kakaotalk.exe"));
    assert!(image_name_is(&wide("C:/x/KAKAOTALK.EXE"), "KakaoTalk.exe"));
    assert!(!image_name_is(&wide("C:\\KakaoTalk.exe\\other.exe"), "KakaoTalk.exe"));
}

#[test]
fn text_helpers() {
    assert!(eq_ignore_ascii_case("OnlineMainView", "onlinemainview"));
    assert!(!eq_ignore_ascii_case("É", "é"));
    assert!(starts_with("OnlineMainView_1", "OnlineMainView"));
    assert!(!starts_with("Online", "OnlineMainView"));
}
