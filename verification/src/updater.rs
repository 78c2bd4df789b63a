//! Update checking against the project's GitHub releases: which release is
//! newer than the running build, what the update notification says, and the
//! toast document that shows it. Fetching the release and showing the toast
//! are done by the caller.
use vstd::prelude::*;
use vstd::string::StringExecFns;
use crate::text::{chars_of, push_char};

verus! {

/// A semantic version as the `semver` crate parses it.
#[verifier::external_type_specification]
#[verifier::external_body]
pub struct ExVersion(semver::Version);

/// `semver::Version::parse` accepts `text`.
pub uninterp spec fn semver_parses(text: Seq<char>) -> bool;

/// `semver`'s ordering: the version parsed from `a` is at most the one
/// parsed from `b`.
pub uninterp spec fn semver_le(a: Seq<char>, b: Seq<char>) -> bool;

/// `semver`'s display form of the version parsed from `text`.
pub uninterp spec fn semver_display(text: Seq<char>) -> Seq<char>;

/// A parsed release version together with the text it was parsed from.
pub struct ReleaseVersion {
    text: String,
    parsed: semver::Version,
}

impl View for ReleaseVersion {
    type V = Seq<char>;

    /// The text the version was parsed from.
    closed spec fn view(&self) -> Seq<char> {
        self.text@
    }
}

impl ReleaseVersion {
    /// The text the version was parsed from.
    pub fn as_str(&self) -> (s: &str)
        ensures
            s@ == self@,
    {
        self.text.as_str()
    }
}

/// Parses `text` with `semver::Version::parse`. The result is `Some` exactly
/// when the crate accepts the text, and then remembers the text.
#[verifier::external_body]
fn parse_version(text: &str) -> (r: Option<ReleaseVersion>)
    ensures
        r is Some <==> semver_parses(text@),
        r matches Some(v) ==> v@ == text@,
{
    match semver::Version::parse(text) {
        Ok(parsed) => Some(ReleaseVersion { text: text.to_string(), parsed }),
        Err(_) => None,
    }
}

/// `semver::Version::new(0, 0, 0)`, which is what `semver` parses from
/// "0.0.0"; it is recorded with that text.
#[verifier::external_body]
fn zero_version() -> (r: ReleaseVersion)
    ensures
        r@ == "0.0.0"@,
{
    ReleaseVersion { text: "0.0.0".to_string(), parsed: semver::Version::new(0, 0, 0) }
}

/// `<=` on the two parsed versions (`semver::Version`'s `PartialOrd`). The
/// claim is that the result is `semver`'s order on the versions parsed from
/// the two texts; a `ReleaseVersion` is only ever built by parsing its text,
/// or as 0.0.0 with that text.
#[verifier::external_body]
fn version_le(a: &ReleaseVersion, b: &ReleaseVersion) -> (r: bool)
    ensures
        r == semver_le(a@, b@),
{
    a.parsed <= b.parsed
}

/// `semver::Version`'s `Display` form of a parsed version, claimed to depend
/// on the text it was parsed from alone.
#[verifier::external_body]
fn version_display(v: &ReleaseVersion) -> (r: String)
    ensures
        r@ == semver_display(v@),
{
    format!("{}", v.parsed)
}

/// The latest release as GitHub's release API reports it.
pub struct GitHubRelease {
    pub tag_name: String,
    pub html_url: String,
    pub body: Option<String>,
    pub published_at: Option<String>,
}

/// A release newer than the running build.
pub struct ReleaseInfo {
    pub version: ReleaseVersion,
    pub download_url: String,
    pub release_notes: String,
    pub published_at: String,
}

/// The releases page, used when a release carries no page address.
pub open spec fn releases_url_spec() -> Seq<char> {
    "https://github.com/ghostface2232/cleankakao/releases"@
}

/// `s` without its leading `v` and `V` characters.
pub open spec fn strip_version_prefix(s: Seq<char>) -> Seq<char>
    decreases s.len(),
{
    if s.len() > 0 && (s[0] == 'v' || s[0] == 'V') {
        strip_version_prefix(s.drop_first())
    } else {
        s
    }
}

pub open spec fn text_or_empty(s: Option<String>) -> Seq<char> {
    match s {
        Some(t) => t@,
        None => Seq::empty(),
    }
}

/// The release record for `latest` at version `v`: the release page (or the
/// releases page when the release has none), its notes and its date, an
/// absent note or date being empty.
pub open spec fn release_info_matches(info: ReleaseInfo, latest: GitHubRelease, v: Seq<char>) -> bool {
    &&& info.version@ == v
    &&& info.download_url@ == (if latest.html_url@.len() == 0 {
        releases_url_spec()
    } else {
        latest.html_url@
    })
    &&& info.release_notes@ == text_or_empty(latest.body)
    &&& info.published_at@ == text_or_empty(latest.published_at)
}

/// The version text of a release tag: the tag without leading `v`/`V`.
pub fn trim_version_prefix(tag: &str) -> (r: &str)
    ensures
        r@ == strip_version_prefix(tag@),
{
    let cs = chars_of(tag);
    let n = cs.len();
    let mut k: usize = 0;
    assert(tag@.subrange(0, n as int) =~= tag@);
    while k < n && (cs[k] == 'v' || cs[k] == 'V')
        invariant
            cs@ == tag@,
            n == cs@.len(),
            k <= n,
            strip_version_prefix(tag@) == strip_version_prefix(tag@.subrange(k as int, n as int)),
        decreases n - k,
    {
        assert(tag@.subrange(k as int, n as int).drop_first() =~= tag@.subrange(
            k + 1,
            n as int,
        ));
        k = k + 1;
    }
    let r = tag.substring_char(k, n);
    r
}

/// The record of a release whose version was parsed as `version`.
pub fn release_info_from(latest: GitHubRelease, version: ReleaseVersion) -> (info: ReleaseInfo)
    ensures
        release_info_matches(info, latest, version@),
        info.version == version,
{
    let v = version;
    let download_url = if latest.html_url.as_str().is_empty() {
        String::from_str("https://github.com/ghostface2232/cleankakao/releases")
    } else {
        latest.html_url
    };
    let release_notes = match latest.body {
        Some(b) => b,
        None => String::new(),
    };
    let published_at = match latest.published_at {
        Some(p) => p,
        None => String::new(),
    };
    ReleaseInfo { version: v, download_url, release_notes, published_at }
}

/// The release to announce, if `latest` is newer than `current`: its tag,
/// without leading `v`/`V`, must parse as a version that is not at most
/// the current one.
pub fn release_from_latest(latest: GitHubRelease, current: &ReleaseVersion) -> (r: Option<
    ReleaseInfo,
>)
    ensures
        ({
            let v = strip_version_prefix(latest.tag_name@);
            &&& r is Some <==> (semver_parses(v) && !semver_le(v, current@))
            &&& r matches Some(info) ==> release_info_matches(info, latest, v)
        }),
{
    let parsed = {
        let tag = trim_version_prefix(latest.tag_name.as_str());
        parse_version(tag)
    };
    match parsed {
        None => None,
        Some(version) => {
            if version_le(&version, current) {
                None
            } else {
                Some(release_info_from(latest, version))
            }
        },
    }
}

/// The running build's version: `pkg_version` when it parses, else 0.0.0.
pub fn current_version(pkg_version: &str) -> (r: ReleaseVersion)
    ensures
        semver_parses(pkg_version@) ==> r@ == pkg_version@,
        !semver_parses(pkg_version@) ==> r@ == "0.0.0"@,
{
    match parse_version(pkg_version) {
        Some(v) => v,
        None => zero_version(),
    }
}

/// The address of the latest-release endpoint of GitHub's API for a
/// repository.
pub fn latest_release_api_url(owner: &str, name: &str) -> (r: String)
    ensures
        r@ == "https://api.github.com/repos/"@ + owner@ + "/"@ + name@ + "/releases/latest"@,
{
    let mut s = String::from_str("https://api.github.com/repos/");
    s.append(owner);
    s.append("/");
    s.append(name);
    s.append("/releases/latest");
    s
}

/// The `White_Space` characters of Unicode, which `char::is_whitespace`
/// recognises.
pub open spec fn is_unicode_whitespace(c: char) -> bool {
    let u = c as u32;
    ||| 0x09 <= u <= 0x0D
    ||| u == 0x20
    ||| u == 0x85
    ||| u == 0xA0
    ||| u == 0x1680
    ||| 0x2000 <= u <= 0x200A
    ||| u == 0x2028
    ||| u == 0x2029
    ||| u == 0x202F
    ||| u == 0x205F
    ||| u == 0x3000
}

/// Whether `c` is a Unicode whitespace character.
pub fn is_whitespace(c: char) -> (r: bool)
    ensures
        r == is_unicode_whitespace(c),
{
    let u = c as u32;
    (0x09 <= u && u <= 0x0D) || u == 0x20 || u == 0x85 || u == 0xA0 || u == 0x1680 || (0x2000 <= u
        && u <= 0x200A) || u == 0x2028 || u == 0x2029 || u == 0x202F || u == 0x205F || u == 0x3000
}

/// Where the line starting at `i` ends: the next line feed, or the end.
pub open spec fn line_end(s: Seq<char>, i: int) -> int
    decreases s.len() - i,
{
    if i >= s.len() {
        s.len() as int
    } else if s[i] == '\n' {
        i
    } else {
        line_end(s, i + 1)
    }
}

/// The first position from `k` on, before `e`, that is not whitespace.
pub open spec fn skip_ws_forward(s: Seq<char>, k: int, e: int) -> int
    decreases e - k,
{
    if k < e && is_unicode_whitespace(s[k]) {
        skip_ws_forward(s, k + 1, e)
    } else {
        k
    }
}

/// The end of `s[lo..k]` once trailing whitespace is dropped.
pub open spec fn skip_ws_backward(s: Seq<char>, lo: int, k: int) -> int
    decreases k - lo,
{
    if k > lo && is_unicode_whitespace(s[k - 1]) {
        skip_ws_backward(s, lo, k - 1)
    } else {
        k
    }
}

/// The line starting at `i`, without surrounding whitespace.
pub open spec fn trimmed_line(s: Seq<char>, i: int) -> Seq<char> {
    let e = line_end(s, i);
    let lo = skip_ws_forward(s, i, e);
    s.subrange(lo, skip_ws_backward(s, lo, e))
}

/// A line ends at or after its start, within the text, at a line feed or
/// at the end, with no line feed before that.
pub proof fn lemma_line_end_bounds(s: Seq<char>, i: int)
    requires
        0 <= i <= s.len(),
    ensures
        i <= line_end(s, i) <= s.len(),
        line_end(s, i) < s.len() ==> s[line_end(s, i)] == '\n',
        forall|j: int| i <= j < line_end(s, i) ==> s[j] != '\n',
    decreases s.len() - i,
{
    if i < s.len() && s[i] != '\n' {
        lemma_line_end_bounds(s, i + 1);
    }
}

/// The first line from position `i` on that is not blank, trimmed; empty
/// when every remaining line is blank.
pub open spec fn first_text_line_from(s: Seq<char>, i: int) -> Seq<char>
    decreases s.len() - i,
{
    if i < 0 || i >= s.len() {
        Seq::empty()
    } else {
        let t = trimmed_line(s, i);
        let e = line_end(s, i);
        if t.len() > 0 {
            t
        } else if e >= s.len() {
            Seq::empty()
        } else {
            proof {
                lemma_line_end_bounds(s, i);
            }
            first_text_line_from(s, e + 1)
        }
    }
}

/// The preview of release notes: their first line that is not blank,
/// trimmed of whitespace and cut to 90 characters.
pub open spec fn note_preview_spec(notes: Seq<char>) -> Seq<char> {
    let t = first_text_line_from(notes, 0);
    if t.len() <= 90 {
        t
    } else {
        t.take(90)
    }
}

/// The characters `cs[lo..hi]` as a string.
fn string_from_range(cs: &Vec<char>, lo: usize, hi: usize) -> (r: String)
    requires
        lo <= hi <= cs@.len(),
    ensures
        r@ == cs@.subrange(lo as int, hi as int),
{
    let mut r = String::new();
    let mut k: usize = lo;
    while k < hi
        invariant
            lo <= k <= hi <= cs@.len(),
            r@ == cs@.subrange(lo as int, k as int),
        decreases hi - k,
    {
        push_char(&mut r, cs[k]);
        assert(cs@.subrange(lo as int, k + 1) =~= cs@.subrange(lo as int, k as int).push(cs@[k as int]));
        k = k + 1;
    }
    r
}

/// A one-line preview of release notes for the update notification: the
/// first line that is not blank, trimmed, at most 90 characters long.
pub fn release_note_preview(release_notes: &str) -> (r: String)
    ensures
        r@ == note_preview_spec(release_notes@),
{
    let cs = chars_of(release_notes);
    let ghost s = cs@;
    let n = cs.len();
    let mut i: usize = 0;
    while i < n
        invariant
            s == cs@,
            s == release_notes@,
            n == s.len(),
            i <= n,
            first_text_line_from(s, 0) == first_text_line_from(s, i as int),
        decreases n - i,
    {
        let mut e: usize = i;
        while e < n && cs[e] != '\n'
            invariant
                s == cs@,
                n == s.len(),
                i <= e <= n,
                line_end(s, e as int) == line_end(s, i as int),
            decreases n - e,
        {
            e = e + 1;
        }
        let mut lo: usize = i;
        while lo < e && is_whitespace(cs[lo])
            invariant
                s == cs@,
                n == s.len(),
                i <= lo <= e <= n,
                skip_ws_forward(s, lo as int, e as int) == skip_ws_forward(s, i as int, e as int),
            decreases e - lo,
        {
            lo = lo + 1;
        }
        let mut hi: usize = e;
        while hi > lo && is_whitespace(cs[hi - 1])
            invariant
                s == cs@,
                n == s.len(),
                i <= lo <= hi <= e <= n,
                skip_ws_backward(s, lo as int, hi as int) == skip_ws_backward(
                    s,
                    lo as int,
                    e as int,
                ),
            decreases hi - lo,
        {
            hi = hi - 1;
        }
        assert(line_end(s, e as int) == e as int);
        assert(skip_ws_forward(s, lo as int, e as int) == lo as int);
        assert(skip_ws_backward(s, lo as int, hi as int) == hi as int);
        assert(trimmed_line(s, i as int) == s.subrange(lo as int, hi as int));
        assert(first_text_line_from(s, i as int) == (if hi > lo {
            s.subrange(lo as int, hi as int)
        } else if e >= n {
            Seq::empty()
        } else {
            first_text_line_from(s, e + 1)
        }));
        if hi > lo {
            let end = if hi - lo <= 90 {
                hi
            } else {
                lo + 90
            };
            let r = string_from_range(&cs, lo, end);
            assert(r@ =~= note_preview_spec(release_notes@));
            return r;
        }
        if e >= n {
            return String::new();
        }
        i = e + 1;
    }
    String::new()
}

/// How one character is written in XML text.
pub open spec fn xml_escaped_char(c: char) -> Seq<char> {
    if c == '&' {
        "&amp;"@
    } else if c == '<' {
        "&lt;"@
    } else if c == '>' {
        "&gt;"@
    } else if c == '"' {
        "&quot;"@
    } else if c == '\'' {
        "&apos;"@
    } else {
        seq![c]
    }
}

/// `s` with the five XML special characters replaced by their entities.
pub open spec fn xml_escaped(s: Seq<char>) -> Seq<char>
    decreases s.len(),
{
    if s.len() == 0 {
        Seq::empty()
    } else {
        xml_escaped(s.drop_last()) + xml_escaped_char(s.last())
    }
}

/// Escapes `&`, `<`, `>`, `"` and `'` for use in XML text and attributes.
pub fn escape_xml(value: &str) -> (r: String)
    ensures
        r@ == xml_escaped(value@),
{
    let cs = chars_of(value);
    let mut escaped = String::new();
    let mut i: usize = 0;
    while i < cs.len()
        invariant
            cs@ == value@,
            i <= cs@.len(),
            escaped@ == xml_escaped(cs@.take(i as int)),
        decreases cs.len() - i,
    {
        let ch = cs[i];
        assert(cs@.take(i + 1).drop_last() =~= cs@.take(i as int));
        if ch == '&' {
            escaped.append("&amp;");
        } else if ch == '<' {
            escaped.append("&lt;");
        } else if ch == '>' {
            escaped.append("&gt;");
        } else if ch == '"' {
            escaped.append("&quot;");
        } else if ch == '\'' {
            escaped.append("&apos;");
        } else {
            push_char(&mut escaped, ch);
        }
        i = i + 1;
    }
    assert(cs@.take(cs@.len() as int) =~= cs@);
    escaped
}

/// The toast document announcing an update: a title, a body, and a button,
/// the toast itself and the button opening `url`.
pub open spec fn toast_xml_spec(title: Seq<char>, body: Seq<char>, url: Seq<char>) -> Seq<char> {
    "<toast activationType=\"protocol\" launch=\""@ + xml_escaped(url)
        + "\">\n    <visual>\n        <binding template=\"ToastGeneric\">\n            <text>"@
        + xml_escaped(title) + "</text>\n            <text>"@ + xml_escaped(body)
        + "</text>\n        </binding>\n    </visual>\n    <actions>\n        <action content=\"GitHub Releases 열기\" arguments=\""@
        + xml_escaped(url) + "\" activationType=\"protocol\"/>\n    </actions>\n</toast>"@
}

/// The toast document for an update notification, with every inserted text
/// escaped.
pub fn toast_xml(title: &str, body: &str, launch_url: &str) -> (r: String)
    ensures
        r@ == toast_xml_spec(title@, body@, launch_url@),
{
    let url = escape_xml(launch_url);
    let t = escape_xml(title);
    let b = escape_xml(body);
    let mut s = String::from_str("<toast activationType=\"protocol\" launch=\"");
    s.append(url.as_str());
    s.append(
        "\">\n    <visual>\n        <binding template=\"ToastGeneric\">\n            <text>",
    );
    s.append(t.as_str());
    s.append("</text>\n            <text>");
    s.append(b.as_str());
    s.append(
        "</text>\n        </binding>\n    </visual>\n    <actions>\n        <action content=\"GitHub Releases 열기\" arguments=\"",
    );
    s.append(url.as_str());
    s.append("\" activationType=\"protocol\"/>\n    </actions>\n</toast>");
    s
}

/// The notification text for version `version` with note preview `note`.
pub open spec fn notification_body_spec(version: Seq<char>, note: Seq<char>) -> Seq<char> {
    if note.len() == 0 {
        "새 버전 "@ + version + "이 있습니다. 클릭해서 GitHub Releases 페이지를 엽니다."@
    } else {
        "새 버전 "@ + version + "이 있습니다. "@ + note + "\n클릭해서 GitHub Releases 페이지를 엽니다."@
    }
}

/// The notification text for a version and a note preview.
pub fn compose_notification_body(version: &str, note: &str) -> (r: String)
    ensures
        r@ == notification_body_spec(version@, note@),
{
    let mut s = String::from_str("새 버전 ");
    s.append(version);
    if note.is_empty() {
        s.append("이 있습니다. 클릭해서 GitHub Releases 페이지를 엽니다.");
    } else {
        s.append("이 있습니다. ");
        s.append(note);
        s.append("\n클릭해서 GitHub Releases 페이지를 엽니다.");
    }
    s
}

/// The notification text announcing `info`: its version as `semver` shows
/// it, and the preview of its notes when there is one.
pub fn update_notification_body(info: &ReleaseInfo) -> (r: String)
    ensures
        r@ == notification_body_spec(
            semver_display(info.version@),
            note_preview_spec(info.release_notes@),
        ),
{
    let version = version_display(&info.version);
    let note = release_note_preview(info.release_notes.as_str());
    compose_notification_body(version.as_str(), note.as_str())
}

/// The longest single sleep between two checks of the running flag.
pub const CHECK_SLEEP_SLICE_MS: u64 = 60_000;

/// One sleep of the wait between two update checks with `remaining_ms`
/// left: at most a minute, so that shutdown is noticed; returns the sleep
/// and what remains after it.
pub fn check_wait_step(remaining_ms: u64) -> (r: (u64, u64))
    ensures
        r.0 == (if remaining_ms < CHECK_SLEEP_SLICE_MS {
            remaining_ms
        } else {
            CHECK_SLEEP_SLICE_MS
        }),
        r.0 + r.1 == remaining_ms,
        remaining_ms > 0 ==> r.0 > 0,
{
    let step = if remaining_ms < CHECK_SLEEP_SLICE_MS {
        remaining_ms
    } else {
        CHECK_SLEEP_SLICE_MS
    };
    (step, remaining_ms - step)
}

/// Escaping leaves a text without XML special characters as it is.
pub proof fn lemma_escape_plain_text(s: Seq<char>)
    requires
        forall|i: int|
            0 <= i < s.len() ==> s[i] != '&' && s[i] != '<' && s[i] != '>' && s[i] != '"'
                && s[i] != '\'',
    ensures
        xml_escaped(s) == s,
    decreases s.len(),
{
    if s.len() > 0 {
        lemma_escape_plain_text(s.drop_last());
        assert(s.drop_last().push(s.last()) =~= s);
    }
}

/// Escaped text holds no `<`, `>`, `"` or `'`: it can stand in XML text
/// and in a quoted attribute.
pub proof fn lemma_escaped_has_no_markup(s: Seq<char>)
    ensures
        forall|i: int|
            0 <= i < xml_escaped(s).len() ==> xml_escaped(s)[i] != '<' && xml_escaped(s)[i] != '>'
                && xml_escaped(s)[i] != '"' && xml_escaped(s)[i] != '\'',
    decreases s.len(),
{
    reveal_strlit("&amp;");
    reveal_strlit("&lt;");
    reveal_strlit("&gt;");
    reveal_strlit("&quot;");
    reveal_strlit("&apos;");
    if s.len() > 0 {
        lemma_escaped_has_no_markup(s.drop_last());
        let a = xml_escaped(s.drop_last());
        let b = xml_escaped_char(s.last());
        assert forall|i: int| 0 <= i < xml_escaped(s).len() implies xml_escaped(s)[i] != '<'
            && xml_escaped(s)[i] != '>' && xml_escaped(s)[i] != '"' && xml_escaped(s)[i] != '\'' by {
            if i >= a.len() {
                assert(xml_escaped(s)[i] == b[i - a.len()]);
            } else {
                assert(xml_escaped(s)[i] == a[i]);
            }
        }
    }
}

/// Trimming a tag drops exactly its leading `v` and `V` characters: what
/// remains is a suffix of the tag that does not start with either, and
/// everything dropped is a `v` or a `V`.
pub proof fn lemma_strip_version_prefix(s: Seq<char>)
    ensures
        ({
            let t = strip_version_prefix(s);
            let n = s.len() - t.len();
            &&& t.len() <= s.len()
            &&& t == s.subrange(n, s.len() as int)
            &&& forall|k: int| 0 <= k < n ==> #[trigger] s[k] == 'v' || s[k] == 'V'
            &&& t.len() > 0 ==> t[0] != 'v' && t[0] != 'V'
        }),
    decreases s.len(),
{
    if s.len() > 0 && (s[0] == 'v' || s[0] == 'V') {
        let d = s.drop_first();
        lemma_strip_version_prefix(d);
        let t = strip_version_prefix(s);
        let n = s.len() - t.len();
        assert(t == strip_version_prefix(d));
        assert(d.subrange(n - 1, d.len() as int) =~= s.subrange(n, s.len() as int));
        assert forall|k: int| 0 <= k < n implies #[trigger] s[k] == 'v' || s[k] == 'V' by {
            if k > 0 {
                assert(s[k] == d[k - 1]);
            }
        }
    } else {
        assert(s.subrange(0, s.len() as int) =~= s);
    }
}

/// The update notification names the version first and, when there is a
/// note preview, shows it before the call to action.
pub proof fn lemma_notification_body(version: Seq<char>, note: Seq<char>)
    ensures
        ("새 버전 "@ + version).is_prefix_of(notification_body_spec(version, note)),
        note.len() > 0 ==> notification_body_spec(version, note).subrange(
            ("새 버전 "@ + version + "이 있습니다. "@).len() as int,
            ("새 버전 "@ + version + "이 있습니다. "@ + note).len() as int,
        ) == note,
        note.len() == 0 ==> notification_body_spec(version, note) == "새 버전 "@ + version
            + "이 있습니다. 클릭해서 GitHub Releases 페이지를 엽니다."@,
{
    let b = notification_body_spec(version, note);
    let head = "새 버전 "@ + version;
    assert(b.subrange(0, head.len() as int) =~= head);
    if note.len() > 0 {
        let pre = head + "이 있습니다. "@;
        assert(b.subrange(pre.len() as int, (pre + note).len() as int) =~= note);
    }
}

/// A preview is never longer than 90 characters.
pub proof fn lemma_preview_shape(notes: Seq<char>)
    ensures
        note_preview_spec(notes).len() <= 90,
{
}

} // verus!
