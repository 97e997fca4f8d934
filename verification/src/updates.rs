//! Deciding what the latest published release means for this build: whether
//! an update is available, and where to download it.
use crate::app::{with_message, AppModel, LexivoApp};
use crate::changelog::opt_chars;
use crate::config::AppConfig;
use crate::text::{chars_of, string_from_range};
use crate::types::{Screen, UpdateStatus};
use vstd::prelude::*;

verus! {

broadcast use vstd::string::group_string_axioms;

/// A file attached to a published release, as the release listing gives it.
pub struct ReleaseAsset {
    /// The file name, where the listing has one.
    pub name: Option<String>,
    /// The address the file is downloaded from, where the listing has one.
    pub browser_download_url: Option<String>,
}

/// A release file, as character sequences.
pub struct AssetModel {
    pub name: Option<Seq<char>>,
    pub url: Option<Seq<char>>,
}

impl View for ReleaseAsset {
    type V = AssetModel;

    open spec fn view(&self) -> AssetModel {
        AssetModel { name: opt_chars(self.name), url: opt_chars(self.browser_download_url) }
    }
}

/// The models of a list of release files.
pub open spec fn asset_models(assets: Seq<ReleaseAsset>) -> Seq<AssetModel> {
    assets.map_values(|a: ReleaseAsset| a@)
}

/// What `Path::extension` gives for a file name on the build target (whose
/// path separators decide where the file name starts): the part after its
/// last dot, with the exceptions that std documents.
pub uninterp spec fn path_extension(name: Seq<char>) -> Option<Seq<char>>;

/// A text, or the empty text where there is none.
pub open spec fn or_empty(s: Option<Seq<char>>) -> Seq<char> {
    match s {
        Some(t) => t,
        None => seq![],
    }
}

/// `s` without its leading `v` characters.
pub open spec fn strip_leading_v(s: Seq<char>) -> Seq<char>
    decreases s.len(),
{
    if s.len() > 0 && s[0] == 'v' {
        strip_leading_v(s.drop_first())
    } else {
        s
    }
}

/// The version a release tag names: the tag without its leading `v`s.
pub open spec fn release_version(tag: Option<Seq<char>>) -> Seq<char> {
    strip_leading_v(or_empty(tag))
}

/// `c` with an ASCII upper-case letter made lower case.
pub open spec fn ascii_lower(c: char) -> char {
    if 'A' <= c && c <= 'Z' {
        ((c as u32) + 32) as char
    } else {
        c
    }
}

/// Whether two texts are equal when ASCII letters are compared without
/// regard to case.
pub open spec fn eq_ignore_ascii_case(a: Seq<char>, b: Seq<char>) -> bool {
    &&& a.len() == b.len()
    &&& forall|i: int| 0 <= i < a.len() ==> #[trigger] ascii_lower(a[i]) == ascii_lower(b[i])
}

/// Whether a release file is an Android package with a download address.
pub open spec fn is_apk_asset(a: AssetModel) -> bool {
    &&& a.url is Some
    &&& match path_extension(or_empty(a.name)) {
        Some(e) => eq_ignore_ascii_case(e, "apk"@),
        None => false,
    }
}

/// The download address among `assets[i..]`: that of the first Android
/// package, or else the release page.
pub open spec fn download_from(assets: Seq<AssetModel>, i: int, page: Seq<char>) -> Seq<char>
    decreases assets.len() - i,
{
    if i >= assets.len() || i < 0 {
        page
    } else if is_apk_asset(assets[i]) {
        assets[i].url->0
    } else {
        download_from(assets, i + 1, page)
    }
}

/// Whether a release of `version` is an update for this build.
pub open spec fn is_update(version: Seq<char>) -> bool {
    version.len() > 0 && version != AppConfig::APP_VERSION@
}

/// Whether `status` is what the latest release, with tag `tag`, page
/// `page` and files `assets`, means for this build: an update to that
/// version with its download address, or nothing new.
pub open spec fn release_status_ok(
    status: UpdateStatus,
    tag: Option<Seq<char>>,
    page: Option<Seq<char>>,
    assets: Seq<AssetModel>,
) -> bool {
    if is_update(release_version(tag)) {
        status matches UpdateStatus::Available { version, url } && version@ == release_version(tag)
            && url@ == download_from(assets, 0, or_empty(page))
    } else {
        status is UpToDate
    }
}

/// Calls `Path::new(name).extension()`, taken as text. Which part of a name
/// is its extension is named here, not spelled out.
#[verifier::external_body]
fn file_extension(name: &str) -> (ext: Option<String>)
    ensures
        opt_chars(ext) == path_extension(name@),
{
    std::path::Path::new(name).extension().map(|e| e.to_string_lossy().into_owned())
}

/// `c` with an ASCII upper-case letter made lower case.
fn to_ascii_lower(c: char) -> (r: char)
    ensures
        r == ascii_lower(c),
{
    if 'A' <= c && c <= 'Z' {
        (((c as u32) + 32) as u8) as char
    } else {
        c
    }
}

/// Whether two texts are equal when ASCII letters are compared without
/// regard to case, as `eq_ignore_ascii_case` decides.
pub fn equals_ignoring_ascii_case(a: &str, b: &str) -> (eq: bool)
    ensures
        eq == eq_ignore_ascii_case(a@, b@),
{
    let x = chars_of(a);
    let y = chars_of(b);
    if x.len() != y.len() {
        return false;
    }
    let mut i: usize = 0;
    while i < x.len()
        invariant
            i <= x.len(),
            x.len() == y.len(),
            x@ == a@,
            y@ == b@,
            forall|k: int| 0 <= k < i ==> #[trigger] ascii_lower(x@[k]) == ascii_lower(y@[k]),
        decreases x.len() - i,
    {
        if to_ascii_lower(x[i]) != to_ascii_lower(y[i]) {
            return false;
        }
        i += 1;
    }
    true
}

/// Whether a release file is an Android package with a download address.
fn asset_is_apk(asset: &ReleaseAsset) -> (b: bool)
    ensures
        b == is_apk_asset(asset@),
{
    if asset.browser_download_url.is_none() {
        return false;
    }
    let ext = match &asset.name {
        Some(name) => file_extension(name.as_str()),
        None => {
            proof {
                reveal_strlit("");
                assert(""@ =~= Seq::<char>::empty());
            }
            file_extension("")
        },
    };
    match ext {
        Some(e) => equals_ignoring_ascii_case(e.as_str(), "apk"),
        None => false,
    }
}

/// The version a release tag names: the tag without its leading `v`s.
pub fn version_from_tag(tag: &Option<String>) -> (version: String)
    ensures
        version@ == release_version(opt_chars(*tag)),
{
    let chars = match tag {
        Some(t) => chars_of(t.as_str()),
        None => Vec::new(),
    };
    let mut start: usize = 0;
    assert(chars@.skip(0) =~= chars@);
    while start < chars.len() && chars[start] == 'v'
        invariant
            start <= chars.len(),
            chars@ == or_empty(opt_chars(*tag)),
            strip_leading_v(chars@.skip(start as int)) == release_version(opt_chars(*tag)),
        decreases chars.len() - start,
    {
        assert(chars@.skip(start as int).drop_first() =~= chars@.skip(start + 1));
        start += 1;
    }
    assert(chars@.skip(start as int) =~= chars@.subrange(start as int, chars@.len() as int));
    string_from_range(&chars, start, chars.len())
}

/// What the latest release means for this build: an update when its tag,
/// without leading `v`s, names another version than this one, downloaded
/// from its first Android package or else from the release page; otherwise
/// nothing new.
pub fn release_status(
    tag_name: Option<String>,
    html_url: Option<String>,
    assets: &Vec<ReleaseAsset>,
) -> (status: UpdateStatus)
    ensures
        release_status_ok(status, opt_chars(tag_name), opt_chars(html_url), asset_models(assets@)),
{
    let version = version_from_tag(&tag_name);
    let current = String::from_str(AppConfig::APP_VERSION);
    if version.as_str().unicode_len() == 0 || version == current {
        return UpdateStatus::UpToDate;
    }
    let ghost page = or_empty(opt_chars(html_url));
    let url = match html_url {
        Some(p) => p,
        None => String::new(),
    };
    let mut i: usize = 0;
    while i < assets.len()
        invariant
            i <= assets.len(),
            url@ == page,
            page == or_empty(opt_chars(html_url)),
            version@ == release_version(opt_chars(tag_name)),
            is_update(version@),
            download_from(asset_models(assets@), 0, page) == download_from(
                asset_models(assets@),
                i as int,
                page,
            ),
        decreases assets.len() - i,
    {
        assert(asset_models(assets@)[i as int] == assets@[i as int]@);
        if asset_is_apk(&assets[i]) {
            let found = match &assets[i].browser_download_url {
                Some(u) => u.clone(),
                None => String::new(),
            };
            return UpdateStatus::Available { version: version, url: found };
        }
        i += 1;
    }
    UpdateStatus::Available { version: version, url: url }
}

/// The state after the outcome of an update check arrives: on the start
/// screen an available update is announced.
pub open spec fn announce_spec(m: AppModel, status: UpdateStatus) -> AppModel {
    match status {
        UpdateStatus::Available { version, .. } => if m.screen == Screen::Start {
            with_message(m, "Update available: v"@ + version@)
        } else {
            m
        },
        _ => m,
    }
}

impl LexivoApp {
    /// Announces an available update when the start screen is shown.
    pub fn announce_update(&mut self, status: &UpdateStatus)
        ensures
            final(self)@ == announce_spec(old(self)@, *status),
    {
        if let UpdateStatus::Available { version, .. } = status {
            if self.screen == Screen::Start {
                let mut text = String::from_str("Update available: v");
                text.append(version.as_str());
                self.set_message(text.as_str());
            }
        }
    }
}

} // verus!
