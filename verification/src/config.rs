//! Application settings and where they are kept on disk.
use vstd::prelude::*;

verus! {

/// Application settings.
///
/// The display settings that are floating point (font size and window
/// opacity) are kept by the application shell beside these.
#[derive(Debug, Clone)]
pub struct Config {
    /// Translation engine: `"google"` or `"deepl"`.
    pub engine: String,
    /// DeepL API key (empty when not set).
    pub deepl_api_key: String,
    /// Source language; `"auto"` lets the engine detect it.
    pub source_lang: String,
    /// Target language for Japanese text.
    pub target_lang_ja: String,
    /// Target language for any other text.
    pub target_lang_en: String,
    /// Whether translations are logged.
    pub log_enabled: bool,
    /// Hotkey that opens the input pop-up.
    pub hotkey_popup: String,
    /// Hotkey that translates the selected text.
    pub hotkey_selected: String,
}

/// The settings written on first start.
pub open spec fn is_default_config(c: Config) -> bool {
    &&& c.engine@ == "google"@
    &&& c.deepl_api_key@ == Seq::<char>::empty()
    &&& c.source_lang@ == "auto"@
    &&& c.target_lang_ja@ == "en"@
    &&& c.target_lang_en@ == "ja"@
    &&& c.log_enabled
    &&& c.hotkey_popup@ == "ctrl+shift+t"@
    &&& c.hotkey_selected@ == "ctrl+shift+y"@
}

impl Default for Config {
    fn default() -> (r: Self)
        ensures
            is_default_config(r),
    {
        Config {
            engine: String::from_str("google"),
            deepl_api_key: String::new(),
            source_lang: String::from_str("auto"),
            target_lang_ja: String::from_str("en"),
            target_lang_en: String::from_str("ja"),
            log_enabled: true,
            hotkey_popup: String::from_str("ctrl+shift+t"),
            hotkey_selected: String::from_str("ctrl+shift+y"),
        }
    }
}

/// What `load_config` ends with: the settings to use, and whether the
/// defaults are to be written back to disk.
#[derive(Debug)]
pub struct LoadedConfig {
    pub config: Config,
    pub save_defaults: bool,
}

/// Settles the outcome of reading and parsing the settings file: parsed
/// settings are used as they are; when the file was missing, unreadable or
/// not valid JSON (`None`), the defaults are used and saved.
pub fn resolve_loaded_config(parsed: Option<Config>) -> (r: LoadedConfig)
    ensures
        parsed matches Some(c) ==> r.config == c && !r.save_defaults,
        parsed is None ==> is_default_config(r.config) && r.save_defaults,
{
    match parsed {
        Some(c) => LoadedConfig { config: c, save_defaults: false },
        None => LoadedConfig { config: Config::default(), save_defaults: true },
    }
}

/// A single path component with no separator, drive colon, `.` or `..`.
pub open spec fn is_plain_file_name(name: Seq<char>) -> bool {
    &&& name.len() > 0
    &&& forall|k: int|
        0 <= k < name.len() ==> #[trigger] name[k] != '/' && name[k] != '\\' && name[k] != ':'
    &&& name != "."@
    &&& name != ".."@
}

/// A text that starts like a Windows verbatim path (`\\?`), which
/// `PathBuf::push` normalizes.
pub open spec fn is_verbatim_path(p: Seq<char>) -> bool {
    p.len() >= 3 && p[0] == '\\' && p[1] == '\\' && p[2] == '?'
}

/// A path separator character on some platform.
pub open spec fn is_separator(c: char) -> bool {
    c == '/' || c == '\\'
}

/// `r` is `base`, one separator character, then `name`.
pub open spec fn is_separated_join(base: Seq<char>, name: Seq<char>, r: Seq<char>) -> bool {
    &&& r.len() == base.len() + name.len() + 1
    &&& r.take(base.len() as int) == base
    &&& is_separator(r[base.len() as int])
    &&& r.skip(base.len() as int + 1) == name
}

/// `r` is `base` followed by `name`, with at most one separator character
/// between them.
pub open spec fn is_joined_path(base: Seq<char>, name: Seq<char>, r: Seq<char>) -> bool {
    r == base + name || is_separated_join(base, name, r)
}

/// A bare drive such as `C:`, to which Windows adds a name with no
/// separator.
pub open spec fn is_bare_drive(p: Seq<char>) -> bool {
    p.len() == 2 && p[1] == ':'
}

/// A path after which every platform puts a separator before a name:
/// non-empty, not ending in `/` or `\`, and not a bare drive.
pub open spec fn needs_separator(base: Seq<char>) -> bool {
    &&& base.len() > 0
    &&& base.last() != '/'
    &&& base.last() != '\\'
    &&& !is_bare_drive(base)
}

/// `r` is `base` joined with the name `name` as `Path::join` joins them:
/// one separator after a path that needs one, none after an empty path or
/// one that ends in `/`, and at most one in any case.
pub open spec fn is_path_join(base: Seq<char>, name: Seq<char>, r: Seq<char>) -> bool {
    &&& is_joined_path(base, name, r)
    &&& (base.len() == 0 || base.last() == '/') ==> r == base + name
    &&& needs_separator(base) ==> is_separated_join(base, name, r)
}

/// `std::path::Path::join` on texts: `base` with the file name `name`
/// appended. The contract claims that the result ends with `name`, and,
/// unless `base` is a verbatim path, that it is `base`, then a separator
/// (`/` or `\`) where `base` needs one (`/etc` joined with `passwd` gives
/// `/etc/passwd`), none after an empty path or a trailing `/`, then `name`.
/// Which separator character the platform uses, and whether one is added
/// after a trailing `\` or a bare drive such as `C:`, is not stated.
#[verifier::external_body]
pub(crate) fn join_path(base: &str, name: &str) -> (r: String)
    requires
        is_plain_file_name(name@),
    ensures
        r@.len() >= name@.len(),
        r@.skip(r@.len() - name@.len()) == name@,
        !is_verbatim_path(base@) ==> is_path_join(base@, name@, r@),
{
    std::path::Path::new(base).join(name).to_string_lossy().into_owned()
}

/// `dirs::home_dir`: the user's home directory as text, or `None` when the
/// platform has none or it is not valid Unicode. The directory comes from
/// the environment, so nothing is stated of it.
#[verifier::external_body]
pub(crate) fn home_dir() -> (r: Option<String>) {
    match dirs::home_dir() {
        Some(p) => p.into_os_string().into_string().ok(),
        None => None,
    }
}

proof fn lemma_settings_names_plain()
    ensures
        is_plain_file_name(".quick-translate"@),
        is_plain_file_name("config.json"@),
{
    reveal_strlit(".quick-translate");
    reveal_strlit("config.json");
    reveal_strlit(".");
    reveal_strlit("..");
    assert(".quick-translate"@ != "."@ && ".quick-translate"@ != ".."@) by {
        assert(".quick-translate"@.len() != "."@.len());
        assert(".quick-translate"@.len() != ".."@.len());
    }
    assert("config.json"@ != "."@ && "config.json"@ != ".."@) by {
        assert("config.json"@.len() != "."@.len());
        assert("config.json"@.len() != ".."@.len());
    }
}

/// Appending a name that starts with `.` to a non-verbatim path, with or
/// without a separator, gives a non-verbatim path.
proof fn lemma_join_keeps_non_verbatim(base: Seq<char>, name: Seq<char>, r: Seq<char>)
    requires
        !is_verbatim_path(base),
        name.len() > 0,
        name[0] == '.',
        is_joined_path(base, name, r),
    ensures
        !is_verbatim_path(r),
{
    if r == base + name {
        if base.len() < 3 && r.len() >= 3 {
            assert(r[base.len() as int] == '.');
        }
    } else {
        if base.len() < 3 && r.len() >= 3 {
            assert(r[base.len() as int + 1] == name[0]);
            if base.len() < 2 {
                assert(r[base.len() as int + 1] == '.');
            }
        } else if base.len() >= 3 {
            assert(r[0] == base[0] && r[1] == base[1] && r[2] == base[2]);
        }
    }
}

/// The settings directory under a home directory.
pub fn config_dir_in(home: &str) -> (r: String)
    ensures
        r@.len() >= 16 && r@.skip(r@.len() - 16) == ".quick-translate"@,
        !is_verbatim_path(home@) ==> is_path_join(home@, ".quick-translate"@, r@),
{
    proof {
        lemma_settings_names_plain();
        reveal_strlit(".quick-translate");
    }
    join_path(home, ".quick-translate")
}

/// `r` is the settings file under the home directory `home`: the settings
/// directory `home` joined with `.quick-translate`, then a separator, then
/// `config.json`.
pub open spec fn is_config_file_of(home: Seq<char>, r: Seq<char>) -> bool {
    exists|dir: Seq<char>|
        is_path_join(home, ".quick-translate"@, dir) && #[trigger] is_separated_join(
            dir,
            "config.json"@,
            r,
        )
}

/// The settings file under a home directory: `<home>/.quick-translate/config.json`.
pub fn config_file_in(home: &str) -> (r: String)
    ensures
        r@.len() >= 11 && r@.skip(r@.len() - 11) == "config.json"@,
        !is_verbatim_path(home@) ==> is_config_file_of(home@, r@),
{
    let dir = config_dir_in(home);
    proof {
        lemma_settings_names_plain();
        reveal_strlit("config.json");
        reveal_strlit(".quick-translate");
        if !is_verbatim_path(home@) {
            lemma_join_keeps_non_verbatim(home@, ".quick-translate"@, dir@);
        }
        let d = dir@;
        assert(d.len() >= 16);
        assert(d.last() == d.skip(d.len() - 16)[15]);
        assert(d.last() == 'e');
        assert(needs_separator(d));
    }
    let r = join_path(dir.as_str(), "config.json");
    proof {
        if !is_verbatim_path(home@) {
            assert(is_separated_join(dir@, "config.json"@, r@));
            assert(is_path_join(home@, ".quick-translate"@, dir@));
        }
    }
    r
}

/// The settings directory, `~/.quick-translate`; `None` when there is no
/// home directory.
pub fn config_dir() -> (r: Option<String>)
    ensures
        r matches Some(p) ==> p@.len() >= 16 && p@.skip(p@.len() - 16) == ".quick-translate"@,
{
    match home_dir() {
        Some(h) => Some(config_dir_in(h.as_str())),
        None => None,
    }
}

/// The settings file, `~/.quick-translate/config.json`; `None` when there
/// is no home directory.
pub fn config_file() -> (r: Option<String>)
    ensures
        r matches Some(p) ==> p@.len() >= 11 && p@.skip(p@.len() - 11) == "config.json"@,
{
    match home_dir() {
        Some(h) => Some(config_file_in(h.as_str())),
        None => None,
    }
}

} // verus!
