//! Application directories, laid out the XDG way on every
//! platform, including macOS, so that the configuration lives at the familiar
//! `~/.config/openlogi/` rather than `~/Library/Application Support/`.
//!
//! | kind   | env override        | default                       |
//! |--------|---------------------|-------------------------------|
//! | config | `$XDG_CONFIG_HOME`  | `~/.config/openlogi`          |
//! | data   | `$XDG_DATA_HOME`    | `~/.local/share/openlogi`     |
//!
//! Where `$HOME` is unset, `%USERPROFILE%` stands in for it, so that on Windows
//! the directories are `%USERPROFILE%\.config\openlogi` and so on.
//!
//! The process environment is read outside this crate and comes in as an
//! [`Environment`], together with how its paths are written.

use crate::path::PathStyle;
use vstd::prelude::*;
use vstd::string::StringSliceAdditionalSpecFns;

verus! {

/// Subdirectory created under each XDG base directory.
pub const APP_DIR: &'static str = "openlogi";

/// Name of the user's config file.
pub const CONFIG_FILE: &'static str = "config.toml";

/// Why a directory could not be resolved.
#[derive(Clone, Copy, Debug, PartialEq, Eq, Structural)]
pub enum PathsError {
    /// Neither `$HOME` nor `%USERPROFILE%` names a home directory.
    HomeNotFound,
}

impl PathsError {
    /// The text shown to the user.
    pub fn message(&self) -> (text: String)
        ensures
            text@ == "could not resolve a home directory for the current user"@,
    {
        "could not resolve a home directory for the current user".to_owned()
    }
}

/// The environment variables the directories depend on; `None` is unset.
#[derive(Debug)]
pub struct Environment {
    /// How the paths in the variables are written.
    pub style: PathStyle,
    /// `$HOME`.
    pub home: Option<Vec<u8>>,
    /// `%USERPROFILE%`.
    pub userprofile: Option<Vec<u8>>,
    /// `$XDG_CONFIG_HOME`.
    pub xdg_config_home: Option<Vec<u8>>,
    /// `$XDG_DATA_HOME`.
    pub xdg_data_home: Option<Vec<u8>>,
}

/// The bytes of each of several segments.
pub open spec fn segment_bytes(segments: Seq<&str>) -> Seq<Seq<u8>> {
    segments.map_values(|s: &str| s.spec_bytes())
}

impl Environment {
    /// The home directory: `$HOME`, or `%USERPROFILE%` where `$HOME` is unset;
    /// an empty value names none.
    pub open spec fn home_dir(&self) -> Option<Seq<u8>> {
        let set = match self.home {
            Some(h) => Some(h@),
            None => match self.userprofile {
                Some(p) => Some(p@),
                None => None,
            },
        };
        match set {
            Some(h) if h.len() > 0 => Some(h),
            _ => None,
        }
    }

    /// The base directory for an XDG variable and the default below the home
    /// directory, with the application's subdirectory.
    pub open spec fn base_dir(&self, value: Option<Seq<u8>>, fallback: Seq<Seq<u8>>) -> Option<
        Seq<u8>,
    > {
        match value {
            Some(v) if self.style.absolute(v) => Some(self.style.joined(v, APP_DIR.spec_bytes())),
            _ => match self.home_dir() {
                Some(h) => Some(
                    self.style.joined(self.style.joined_all(h, fallback), APP_DIR.spec_bytes()),
                ),
                None => None,
            },
        }
    }

    /// The directory of the user's config, if it can be resolved.
    pub open spec fn config_directory(&self) -> Option<Seq<u8>> {
        self.base_dir(self.xdg_config_home.deep_view(), seq![".config".spec_bytes()])
    }

    /// The directory of downloaded data, if it can be resolved.
    pub open spec fn data_directory(&self) -> Option<Seq<u8>> {
        self.base_dir(
            self.xdg_data_home.deep_view(),
            seq![".local".spec_bytes(), "share".spec_bytes()],
        )
    }
}

/// A resolved path as its bytes; `None` stands for [`PathsError::HomeNotFound`].
pub open spec fn resolved(r: Result<Vec<u8>, PathsError>) -> Option<Seq<u8>> {
    match r {
        Ok(path) => Some(path@),
        Err(PathsError::HomeNotFound) => None,
    }
}

/// The user's home directory: `$HOME`, falling back to `%USERPROFILE%`.
pub fn home(env: &Environment) -> (dir: Result<Vec<u8>, PathsError>)
    ensures
        resolved(dir) == env.home_dir(),
{
    let set: &Option<Vec<u8>> = if env.home.is_some() {
        &env.home
    } else {
        &env.userprofile
    };
    match set {
        Some(h) => if h.len() > 0 {
            Ok(vstd::slice::slice_to_vec(h.as_slice()))
        } else {
            Err(PathsError::HomeNotFound)
        },
        None => Err(PathsError::HomeNotFound),
    }
}

/// Resolve an XDG base directory plus the [`APP_DIR`] subdir.
///
/// Honours `env_value` only when it is an absolute path; a relative
/// `$XDG_*_HOME` is invalid and is ignored, so that the directory falls back to
/// `$HOME/<fallback>`.
pub fn xdg_base(env: &Environment, env_value: &Option<Vec<u8>>, fallback: &[&str]) -> (dir: Result<
    Vec<u8>,
    PathsError,
>)
    ensures
        resolved(dir) == env.base_dir(env_value.deep_view(), segment_bytes(fallback@)),
{
    if let Some(v) = env_value {
        assert(v.deep_view() =~= v@);
        if env.style.is_absolute(v.as_slice()) {
            return Ok(env.style.join(v.as_slice(), APP_DIR));
        }
    }
    let mut dir: Vec<u8> = match home(env) {
        Ok(h) => h,
        Err(e) => return Err(e),
    };
    let ghost start = dir@;
    let mut i: usize = 0;
    assert(segment_bytes(fallback@.take(0)) =~= Seq::empty());
    while i < fallback.len()
        invariant
            i <= fallback@.len(),
            dir@ == env.style.joined_all(start, segment_bytes(fallback@.take(i as int))),
        decreases fallback@.len() - i,
    {
        dir = env.style.join(dir.as_slice(), fallback[i]);
        proof {
            let next = segment_bytes(fallback@.take(i + 1));
            assert(next.drop_last() =~= segment_bytes(fallback@.take(i as int)));
            assert(next.last() == fallback@[i as int].spec_bytes());
        }
        i += 1;
    }
    assert(fallback@.take(i as int) =~= fallback@);
    Ok(env.style.join(dir.as_slice(), APP_DIR))
}

/// Directory holding the user's `config.toml`.
///
/// `$XDG_CONFIG_HOME/openlogi`, default `~/.config/openlogi`.
pub fn config_dir(env: &Environment) -> (dir: Result<Vec<u8>, PathsError>)
    ensures
        resolved(dir) == env.config_directory(),
{
    let fallback: [&str; 1] = [".config"];
    assert(segment_bytes(fallback@) =~= seq![".config".spec_bytes()]);
    xdg_base(env, &env.xdg_config_home, fallback.as_slice())
}

/// Full path to the user config file.
pub fn config_path(env: &Environment) -> (path: Result<Vec<u8>, PathsError>)
    ensures
        resolved(path) == match env.config_directory() {
            Some(dir) => Some(env.style.joined(dir, CONFIG_FILE.spec_bytes())),
            None => None,
        },
{
    match config_dir(env) {
        Ok(dir) => Ok(env.style.join(dir.as_slice(), CONFIG_FILE)),
        Err(e) => Err(e),
    }
}

/// Directory for downloaded application data; the device-render asset cache
/// lives under `data_dir()/assets`.
///
/// `$XDG_DATA_HOME/openlogi`, default `~/.local/share/openlogi`.
pub fn data_dir(env: &Environment) -> (dir: Result<Vec<u8>, PathsError>)
    ensures
        resolved(dir) == env.data_directory(),
{
    let fallback: [&str; 2] = [".local", "share"];
    assert(segment_bytes(fallback@) =~= seq![".local".spec_bytes(), "share".spec_bytes()]);
    xdg_base(env, &env.xdg_data_home, fallback.as_slice())
}

/// An absolute override is used verbatim, whatever the home directory is: the
/// result is the override with the application's subdirectory.
pub proof fn law_absolute_override_is_used_verbatim(
    env: Environment,
    value: Seq<u8>,
    fallback: Seq<Seq<u8>>,
)
    requires
        env.style.absolute(value),
    ensures
        env.base_dir(Some(value), fallback) == Some(
            env.style.joined(value, APP_DIR.spec_bytes()),
        ),
{
}

/// A relative override is ignored: the directory is the one of an unset
/// variable.
pub proof fn law_relative_override_is_ignored(
    env: Environment,
    value: Seq<u8>,
    fallback: Seq<Seq<u8>>,
)
    requires
        !env.style.absolute(value),
    ensures
        env.base_dir(Some(value), fallback) == env.base_dir(None, fallback),
{
}

/// Every directory that resolves ends in the application's own segment, unless
/// the fallback leads to a bare drive, which the segment then follows directly.
pub proof fn law_directories_end_in_the_app_segment(
    env: Environment,
    value: Option<Seq<u8>>,
    fallback: Seq<Seq<u8>>,
)
    requires
        value matches Some(v) && env.style.absolute(v) || (env.home_dir() matches Some(h)
            ==> !env.style.is_drive(env.style.joined_all(h, fallback))),
    ensures
        env.base_dir(value, fallback) matches Some(dir) ==> env.style.ends_in(
            dir,
            APP_DIR.spec_bytes(),
        ),
{
    lemma_segments_are_names();
    let app = APP_DIR.spec_bytes();
    if let Some(v) = value {
        crate::path::law_a_name_becomes_the_last_segment(env.style, v, app);
    }
    if let Some(h) = env.home_dir() {
        let base = env.style.joined_all(h, fallback);
        crate::path::lemma_joined_all_is_not_empty(env.style, h, fallback);
        crate::path::law_a_name_becomes_the_last_segment(env.style, base, app);
    }
}

/// The config and the data directory, where they resolve, always end in the
/// application's own segment.
pub proof fn law_application_directories_are_its_own(env: Environment)
    ensures
        env.config_directory() matches Some(dir) ==> env.style.ends_in(dir, APP_DIR.spec_bytes()),
        env.data_directory() matches Some(dir) ==> env.style.ends_in(dir, APP_DIR.spec_bytes()),
{
    lemma_segments_are_names();
    let config = seq![".config".spec_bytes()];
    let data = seq![".local".spec_bytes(), "share".spec_bytes()];
    if let Some(h) = env.home_dir() {
        lemma_names_lead_to_no_drive(env.style, h, config);
        lemma_names_lead_to_no_drive(env.style, h, data);
    }
    law_directories_end_in_the_app_segment(env, env.xdg_config_home.deep_view(), config);
    law_directories_end_in_the_app_segment(env, env.xdg_data_home.deep_view(), data);
}

proof fn lemma_names_lead_to_no_drive(style: PathStyle, home: Seq<u8>, names: Seq<Seq<u8>>)
    requires
        home.len() > 0,
        names.len() > 0,
        crate::path::is_name(names.last()),
        names.last().len() > 1,
    ensures
        !style.is_drive(style.joined_all(home, names)),
{
    let base = style.joined_all(home, names.drop_last());
    crate::path::lemma_joined_all_is_not_empty(style, home, names.drop_last());
    crate::path::law_a_name_becomes_the_last_segment(style, base, names.last());
}

proof fn lemma_segments_are_names()
    ensures
        crate::path::is_name(APP_DIR.spec_bytes()),
        crate::path::is_name(".config".spec_bytes()),
        ".config".spec_bytes().len() > 1,
        crate::path::is_name("share".spec_bytes()),
        "share".spec_bytes().len() > 1,
{
    broadcast use vstd::string::is_ascii_spec_bytes;

    reveal_strlit("openlogi");
    reveal_strlit(".config");
    reveal_strlit("share");
    assert(vstd::string::is_ascii(APP_DIR));
    assert(vstd::string::is_ascii(".config"));
    assert(vstd::string::is_ascii("share"));
}

/// The home directory is `$HOME` wherever that is set, and `%USERPROFILE%` only
/// where it is not; an empty value names none, and nothing stands in for it.
pub proof fn law_home_comes_before_the_user_profile(env: Environment)
    ensures
        env.home matches Some(h) ==> (h@.len() > 0 ==> env.home_dir() == Some(h@)),
        env.home matches Some(h) && h@.len() == 0 ==> env.home_dir() is None,
        env.home is None && env.userprofile is None ==> env.home_dir() is None,
        env.home is None && (env.userprofile matches Some(p) && p@.len() > 0) ==> env.home_dir()
            == Some(env.userprofile->0@),
        env.home is None && (env.userprofile matches Some(p) && p@.len() == 0) ==> env.home_dir()
            is None,
{
}

/// Without an override the directory is the fallback below the home directory,
/// with `openlogi` below it; without a home directory there is none.
pub proof fn law_the_fallback_is_below_the_home_directory(
    env: Environment,
    fallback: Seq<Seq<u8>>,
)
    ensures
        env.home_dir() is None ==> env.base_dir(None, fallback) is None,
        env.home_dir() matches Some(h) ==> env.base_dir(None, fallback) == Some(
            env.style.joined(env.style.joined_all(h, fallback), "openlogi".spec_bytes()),
        ),
{
}

/// Each directory heeds its own variable and has its own default: `.config` for
/// the config, and `share` below `.local` for the data.
pub proof fn law_each_directory_has_its_own_variable(env: Environment)
    ensures
        env.xdg_config_home matches Some(v) && env.style.absolute(v@) ==> env.config_directory()
            == Some(env.style.joined(env.xdg_config_home->0@, "openlogi".spec_bytes())),
        env.xdg_data_home matches Some(v) && env.style.absolute(v@) ==> env.data_directory()
            == Some(env.style.joined(env.xdg_data_home->0@, "openlogi".spec_bytes())),
        !(env.xdg_config_home matches Some(v) && env.style.absolute(v@)) ==> (match env.home_dir() {
            Some(h) => env.config_directory() == Some(
                env.style.joined(
                    env.style.joined(h, ".config".spec_bytes()),
                    "openlogi".spec_bytes(),
                ),
            ),
            None => env.config_directory() is None,
        }),
        !(env.xdg_data_home matches Some(v) && env.style.absolute(v@)) ==> (match env.home_dir() {
            Some(h) => env.data_directory() == Some(
                env.style.joined(
                    env.style.joined(
                        env.style.joined(h, ".local".spec_bytes()),
                        "share".spec_bytes(),
                    ),
                    "openlogi".spec_bytes(),
                ),
            ),
            None => env.data_directory() is None,
        }),
{
    if let Some(v) = env.xdg_config_home {
        assert(v.deep_view() =~= v@);
    }
    if let Some(v) = env.xdg_data_home {
        assert(v.deep_view() =~= v@);
    }
    if let Some(h) = env.home_dir() {
        let config = seq![".config".spec_bytes()];
        let data = seq![".local".spec_bytes(), "share".spec_bytes()];
        reveal_with_fuel(PathStyle::joined_all, 3);
        assert(config.drop_last() =~= Seq::empty());
        assert(data.drop_last() =~= seq![".local".spec_bytes()]);
        assert(data.drop_last().drop_last() =~= Seq::empty());
    }
}

/// A resolved path is its bytes, and the one error is no path.
pub proof fn law_a_resolved_path_is_its_bytes(path: Vec<u8>, segments: Seq<&str>, i: int)
    ensures
        resolved(Ok(path)) == Some(path@),
        resolved(Err(PathsError::HomeNotFound)) is None,
        segment_bytes(segments).len() == segments.len(),
        0 <= i < segments.len() ==> segment_bytes(segments)[i] == segments[i].spec_bytes(),
{
}

/// The home directory that is resolved is `$HOME`, else `%USERPROFILE%` where
/// that is unset; it fails exactly where the one that counts is empty or neither
/// is set.
pub proof fn law_resolving_the_home_directory(
    env: Environment,
    dir: Result<Vec<u8>, PathsError>,
    e: PathsError,
    text: String,
)
    requires
        call_ensures(home, (&env,), dir),
        call_ensures(PathsError::message, (&e,), text),
    ensures
        env.home matches Some(h) ==> (dir is Ok <==> h@.len() > 0),
        env.home matches Some(h) ==> (dir matches Ok(d) ==> d@ == h@),
        env.home is None ==> (dir is Ok <==> (env.userprofile matches Some(p) && p@.len() > 0)),
        env.home is None ==> (dir matches Ok(d) ==> d@ == env.userprofile->0@),
        text@ == "could not resolve a home directory for the current user"@,
{
    law_home_comes_before_the_user_profile(env);
}

/// The config file and the directories, as they are resolved: below an override
/// that is absolute, else below the home directory in the default place.
pub proof fn law_resolving_the_directories(
    env: Environment,
    h: Result<Vec<u8>, PathsError>,
    config: Result<Vec<u8>, PathsError>,
    file: Result<Vec<u8>, PathsError>,
    data: Result<Vec<u8>, PathsError>,
)
    requires
        call_ensures(home, (&env,), h),
        call_ensures(config_dir, (&env,), config),
        call_ensures(config_path, (&env,), file),
        call_ensures(data_dir, (&env,), data),
    ensures
        file is Ok <==> config is Ok,
        file matches Ok(f) ==> f@ == env.style.joined(config->Ok_0@, "config.toml".spec_bytes()),
        env.xdg_config_home matches Some(v) ==> (env.style.absolute(v@) ==> (config matches Ok(d)
            && d@ == env.style.joined(v@, "openlogi".spec_bytes()))),
        env.xdg_data_home matches Some(v) ==> (env.style.absolute(v@) ==> (data matches Ok(d) && d@
            == env.style.joined(v@, "openlogi".spec_bytes()))),
        !(env.xdg_config_home matches Some(v) && env.style.absolute(v@)) ==> (config is Ok <==> h
            is Ok) && (config matches Ok(d) ==> d@ == env.style.joined(
            env.style.joined(h->Ok_0@, ".config".spec_bytes()),
            "openlogi".spec_bytes(),
        )),
        !(env.xdg_data_home matches Some(v) && env.style.absolute(v@)) ==> (data is Ok <==> h
            is Ok) && (data matches Ok(d) ==> d@ == env.style.joined(
            env.style.joined(
                env.style.joined(h->Ok_0@, ".local".spec_bytes()),
                "share".spec_bytes(),
            ),
            "openlogi".spec_bytes(),
        )),
{
    law_each_directory_has_its_own_variable(env);
}

/// Any base directory is resolved in the same way: an override counts where it is
/// absolute and nowhere else.
pub proof fn law_resolving_a_base_directory(
    env: Environment,
    value: Vec<u8>,
    fallback: &[&str],
    given: Result<Vec<u8>, PathsError>,
    unset: Result<Vec<u8>, PathsError>,
)
    requires
        call_ensures(xdg_base, (&env, &Some(value), fallback), given),
        call_ensures(xdg_base, (&env, &None, fallback), unset),
    ensures
        env.style.absolute(value@) ==> (given matches Ok(d) && d@ == env.style.joined(
            value@,
            "openlogi".spec_bytes(),
        )),
        !env.style.absolute(value@) ==> (given is Ok <==> unset is Ok) && (given matches Ok(d)
            ==> d@ == unset->Ok_0@),
        unset is Ok <==> env.home_dir() is Some,
        unset matches Ok(d) ==> d@ == env.style.joined(
            env.style.joined_all(
                env.home_dir()->0,
                fallback@.map_values(|s: &str| s.spec_bytes()),
            ),
            "openlogi".spec_bytes(),
        ),
{
    assert(value.deep_view() =~= value@);
    assert(segment_bytes(fallback@) =~= fallback@.map_values(|s: &str| s.spec_bytes()));
    law_the_fallback_is_below_the_home_directory(env, segment_bytes(fallback@));
}

} // verus!
