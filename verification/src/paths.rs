//! Where the files live.
//!
//! The configuration file is the one named on the command line or in the
//! environment, else `config.toml` in the platform's configuration directory.
//! The shelf and the cache each live in the platform's directory for them,
//! unless the environment names another.
use vstd::prelude::*;
use vstd::string::*;

use crate::fspath::{
    absolute, absolute_form, absolute_path, from_root, join, law_components,
    law_parent_and_file_name, made_absolute, parent, parent_of, path_join, path_key, plain_part,
    plain_parts, rooted, windows,
};
use crate::text::{has, lemma_stands_at_an_end, opt_str, opt_text};

verus! {

/// The directories and the configuration file in use.
#[derive(Debug, Clone)]
pub struct ShokaPaths {
    config_file: String,
    config_dir: String,
    state_dir: String,
    cache_dir: String,
}

impl ShokaPaths {
    /// The configuration file.
    pub closed spec fn config_file_text(self) -> Seq<char> {
        self.config_file@
    }

    /// The directory scanned for configuration files.
    pub closed spec fn config_dir_text(self) -> Seq<char> {
        self.config_dir@
    }

    /// The directory of the shelf.
    pub closed spec fn state_dir_text(self) -> Seq<char> {
        self.state_dir@
    }

    /// The directory of the cache.
    pub closed spec fn cache_dir_text(self) -> Seq<char> {
        self.cache_dir@
    }

    /// The shelf file.
    pub open spec fn state_file_text(self) -> Seq<char> {
        path_join(self.state_dir_text(), "state.toml"@)
    }

    /// The cache file.
    pub open spec fn cache_file_text(self) -> Seq<char> {
        path_join(self.cache_dir_text(), "cache.toml"@)
    }

    /// The directory scanned for `config.toml` and `config.*.toml`.
    pub fn config_dir(&self) -> (r: &str)
        ensures
            r@ == self.config_dir_text(),
    {
        self.config_dir.as_str()
    }

    /// The configuration file.
    pub fn config_file(&self) -> (r: &str)
        ensures
            r@ == self.config_file_text(),
    {
        self.config_file.as_str()
    }

    /// The directory of the shelf.
    pub fn state_dir(&self) -> (r: &str)
        ensures
            r@ == self.state_dir_text(),
    {
        self.state_dir.as_str()
    }

    /// The shelf file.
    pub fn state_file(&self) -> (r: String)
        ensures
            r@ == self.state_file_text(),
    {
        join(self.state_dir.as_str(), "state.toml")
    }

    /// The directory of the cache.
    pub fn cache_dir(&self) -> (r: &str)
        ensures
            r@ == self.cache_dir_text(),
    {
        self.cache_dir.as_str()
    }

    /// The cache file.
    pub fn cache_file(&self) -> (r: String)
        ensures
            r@ == self.cache_file_text(),
    {
        join(self.cache_dir.as_str(), "cache.toml")
    }
}

/// The platform's directories for the program.
#[derive(Debug)]
pub struct PlatformDirs {
    pub config: String,
    pub data: String,
    pub cache: String,
}

/// Why the paths cannot be told.
#[derive(Debug)]
pub enum PathsError {
    /// The platform names no directories.
    NoPlatformDirs,
    /// The configuration path cannot be made absolute.
    NotAbsolute(String),
}

impl PathsError {
    /// The text of the message.
    pub open spec fn text(self) -> Seq<char> {
        match self {
            PathsError::NoPlatformDirs => "could not determine OS data directories for shoka"@,
            PathsError::NotAbsolute(p) => "absolutising config path "@ + p@,
        }
    }

    /// The message shown to the user.
    pub fn message(&self) -> (r: String)
        ensures
            r@ == self.text(),
    {
        match self {
            PathsError::NoPlatformDirs => "could not determine OS data directories for shoka".to_owned(),
            PathsError::NotAbsolute(p) => "absolutising config path ".to_owned().concat(p.as_str()),
        }
    }
}

/// The name under which the platform's directories are asked for.
pub const APPLICATION: &'static str = "shoka";

/// The organisation under which the platform's directories are asked for.
pub const ORGANIZATION: &'static str = "yukimemi";

/// A name of lower-case ASCII letters, which no platform spells otherwise.
pub open spec fn plain_name(s: Seq<char>) -> bool {
    s.len() > 0 && forall|i: int| 0 <= i < s.len() ==> 'a' <= #[trigger] s[i] <= 'z'
}

/// `directories::ProjectDirs::from`, with its configuration, data and cache
/// directories: what the platform and the environment give, if they give
/// anything. Claimed of each is only that a plain name of the application
/// stands in it.
#[verifier::external_body]
fn platform_dirs(organization: &str, application: &str) -> (r: Option<PlatformDirs>)
    ensures
        match r {
            Some(d) => plain_name(application@) ==> has(d.config@, application@) && has(
                d.data@,
                application@,
            ) && has(d.cache@, application@),
            None => true,
        },
{
    directories::ProjectDirs::from("", organization, application).map(
        |p|
            PlatformDirs {
                config: p.config_dir().to_string_lossy().into_owned(),
                data: p.data_dir().to_string_lossy().into_owned(),
                cache: p.cache_dir().to_string_lossy().into_owned(),
            },
    )
}

impl ShokaPaths {
    /// The paths that follow from the platform's directories, the absolute
    /// configuration path where one was named, and the directories that the
    /// environment names in place of the platform's.
    pub open spec fn made_of(
        self,
        config: Seq<char>,
        data: Seq<char>,
        cache: Seq<char>,
        named: Option<Seq<char>>,
        state_dir: Option<Seq<char>>,
        cache_dir: Option<Seq<char>>,
    ) -> bool {
        &&& match named {
            Some(file) => {
                &&& self.config_file_text() == file
                &&& self.config_dir_text() == (match parent_of(file) {
                    Some(dir) => dir,
                    None => "."@,
                })
            },
            None => {
                &&& self.config_file_text() == path_join(config, "config.toml"@)
                &&& self.config_dir_text() == config
            },
        }
        &&& self.state_dir_text() == (match state_dir {
            Some(dir) => dir,
            None => data,
        })
        &&& self.cache_dir_text() == (match cache_dir {
            Some(dir) => dir,
            None => cache,
        })
    }

    /// Paths that follow from a configuration path named or not, and from the
    /// values of two environment variables, for some platform directories and
    /// some absolute forms that the machine reports.
    pub open spec fn resolved_from(
        self,
        config_override: Option<Seq<char>>,
        state_env: Option<Seq<char>>,
        cache_env: Option<Seq<char>>,
    ) -> bool {
        exists|
            config: Seq<char>,
            data: Seq<char>,
            cache: Seq<char>,
            named: Option<Seq<char>>,
            state_dir: Option<Seq<char>>,
            cache_dir: Option<Seq<char>>,
        |
            (#[trigger] self.made_of(config, data, cache, named, state_dir, cache_dir)) && has(
                config,
                APPLICATION@,
            ) && has(data, APPLICATION@) && has(cache, APPLICATION@) && is_absolute_form(
                config_override,
                named,
            ) && is_named_dir(state_env, state_dir) && is_named_dir(cache_env, cache_dir)
    }

    /// The paths that follow from the platform's directories, the absolute
    /// configuration path where one was named, and the directories that the
    /// environment names in place of the platform's.
    pub fn from_parts(
        dirs: PlatformDirs,
        named: Option<String>,
        state_dir: Option<String>,
        cache_dir: Option<String>,
    ) -> (r: Self)
        ensures
            r.made_of(
                dirs.config@,
                dirs.data@,
                dirs.cache@,
                opt_text(named),
                opt_text(state_dir),
                opt_text(cache_dir),
            ),
    {
        let PlatformDirs { config, data, cache } = dirs;
        let (config_file, config_dir) = match named {
            Some(file) => {
                let dir = match parent(file.as_str()) {
                    Some(dir) => dir,
                    None => ".".to_owned(),
                };
                (file, dir)
            },
            None => (join(config.as_str(), "config.toml"), config),
        };
        ShokaPaths {
            config_file,
            config_dir,
            state_dir: match state_dir {
                Some(dir) => dir,
                None => data,
            },
            cache_dir: match cache_dir {
                Some(dir) => dir,
                None => cache,
            },
        }
    }

    /// All paths below one directory, for callers that must not touch the
    /// user's own files.
    pub fn rooted_at(dir: &str) -> (r: Self)
        ensures
            r.config_file_text() == path_join(dir@, "config.toml"@),
            r.config_dir_text() == dir@,
            r.state_dir_text() == dir@,
            r.cache_dir_text() == dir@,
    {
        ShokaPaths {
            config_file: join(dir, "config.toml"),
            config_dir: dir.to_owned(),
            state_dir: dir.to_owned(),
            cache_dir: dir.to_owned(),
        }
    }

    /// The paths in use: with the configuration file named on the command line
    /// or in the environment, if one is, and the directories that the
    /// environment gives for the shelf and the cache, where it gives any.
    ///
    /// Refused when the platform names no directories, or when the named
    /// configuration path cannot be made absolute.
    pub fn resolve(
        config_override: Option<&str>,
        state_env: Option<&str>,
        cache_env: Option<&str>,
    ) -> (r: Result<Self, PathsError>)
        ensures
            match r {
                Ok(paths) => paths.resolved_from(
                    opt_str(config_override),
                    opt_str(state_env),
                    opt_str(cache_env),
                ),
                Err(PathsError::NoPlatformDirs) => true,
                Err(PathsError::NotAbsolute(p)) => opt_str(config_override) == Some(p@),
            },
    {
        proof {
            reveal_strlit("shoka");
            assert(plain_name(APPLICATION@));
        }
        let dirs = match platform_dirs(ORGANIZATION, APPLICATION) {
            Some(dirs) => dirs,
            None => {
                return Err(PathsError::NoPlatformDirs);
            },
        };
        let named = match config_override {
            Some(p) => match absolute(p) {
                Some(file) => Some(file),
                None => {
                    return Err(PathsError::NotAbsolute(p.to_owned()));
                },
            },
            None => None,
        };
        let state_dir = env_override(state_env);
        let cache_dir = env_override(cache_env);
        let ghost d = dirs;
        let ghost n = opt_text(named);
        let ghost s = opt_text(state_dir);
        let ghost c = opt_text(cache_dir);
        let paths = Self::from_parts(dirs, named, state_dir, cache_dir);
        assert(paths.made_of(d.config@, d.data@, d.cache@, n, s, c));
        Ok(paths)
    }
}

/// `named` is the absolute form of a path, where there is one.
pub open spec fn is_absolute_form(path: Option<Seq<char>>, named: Option<Seq<char>>) -> bool {
    match (path, named) {
        (Some(p), Some(a)) => absolute_form(p, a),
        (None, None) => true,
        _ => false,
    }
}

/// `dir` is the directory that an environment variable names, made absolute
/// where that can be done; none where the variable names none.
pub open spec fn is_named_dir(value: Option<Seq<char>>, dir: Option<Seq<char>>) -> bool {
    match dir {
        Some(d) => names_dir(value) && made_absolute(value->0, d),
        None => !names_dir(value),
    }
}

/// Whether an environment variable names a directory: it is set and not empty.
pub open spec fn names_dir(value: Option<Seq<char>>) -> bool {
    value is Some && value->0.len() > 0
}

/// The directory that an environment variable names: none when it is unset or
/// empty; otherwise its value, made absolute where that can be done.
fn env_override(value: Option<&str>) -> (r: Option<String>)
    ensures
        is_named_dir(opt_str(value), opt_text(r)),
{
    match value {
        Some(p) => {
            if p.is_empty() {
                None
            } else {
                Some(absolute_path(p))
            }
        },
        None => None,
    }
}

/// A configuration file that is named is the one in use, and its directory is
/// scanned; without one it is `config.toml` in the platform's directory, which is
/// scanned then.
pub proof fn law_configuration_in_use(
    paths: ShokaPaths,
    config: Seq<Seq<char>>,
    data: Seq<char>,
    cache: Seq<char>,
    dirs: Seq<Seq<char>>,
    name: Seq<char>,
    state_dir: Option<Seq<char>>,
    cache_dir: Option<Seq<char>>,
)
    requires
        plain_parts(config),
        plain_parts(dirs),
        plain_part(name),
    ensures
        paths.made_of(
            from_root(config),
            data,
            cache,
            Some(from_root(dirs.push(name))),
            state_dir,
            cache_dir,
        ) ==> {
            &&& paths.config_file_text() == from_root(dirs.push(name))
            &&& paths.config_dir_text() == from_root(dirs)
        },
        paths.made_of(from_root(config), data, cache, None, state_dir, cache_dir) ==> {
            &&& paths.config_file_text() == from_root(config.push("config.toml"@))
            &&& paths.config_dir_text() == from_root(config)
        },
{
    law_parent_and_file_name(dirs, name);
    lemma_config_toml();
    law_parent_and_file_name(config, "config.toml"@);
}

proof fn lemma_config_toml()
    ensures
        plain_part("config.toml"@),
        !windows("config.toml"@),
{
    reveal_strlit("config.toml");
    reveal_strlit(".");
    let s = "config.toml"@;
    assert(s[0] == 'c' && s[1] == 'o' && s[2] == 'n' && s[3] == 'f' && s[4] == 'i' && s[5] == 'g'
        && s[6] == '.' && s[7] == 't' && s[8] == 'o' && s[9] == 'm' && s[10] == 'l');
}

/// The shelf and the cache live where the environment says, each by its own
/// variable, and otherwise in the platform's directory for them.
pub proof fn law_directories_in_use(
    paths: ShokaPaths,
    config: Seq<char>,
    data: Seq<char>,
    cache: Seq<char>,
    named: Option<Seq<char>>,
    state_dir: Option<Seq<char>>,
    cache_dir: Option<Seq<char>>,
)
    requires
        paths.made_of(config, data, cache, named, state_dir, cache_dir),
    ensures
        state_dir is Some ==> paths.state_dir_text() == state_dir->0,
        state_dir is None ==> paths.state_dir_text() == data,
        cache_dir is Some ==> paths.cache_dir_text() == cache_dir->0,
        cache_dir is None ==> paths.cache_dir_text() == cache,
{
}

/// The environment names a directory by any value that is not empty, and that one:
/// a path from the root stays the path that it is.
pub proof fn law_directory_of_the_environment(value: Seq<char>, dir: Option<Seq<char>>)
    ensures
        is_named_dir(None, dir) ==> dir is None,
        value.len() == 0 && is_named_dir(Some(value), dir) ==> dir is None,
        value.len() > 0 && is_named_dir(Some(value), dir) ==> dir is Some,
        is_named_dir(Some(value), dir) && dir is Some && rooted(value) && !windows(value)
            && !windows(dir->0) ==> path_key(dir->0) == path_key(value),
{
}

/// The shelf and the cache are files of their own, each right in its directory.
pub proof fn law_files_in_use(paths: ShokaPaths, state: Seq<Seq<char>>, cache: Seq<Seq<char>>)
    requires
        plain_parts(state),
        plain_parts(cache),
        paths.state_dir_text() == from_root(state),
        paths.cache_dir_text() == from_root(cache),
    ensures
        paths.state_file_text() == from_root(state.push("state.toml"@)),
        paths.cache_file_text() == from_root(cache.push("cache.toml"@)),
        path_key(paths.state_file_text()) != path_key(paths.cache_file_text()),
{
    reveal_strlit("state.toml");
    reveal_strlit("cache.toml");
    reveal_strlit(".");
    let s = "state.toml"@;
    let c = "cache.toml"@;
    assert(s[0] == 's' && s[1] == 't' && s[2] == 'a' && s[3] == 't' && s[4] == 'e' && s[5] == '.'
        && s[6] == 't' && s[7] == 'o' && s[8] == 'm' && s[9] == 'l');
    assert(c[0] == 'c' && c[1] == 'a' && c[2] == 'c' && c[3] == 'h' && c[4] == 'e' && c[5] == '.'
        && c[6] == 't' && c[7] == 'o' && c[8] == 'm' && c[9] == 'l');
    assert(plain_part(s) && plain_part(c));
    law_parent_and_file_name(state, s);
    law_parent_and_file_name(cache, c);
    let a = state.push(s);
    let b = cache.push(c);
    assert forall|i: int| 0 <= i < a.len() implies plain_part(#[trigger] a[i]) by {
        if i < state.len() {
            assert(a[i] == state[i]);
        }
    }
    assert forall|i: int| 0 <= i < b.len() implies plain_part(#[trigger] b[i]) by {
        if i < cache.len() {
            assert(b[i] == cache[i]);
        }
    }
    law_components(a);
    law_components(b);
    assert(a.last() == s && b.last() == c);
}

/// What is said of a configuration path that cannot be made absolute names it.
pub proof fn law_message_names_the_path(e: PathsError)
    ensures
        e matches PathsError::NotAbsolute(p) ==> has(e.text(), p@),
{
    match e {
        PathsError::NotAbsolute(p) => {
            lemma_stands_at_an_end("absolutising config path "@, p@, Seq::empty());
        },
        _ => {},
    }
}

} // verus!
