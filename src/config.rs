//! User configuration, and where the configuration and the registry live.
use vstd::prelude::*;

verus! {

/// A path with `part` appended as `Path::join` does on Unix: an absolute
/// `part` replaces the base; otherwise a `/` separates the two unless the
/// base is empty or already ends with one.
pub open spec fn joined(base: Seq<char>, part: Seq<char>) -> Seq<char> {
    if part.len() > 0 && part[0] == '/' {
        part
    } else if base.len() == 0 {
        part
    } else if base.last() == '/' {
        base + part
    } else {
        base + seq!['/'] + part
    }
}

/// Appends `part` to the path `base`.
pub fn join_path(base: &str, part: &str) -> (r: String)
    ensures
        r@ == joined(base@, part@),
{
    let part_len = part.unicode_len();
    if part_len > 0 && part.get_char(0) == '/' {
        return String::from_str(part);
    }
    let base_len = base.unicode_len();
    if base_len == 0 {
        return String::from_str(part);
    }
    if base.get_char(base_len - 1) == '/' {
        return String::from_str(base).concat(part);
    }
    proof {
        reveal_strlit("/");
    }
    let r = String::from_str(base).concat("/").concat(part);
    assert(r@ =~= base@ + seq!['/'] + part@);
    r
}

/// Directories for configuration and data that the platform assigns to this
/// tool, as text: the configuration directory and the data directory.
/// Relies on directories' `ProjectDirs::from("", "", "prj")` with
/// `config_dir` and `data_dir`; the answer depends on the environment, and
/// is `None` where no home directory can be found.
#[verifier::external_body]
fn project_dirs() -> (r: Option<(String, String)>) {
    let dirs = directories::ProjectDirs::from("", "", "prj")?;
    Some((
        dirs.config_dir().to_string_lossy().to_string(),
        dirs.data_dir().to_string_lossy().to_string(),
    ))
}

/// User configuration. Every field has a default, so the file is optional.
#[derive(Debug)]
pub struct Config {
    /// Name of the shell function that the init script defines.
    pub shell_cmd: String,
    /// Default depth bound of a scan.
    pub scan_depth: usize,
    /// Where the registry is stored, overriding the platform's data
    /// directory.
    pub database_path: Option<String>,
}

pub open spec fn default_shell_cmd_text() -> Seq<char> {
    "prjp"@
}

/// The default name of the shell function.
pub fn default_shell_cmd() -> (r: String)
    ensures
        r@ == default_shell_cmd_text(),
{
    String::from_str("prjp")
}

/// The default depth bound of a scan.
pub fn default_scan_depth() -> (r: usize)
    ensures
        r == 3,
{
    3
}

impl Default for Config {
    fn default() -> (r: Config)
        ensures
            r.shell_cmd@ == default_shell_cmd_text(),
            r.scan_depth == 3,
            r.database_path is None,
    {
        Config { shell_cmd: default_shell_cmd(), scan_depth: default_scan_depth(), database_path: None }
    }
}

impl Config {
    /// Where the configuration file lives: `config.toml` in the platform's
    /// configuration directory; `None` where the platform assigns none.
    pub fn config_path() -> (r: Option<String>)
        ensures
            r matches Some(p) ==> exists|dir: Seq<char>| p@ == joined(dir, "config.toml"@),
    {
        match project_dirs() {
            Some((config_dir, _)) => Some(Self::config_path_in(config_dir.as_str())),
            None => None,
        }
    }

    /// The configuration file's location given the platform's configuration
    /// directory: `config.toml` in `config_dir`.
    pub fn config_path_in(config_dir: &str) -> (r: String)
        ensures
            r@ == joined(config_dir@, "config.toml"@),
    {
        join_path(config_dir, "config.toml")
    }

    /// Where the registry lives: the configured path if there is one, else
    /// `projects.toml` in the platform's data directory; `None` where neither
    /// is available.
    pub fn database_path(&self) -> (r: Option<String>)
        ensures
            self.database_path matches Some(p) ==> r == Some(p),
            self.database_path is None ==> (r matches Some(p) ==> exists|dir: Seq<char>| p@ == joined(dir, "projects.toml"@)),
    {
        match &self.database_path {
            Some(p) => Some(p.clone()),
            None => match project_dirs() {
                Some((_, data_dir)) => Some(self.database_path_in(data_dir.as_str())),
                None => None,
            },
        }
    }

    /// The registry's location given the platform's data directory: the
    /// configured path if there is one, else `projects.toml` in `data_dir`.
    pub fn database_path_in(&self, data_dir: &str) -> (r: String)
        ensures
            self.database_path matches Some(p) ==> r == p,
            self.database_path is None ==> r@ == joined(data_dir@, "projects.toml"@),
    {
        match &self.database_path {
            Some(p) => p.clone(),
            None => join_path(data_dir, "projects.toml"),
        }
    }
}

} // verus!
