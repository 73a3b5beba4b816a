//! Paths of the configuration files, as text.
use vstd::prelude::*;
use crate::text::{chars_of, lit, string_of};
use crate::values::cat;

verus! {

/// What `std::path::Path::parent` gives for a path (Unix rules): the path
/// without its final component, or nothing for a root or an empty path.
pub uninterp spec fn path_parent(path: Seq<char>) -> Option<Seq<char>>;

/// `Path::new(path).parent()`, as text. Only the name above is claimed of
/// the result; the text is the parent's own, since the parent of a UTF-8
/// path is UTF-8 too.
#[verifier::external_body]
fn parent_of(path: &str) -> (r: Option<String>)
    ensures
        match r {
            Some(p) => path_parent(path@) == Some(p@),
            None => path_parent(path@) is None,
        },
{
    match std::path::Path::new(path).parent() {
        Some(p) => Some(p.to_string_lossy().into_owned()),
        None => None,
    }
}

/// A relative `name` joined to `dir` as `PathBuf::push` joins it: a `/`
/// goes between them unless `dir` is empty or already ends with one.
pub open spec fn joined(dir: Seq<char>, name: Seq<char>) -> Seq<char> {
    if dir.len() == 0 {
        name
    } else if dir.last() == '/' {
        dir + name
    } else {
        dir + "/"@ + name
    }
}

/// The colors file that belongs with a configuration file whose parent
/// directory is `parent`: `colors.toml` there, or in the current directory
/// when there is no parent.
pub open spec fn colors_path_for(parent: Option<Seq<char>>) -> Seq<char> {
    match parent {
        Some(p) => joined(p, "colors.toml"@),
        None => "colors.toml"@,
    }
}

pub fn colors_path_in(parent: Option<String>) -> (r: String)
    ensures
        r@ == colors_path_for(
            match parent {
                Some(p) => Some(p@),
                None => None,
            },
        ),
{
    let name = lit("colors.toml");
    match parent {
        Some(p) => {
            let d = chars_of(p.as_str());
            if d.len() == 0 {
                string_of(&name)
            } else if d[d.len() - 1] == '/' {
                string_of(&cat(&d, &name))
            } else {
                let a = cat(&d, &lit("/"));
                string_of(&cat(&a, &name))
            }
        },
        None => string_of(&name),
    }
}

/// The colors file next to the configuration file `config_path`.
pub fn default_colors_path(config_path: &str) -> (r: String)
    ensures
        r@ == colors_path_for(path_parent(config_path@)),
{
    colors_path_in(parent_of(config_path))
}

/// The configuration path the daemon watches: the canonical form of the
/// given path where it could be resolved, else the path as given.
pub fn resolved_config_path_or_input(input: &str, canonical: Option<String>) -> (r: String)
    ensures
        r@ == match canonical {
            Some(c) => c@,
            None => input@,
        },
{
    match canonical {
        Some(c) => c,
        None => string_of(&chars_of(input)),
    }
}

/// Where the configuration file is: the `CAVAII_CONFIG` path when set;
/// else `cavaii/config.toml` under `XDG_CONFIG_HOME`; else
/// `.config/cavaii/config.toml` under `HOME`; else `cavaii.toml`.
pub open spec fn config_path_spec(
    override_path: Option<Seq<char>>,
    config_home: Option<Seq<char>>,
    home: Option<Seq<char>>,
) -> Seq<char> {
    match override_path {
        Some(p) => p,
        None => match config_home {
            Some(c) => joined(c, "cavaii/config.toml"@),
            None => match home {
                Some(h) => joined(h, ".config/cavaii/config.toml"@),
                None => "cavaii.toml"@,
            },
        },
    }
}

pub open spec fn opt_view(v: Option<&str>) -> Option<Seq<char>> {
    match v {
        Some(s) => Some(s@),
        None => None,
    }
}

fn join_text(dir: &str, name: &str) -> (r: String)
    ensures
        r@ == joined(dir@, name@),
{
    let d = chars_of(dir);
    let n = lit(name);
    if d.len() == 0 {
        string_of(&n)
    } else if d[d.len() - 1] == '/' {
        string_of(&cat(&d, &n))
    } else {
        let a = cat(&d, &lit("/"));
        string_of(&cat(&a, &n))
    }
}

/// The configuration path from the values of `CAVAII_CONFIG`,
/// `XDG_CONFIG_HOME` and `HOME` (each when set).
pub fn default_config_path(override_path: Option<&str>, config_home: Option<&str>, home: Option<&str>) -> (r:
    String)
    ensures
        r@ == config_path_spec(opt_view(override_path), opt_view(config_home), opt_view(home)),
{
    match override_path {
        Some(p) => string_of(&chars_of(p)),
        None => match config_home {
            Some(c) => join_text(c, "cavaii/config.toml"),
            None => match home {
                Some(h) => join_text(h, ".config/cavaii/config.toml"),
                None => string_of(&lit("cavaii.toml")),
            },
        },
    }
}

/// The files the overlay reads, given the configuration path as given and
/// its canonical form where it could be resolved: the canonical form, the
/// configuration path in use, and the colors file next to it.
pub fn runtime_file_paths(config_path: &str, canonical: Option<String>) -> (r: (Option<String>, String, String))
    ensures
        match canonical {
            Some(c) => r.0 matches Some(x) && x@ == c@,
            None => r.0 is None,
        },
        r.1@ == match canonical {
            Some(c) => c@,
            None => config_path@,
        },
        r.2@ == colors_path_for(path_parent(r.1@)),
{
    let active = match &canonical {
        Some(c) => string_of(&chars_of(c.as_str())),
        None => string_of(&chars_of(config_path)),
    };
    let colors = default_colors_path(active.as_str());
    (canonical, active, colors)
}

} // verus!
