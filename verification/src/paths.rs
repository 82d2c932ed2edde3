//! File-system paths as text: joining components the way `PathBuf::join`
//! does on Unix, and where the configuration directory lies.
use vstd::prelude::*;
use crate::text::{chars_of, push_char};

verus! {

/// `base` joined with `part` as `PathBuf::join` does on Unix: an absolute
/// `part` replaces `base`; otherwise a `/` goes between them unless `base` is
/// empty or already ends with one.
pub open spec fn join_spec(base: Seq<char>, part: Seq<char>) -> Seq<char> {
    if part.len() > 0 && part[0] == '/' {
        part
    } else if base.len() > 0 && base.last() != '/' {
        base.push('/') + part
    } else {
        base + part
    }
}

/// `base` joined with `part` (see `join_spec`).
pub fn join(base: &str, part: &str) -> (r: String)
    ensures
        r@ == join_spec(base@, part@),
{
    let vb = chars_of(base);
    let vp = chars_of(part);
    if vp.len() > 0 && vp[0] == '/' {
        return part.to_owned();
    }
    let mut r = base.to_owned();
    if vb.len() > 0 && vb[vb.len() - 1] != '/' {
        push_char(&mut r, '/');
    }
    r.append(part);
    r
}

/// The configuration directory: `$XDG_CONFIG_HOME/clocktui` when that
/// variable is set, else `$HOME/.config/clocktui`.
pub open spec fn config_dir_spec(xdg_config_home: Option<Seq<char>>, home: Option<Seq<char>>) -> Result<
    Seq<char>,
    Seq<char>,
> {
    match xdg_config_home {
        Some(x) => Ok(join_spec(x, "clocktui"@)),
        None => match home {
            Some(h) => Ok(join_spec(join_spec(h, ".config"@), "clocktui"@)),
            None => Err("HOME environment variable is not set"@),
        },
    }
}

/// The characters of an optional string.
pub open spec fn opt_view(s: Option<String>) -> Option<Seq<char>> {
    match s {
        Some(t) => Some(t@),
        None => None,
    }
}

/// The characters of a textual result.
pub open spec fn result_view(r: Result<String, String>) -> Result<Seq<char>, Seq<char>> {
    match r {
        Ok(t) => Ok(t@),
        Err(e) => Err(e@),
    }
}

/// The configuration directory, given the values of `XDG_CONFIG_HOME` and
/// `HOME` (`None` where a variable is not set).
pub fn config_dir_from(xdg_config_home: Option<String>, home: Option<String>) -> (r: Result<
    String,
    String,
>)
    ensures
        result_view(r) == config_dir_spec(opt_view(xdg_config_home), opt_view(home)),
{
    match xdg_config_home {
        Some(x) => Ok(join(x.as_str(), "clocktui")),
        None => match home {
            Some(h) => {
                let dot_config = join(h.as_str(), ".config");
                Ok(join(dot_config.as_str(), "clocktui"))
            },
            None => Err("HOME environment variable is not set".to_owned()),
        },
    }
}

/// The configuration file, `config.toml` in the configuration directory;
/// a failure to find the directory passes through.
pub fn config_file_path(config_dir: Result<String, String>) -> (r: Result<String, String>)
    ensures
        result_view(r) == match result_view(config_dir) {
            Ok(d) => Ok(join_spec(d, "config.toml"@)),
            Err(e) => Err(e),
        },
{
    match config_dir {
        Ok(d) => Ok(join(d.as_str(), "config.toml")),
        Err(e) => Err(e),
    }
}

} // verus!
