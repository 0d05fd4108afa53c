//! The `store_raw_outputs` privacy notice: where its marker file lives and
//! the exact text shown the first time raw output storage is on.
//!
//! The project layer wins when both layers turn storage on; the user layer
//! is the fallback. Creating the marker atomically and printing the notice
//! happen outside this library.

use vstd::prelude::*;

verus! {

/// File name of the marker, at both layers.
pub const MARKER_FILENAME: &'static str = ".store_raw_outputs_acked";

/// `base` joined with the path `rel` (`Path::join`): `rel` itself when it is
/// absolute, else `rel` after `base` with one `/` between them when `base`
/// is non-empty and does not already end in `/`.
pub open spec fn joined_path(base: Seq<char>, rel: Seq<char>) -> Seq<char> {
    if rel.len() > 0 && rel[0] == '/' {
        rel
    } else if base.len() == 0 || base.last() == '/' {
        base + rel
    } else {
        base + seq!['/'] + rel
    }
}

/// Joins the path `rel` onto `base` as `Path::join` does.
pub fn path_join(base: &str, rel: &str) -> (r: String)
    ensures
        r@ == joined_path(base@, rel@),
{
    let rel_absolute = crate::text::starts_with_char(rel, '/');
    if rel_absolute {
        return String::from_str(rel);
    }
    let bs = crate::text::to_chars(base);
    let mut out = String::from_str(base);
    if bs.len() > 0 && bs[bs.len() - 1] != '/' {
        crate::text::push_char(&mut out, '/');
    }
    out.append(rel);
    proof {
        if bs@.len() > 0 {
            assert(bs@.last() == base@.last());
        }
    }
    out
}

/// The config file and marker of the layer that turned storage on: the
/// project's `.lacon/` directory when the project layer did (and a project
/// root is known), else the user config directory when the user layer did
/// (and it is known); `None` otherwise.
pub open spec fn marker_paths(
    project_root: Option<Seq<char>>,
    user_config_dir: Option<Seq<char>>,
    project_store_raw: bool,
    user_store_raw: bool,
) -> Option<(Seq<char>, Seq<char>)> {
    if project_store_raw {
        match project_root {
            Some(root) => Some(
                (
                    joined_path(joined_path(root, ".lacon"@), "config.yaml"@),
                    joined_path(joined_path(root, ".lacon"@), ".store_raw_outputs_acked"@),
                ),
            ),
            None => None,
        }
    } else if user_store_raw {
        match user_config_dir {
            Some(dir) => Some((joined_path(dir, "config.yaml"@), joined_path(dir, ".store_raw_outputs_acked"@))),
            None => None,
        }
    } else {
        None
    }
}

pub open spec fn opt_str(o: Option<&str>) -> Option<Seq<char>> {
    match o {
        Some(s) => Some(s@),
        None => None,
    }
}

/// Resolves the `(config path, marker path)` pair for the privacy notice
/// (see `marker_paths`).
pub fn resolve_marker_path(
    project_root: Option<&str>,
    user_config_dir: Option<&str>,
    project_store_raw: bool,
    user_store_raw: bool,
) -> (r: Option<(String, String)>)
    ensures
        match marker_paths(opt_str(project_root), opt_str(user_config_dir), project_store_raw, user_store_raw) {
            Some((c, m)) => r matches Some((rc, rm)) && rc@ == c && rm@ == m,
            None => r is None,
        },
{
    if project_store_raw {
        match project_root {
            Some(root) => {
                let dir = path_join(root, ".lacon");
                let cfg = path_join(dir.as_str(), "config.yaml");
                let marker = path_join(dir.as_str(), MARKER_FILENAME);
                Some((cfg, marker))
            },
            None => None,
        }
    } else if user_store_raw {
        match user_config_dir {
            Some(dir) => {
                let cfg = path_join(dir, "config.yaml");
                let marker = path_join(dir, MARKER_FILENAME);
                Some((cfg, marker))
            },
            None => None,
        }
    } else {
        None
    }
}

/// The notice shown the first time raw output storage is on; only the two
/// paths vary.
pub open spec fn warning_text(config_path: Seq<char>, marker_path: Seq<char>) -> Seq<char> {
    "lacon: store_raw_outputs is enabled.\n"@
        + "lacon: raw stdout/stderr will be retained at ~/.local/share/lacon/history.db\n"@
        + "lacon: for up to 3 days. Disable in "@ + config_path + " or run `rm` on the DB.\n"@
        + "lacon: this notice is shown once per project (marker: "@ + marker_path + ").\n"@
}

/// Builds the privacy notice for `config_path` and `marker_path`.
pub fn format_warning(config_path: &str, marker_path: &str) -> (s: String)
    ensures
        s@ == warning_text(config_path@, marker_path@),
{
    let mut s = String::from_str("lacon: store_raw_outputs is enabled.\n");
    s.append("lacon: raw stdout/stderr will be retained at ~/.local/share/lacon/history.db\n");
    s.append("lacon: for up to 3 days. Disable in ");
    s.append(config_path);
    s.append(" or run `rm` on the DB.\n");
    s.append("lacon: this notice is shown once per project (marker: ");
    s.append(marker_path);
    s.append(").\n");
    s
}

} // verus!
