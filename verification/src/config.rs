//! Where the configuration file is looked for, and which of the places
//! wins.

use crate::session::{join_path, path_join};
use crate::text::{chars_of, extend, strings_view, text_of};
use vstd::prelude::*;

verus! {

/// Why no configuration file was found.
#[derive(Clone, Debug, PartialEq, Eq)]
pub enum ConfigError {
    /// None of the places holds the file; `searched` lists them, separated
    /// by `", "`.
    NotFound { searched: String },
}

/// The text of an optional string slice.
pub open spec fn slice_text(o: Option<&str>) -> Option<Seq<char>> {
    match o {
        Some(s) => Some(s@),
        None => None,
    }
}

/// The place of the file in the directory `dir`, if there is a directory.
pub open spec fn in_dir(dir: Option<Seq<char>>) -> Seq<Seq<char>> {
    match dir {
        Some(d) => seq![path_join(d, "config.toml"@)],
        None => Seq::empty(),
    }
}

/// The places where the configuration file is looked for, first place
/// first: the directory named for it, the current directory, the user's
/// configuration directory (the XDG one, else `.config` under home), and
/// `.cmdhub` under home.
pub open spec fn candidate_paths(
    config_dir: Option<Seq<char>>,
    current_dir: Option<Seq<char>>,
    xdg_home: Option<Seq<char>>,
    home: Option<Seq<char>>,
) -> Seq<Seq<char>> {
    in_dir(config_dir) + in_dir(current_dir) + in_dir(
        match xdg_home {
            Some(x) => Some(path_join(x, "cmdhub"@)),
            None => match home {
                Some(h) => Some(path_join(path_join(h, ".config"@), "cmdhub"@)),
                None => None,
            },
        },
    ) + in_dir(
        match home {
            Some(h) => Some(path_join(h, ".cmdhub"@)),
            None => None,
        },
    )
}

/// Whether the probe found the `i`-th place to exist. A place without a
/// probe counts as absent.
pub open spec fn is_present(present: Seq<bool>, i: int) -> bool {
    0 <= i < present.len() && present[i]
}

/// Index of the first of `n` places that exists, or `n` when none does.
pub open spec fn first_present(present: Seq<bool>, n: int) -> int
    decreases n,
{
    if n <= 0 {
        0
    } else {
        let before = first_present(present, n - 1);
        if before < n - 1 {
            before
        } else if is_present(present, n - 1) {
            n - 1
        } else {
            n
        }
    }
}

/// The texts joined by `", "`.
pub open spec fn listed(parts: Seq<Seq<char>>) -> Seq<char>
    decreases parts.len(),
{
    if parts.len() == 0 {
        Seq::empty()
    } else if parts.len() == 1 {
        parts[0]
    } else {
        listed(parts.drop_last()) + ", "@ + parts.last()
    }
}

/// `first_present` names the first place that exists.
pub proof fn lemma_first_present(present: Seq<bool>, n: int)
    requires
        0 <= n,
    ensures
        0 <= first_present(present, n) <= n,
        first_present(present, n) < n ==> is_present(present, first_present(present, n)),
        forall|j: int| 0 <= j < first_present(present, n) ==> !is_present(present, j),
    decreases n,
{
    if n > 0 {
        lemma_first_present(present, n - 1);
    }
}

/// A first existing place found by scanning is the one `first_present`
/// names.
pub proof fn lemma_first_present_scan(present: Seq<bool>, n: int, i: int)
    requires
        0 <= i <= n,
        forall|j: int| 0 <= j < i ==> !is_present(present, j),
        i == n || is_present(present, i),
    ensures
        first_present(present, n) == i,
    decreases n,
{
    if n > 0 {
        if i == n {
            lemma_first_present_scan(present, n - 1, n - 1);
        } else if i < n - 1 {
            lemma_first_present_scan(present, n - 1, i);
        } else {
            lemma_first_present_scan(present, n - 1, n - 1);
        }
    }
}

impl ConfigError {
    /// The error in words.
    pub fn message(&self) -> (text: String)
        ensures
            text@ == match self {
                ConfigError::NotFound { searched } => "config.toml not found; searched: "@
                    + searched@,
            },
    {
        match self {
            ConfigError::NotFound { searched } => {
                let mut out = chars_of("config.toml not found; searched: ");
                let tail = chars_of(searched.as_str());
                extend(&mut out, &tail);
                text_of(&out)
            },
        }
    }
}

/// Appends the place of the file in `dir`, if there is a directory.
fn push_in_dir(out: &mut Vec<String>, dir: Option<&str>)
    ensures
        strings_view(final(out)@) == strings_view(old(out)@) + in_dir(slice_text(dir)),
{
    match dir {
        Some(d) => {
            let path = join_path(d, "config.toml");
            out.push(path);
        },
        None => {},
    }
}

/// The places where the configuration file is looked for, first place
/// first, given the directory named for it, the current directory, the XDG
/// configuration home and the home directory, as far as each is known.
pub fn config_candidates(
    config_dir: Option<&str>,
    current_dir: Option<&str>,
    xdg_home: Option<&str>,
    home: Option<&str>,
) -> (paths: Vec<String>)
    ensures
        strings_view(paths@) == candidate_paths(
            slice_text(config_dir),
            slice_text(current_dir),
            slice_text(xdg_home),
            slice_text(home),
        ),
{
    let mut paths: Vec<String> = Vec::new();
    push_in_dir(&mut paths, config_dir);
    push_in_dir(&mut paths, current_dir);
    match xdg_home {
        Some(x) => {
            let dir = join_path(x, "cmdhub");
            push_in_dir(&mut paths, Some(dir.as_str()));
        },
        None => match home {
            Some(h) => {
                let dot = join_path(h, ".config");
                let dir = join_path(dot.as_str(), "cmdhub");
                push_in_dir(&mut paths, Some(dir.as_str()));
            },
            None => {
                push_in_dir(&mut paths, None);
            },
        },
    }
    match home {
        Some(h) => {
            let dir = join_path(h, ".cmdhub");
            push_in_dir(&mut paths, Some(dir.as_str()));
        },
        None => {
            push_in_dir(&mut paths, None);
        },
    }
    paths
}

/// The texts of `list` joined by `", "`.
pub fn join_listed(list: &Vec<String>) -> (r: String)
    ensures
        r@ == listed(strings_view(list@)),
{
    let mut out: Vec<char> = Vec::new();
    let mut i: usize = 0;
    while i < list.len()
        invariant
            i <= list@.len(),
            out@ == listed(strings_view(list@).take(i as int)),
        decreases list@.len() - i,
    {
        let ghost seen = strings_view(list@).take(i as int);
        let ghost now = strings_view(list@).take(i + 1);
        assert(now.drop_last() =~= seen);
        if i > 0 {
            let sep = chars_of(", ");
            extend(&mut out, &sep);
        }
        let part = chars_of(list[i].as_str());
        extend(&mut out, &part);
        i += 1;
    }
    assert(strings_view(list@).take(list@.len() as int) =~= strings_view(list@));
    text_of(&out)
}

/// The configuration file to use: the first of `candidates` whose probe
/// in `present` says that it exists. Where none exists, the error lists
/// the places searched.
pub fn resolve_config_path(candidates: &Vec<String>, present: &Vec<bool>) -> (r: Result<
    String,
    ConfigError,
>)
    ensures
        match r {
            Ok(path) => {
                let i = first_present(present@, candidates@.len() as int);
                &&& 0 <= i < candidates@.len()
                &&& path@ == candidates@[i]@
                &&& is_present(present@, i)
                &&& forall|j: int| 0 <= j < i ==> !is_present(present@, j)
            },
            Err(ConfigError::NotFound { searched }) => {
                &&& first_present(present@, candidates@.len() as int) == candidates@.len()
                &&& searched@ == listed(strings_view(candidates@))
            },
        },
{
    let n = candidates.len();
    let mut i: usize = 0;
    while i < n && !(i < present.len() && present[i])
        invariant
            i <= n,
            n == candidates@.len(),
            forall|j: int| 0 <= j < i ==> !is_present(present@, j),
        decreases n - i,
    {
        i += 1;
    }
    proof {
        lemma_first_present_scan(present@, n as int, i as int);
        lemma_first_present(present@, n as int);
    }
    if i < n {
        Ok(candidates[i].clone())
    } else {
        Err(ConfigError::NotFound { searched: join_listed(candidates) })
    }
}

} // verus!
