//! The executable search path handed to the agent process: the inherited
//! one, followed by the usual installation directories that it lacks.

use vstd::prelude::*;
use crate::registry::{ids_view, opt_view, contains_id};
use crate::text::{push_char, push_str, is_blank, blank};

verus! {

/// The pieces of `s` between colons, empty ones included.
pub open spec fn pieces(s: Seq<char>) -> Seq<Seq<char>>
    decreases s.len(),
{
    if s.len() == 0 {
        seq![Seq::empty()]
    } else {
        let p = pieces(s.drop_last());
        if s.last() == ':' {
            p.push(Seq::empty())
        } else {
            p.update(p.len() - 1, p.last().push(s.last()))
        }
    }
}

/// Holds of non-empty pieces.
pub open spec fn non_empty() -> spec_fn(Seq<char>) -> bool {
    |x: Seq<char>| x.len() > 0
}

/// The directories of a colon-separated search path, empty entries dropped.
pub open spec fn path_entries(s: Seq<char>) -> Seq<Seq<char>> {
    pieces(s).filter(non_empty())
}

/// `list` followed by each of `extras` that it does not hold yet, in order.
pub open spec fn add_missing(list: Seq<Seq<char>>, extras: Seq<Seq<char>>) -> Seq<Seq<char>>
    decreases extras.len(),
{
    if extras.len() == 0 {
        list
    } else {
        let l = add_missing(list, extras.drop_last());
        if l.contains(extras.last()) {
            l
        } else {
            l.push(extras.last())
        }
    }
}

/// The entries joined with colons.
pub open spec fn joined(list: Seq<Seq<char>>) -> Seq<char>
    decreases list.len(),
{
    if list.len() == 0 {
        Seq::empty()
    } else if list.len() == 1 {
        list[0]
    } else {
        joined(list.drop_last()) + seq![':'] + list.last()
    }
}

/// The common installation directories, always considered.
pub open spec fn common_dirs() -> Seq<Seq<char>> {
    seq!["/opt/homebrew/bin"@, "/usr/local/bin"@, "/usr/bin"@, "/bin"@, "/usr/sbin"@, "/sbin"@]
}

/// The tool directories under a home directory.
pub open spec fn home_dirs(home: Seq<char>) -> Seq<Seq<char>> {
    seq![
        home + "/.local/bin"@,
        home + "/.local/share/mise/shims"@,
        home + "/.cargo/bin"@,
        home + "/.bun/bin"@,
    ]
}

/// Every directory considered after the inherited ones: the common ones;
/// with a home directory, its tool directories and the per-version runtime
/// directories found under it; and the directory of a configured binary.
pub open spec fn extra_dirs(
    home: Option<Seq<char>>,
    version_bins: Seq<Seq<char>>,
    bin_dir: Option<Seq<char>>,
) -> Seq<Seq<char>> {
    common_dirs() + match home {
        Some(h) => home_dirs(h) + version_bins,
        None => Seq::empty(),
    } + match bin_dir {
        Some(d) => seq![d],
        None => Seq::empty(),
    }
}

/// The merged search path: the inherited entries, then the missing extras.
pub open spec fn merged_entries(
    inherited: Seq<char>,
    home: Option<Seq<char>>,
    version_bins: Seq<Seq<char>>,
    bin_dir: Option<Seq<char>>,
) -> Seq<Seq<char>> {
    add_missing(path_entries(inherited), extra_dirs(home, version_bins, bin_dir))
}

pub proof fn lemma_pieces_non_empty(s: Seq<char>)
    ensures
        pieces(s).len() >= 1,
    decreases s.len(),
{
    if s.len() > 0 {
        lemma_pieces_non_empty(s.drop_last());
    }
}

/// Splits a colon-separated search path; see `path_entries`.
pub fn split_path(s: &str) -> (r: Vec<String>)
    ensures
        ids_view(r@) == path_entries(s@),
{
    let n = s.unicode_len();
    let mut out: Vec<String> = Vec::new();
    let mut cur = String::new();
    let ghost mut done: Seq<Seq<char>> = Seq::empty();
    let mut i: usize = 0;
    assert(s@.subrange(0, 0) =~= Seq::<char>::empty());
    assert(pieces(Seq::<char>::empty()) =~= done.push(cur@));
    assert(ids_view(out@) =~= done.filter(non_empty())) by {
        reveal(Seq::filter);
    }
    while i < n
        invariant
            n == s@.len(),
            i <= n,
            pieces(s@.subrange(0, i as int)) == done.push(cur@),
            ids_view(out@) == done.filter(non_empty()),
        decreases n - i,
    {
        let c = s.get_char(i);
        let ghost prefix = s@.subrange(0, i as int);
        assert(s@.subrange(0, i + 1).drop_last() =~= prefix);
        if c == ':' {
            proof {
                done.lemma_filter_push(cur@, non_empty());
            }
            if cur.unicode_len() > 0 {
                out.push(cur);
                assert(ids_view(out@) =~= done.filter(non_empty()).push(cur@));
            }
            proof {
                done = done.push(cur@);
            }
            cur = String::new();
            assert(pieces(s@.subrange(0, i + 1)) =~= done.push(cur@));
        } else {
            let ghost before = cur@;
            push_char(&mut cur, c);
            assert(pieces(s@.subrange(0, i + 1)) =~= done.push(cur@));
        }
        i = i + 1;
    }
    assert(s@.subrange(0, n as int) =~= s@);
    proof {
        done.lemma_filter_push(cur@, non_empty());
    }
    if cur.unicode_len() > 0 {
        out.push(cur);
        assert(ids_view(out@) =~= done.filter(non_empty()).push(cur@));
    }
    out
}

/// Joins directories with colons; see `joined`.
pub fn join_path_list(list: &Vec<String>) -> (r: String)
    ensures
        r@ == joined(ids_view(list@)),
{
    let mut r = String::new();
    let mut i: usize = 0;
    while i < list.len()
        invariant
            i <= list@.len(),
            r@ == joined(ids_view(list@.take(i as int))),
        decreases list@.len() - i,
    {
        let ghost before = ids_view(list@.take(i as int));
        assert(ids_view(list@.take(i + 1)).drop_last() =~= before);
        assert(ids_view(list@.take(i + 1)).last() == list@[i as int]@);
        if i > 0 {
            push_char(&mut r, ':');
        } else {
            assert(before.len() == 0);
        }
        push_str(&mut r, list[i].as_str());
        i = i + 1;
    }
    assert(list@.take(i as int) =~= list@);
    r
}

/// Appends `d` unless the list holds it already.
fn add_if_missing(list: &mut Vec<String>, d: String)
    ensures
        ids_view(final(list)@) == if ids_view(old(list)@).contains(d@) {
            ids_view(old(list)@)
        } else {
            ids_view(old(list)@).push(d@)
        },
{
    if !contains_id(list, d.as_str()) {
        list.push(d);
        assert(ids_view(list@) =~= ids_view(old(list)@).push(d@));
    }
}

/// A copy of `a` followed by `b`.
fn concat(a: &str, b: &str) -> (r: String)
    ensures
        r@ == a@ + b@,
{
    let mut r = String::new();
    push_str(&mut r, a);
    push_str(&mut r, b);
    r
}

/// The search path for the agent process: the entries of the inherited
/// path `inherited`, then those of the extra directories it lacks; nothing
/// when that leaves no entry at all.
pub fn merge_search_path(
    inherited: &str,
    home: Option<&str>,
    version_bins: &Vec<String>,
    bin_dir: Option<&str>,
) -> (r: Option<String>)
    ensures
        ({
            let l = merged_entries(
                inherited@,
                match home {
                    Some(h) => Some(h@),
                    None => None,
                },
                ids_view(version_bins@),
                match bin_dir {
                    Some(d) => Some(d@),
                    None => None,
                },
            );
            match r {
                Some(s) => l.len() > 0 && s@ == joined(l),
                None => l.len() == 0,
            }
        }),
{
    let ghost hv = match home {
        Some(h) => Some(h@),
        None => None,
    };
    let ghost bv = match bin_dir {
        Some(d) => Some(d@),
        None => None,
    };
    let mut extras: Vec<String> = Vec::new();
    extras.push("/opt/homebrew/bin".to_string());
    extras.push("/usr/local/bin".to_string());
    extras.push("/usr/bin".to_string());
    extras.push("/bin".to_string());
    extras.push("/usr/sbin".to_string());
    extras.push("/sbin".to_string());
    assert(ids_view(extras@) =~= common_dirs());
    match home {
        Some(h) => {
            extras.push(concat(h, "/.local/bin"));
            extras.push(concat(h, "/.local/share/mise/shims"));
            extras.push(concat(h, "/.cargo/bin"));
            extras.push(concat(h, "/.bun/bin"));
            let ghost base = ids_view(extras@);
            let mut k: usize = 0;
            while k < version_bins.len()
                invariant
                    k <= version_bins@.len(),
                    ids_view(extras@) == base + ids_view(version_bins@.take(k as int)),
                decreases version_bins@.len() - k,
            {
                let ghost prev = ids_view(extras@);
                extras.push(version_bins[k].clone());
                assert(ids_view(extras@) =~= prev.push(version_bins@[k as int]@));
                assert(ids_view(version_bins@.take(k + 1)) =~= ids_view(version_bins@.take(k as int)).push(
                    version_bins@[k as int]@,
                ));
                assert(ids_view(extras@) =~= base + ids_view(version_bins@.take(k + 1)));
                k = k + 1;
            }
            assert(version_bins@.take(k as int) =~= version_bins@);
            assert(ids_view(extras@) =~= common_dirs() + (home_dirs(h@) + ids_view(version_bins@)));
        },
        None => {
            assert(ids_view(extras@) =~= common_dirs() + Seq::<Seq<char>>::empty());
        },
    }
    let ghost mid = ids_view(extras@);
    match bin_dir {
        Some(d) => {
            extras.push(d.to_string());
            assert(ids_view(extras@) =~= mid + seq![d@]);
        },
        None => {
            assert(ids_view(extras@) =~= mid + Seq::<Seq<char>>::empty());
        },
    }
    assert(ids_view(extras@) == extra_dirs(hv, ids_view(version_bins@), bv));
    let mut paths = split_path(inherited);
    let mut j: usize = 0;
    while j < extras.len()
        invariant
            j <= extras@.len(),
            ids_view(paths@) == add_missing(path_entries(inherited@), ids_view(extras@.take(j as int))),
        decreases extras@.len() - j,
    {
        proof {
            assert(ids_view(extras@.take(j + 1)).drop_last() =~= ids_view(extras@.take(j as int)));
        }
        add_if_missing(&mut paths, extras[j].clone());
        j = j + 1;
    }
    assert(extras@.take(j as int) =~= extras@);
    if paths.len() == 0 {
        None
    } else {
        Some(join_path_list(&paths))
    }
}

/// The directory part of a path, as `Path::parent` gives it.
pub uninterp spec fn parent_of(p: Seq<char>) -> Option<Seq<char>>;

/// Relies on `Path::parent`: the path without its final component, or
/// nothing for a root or an empty path; converted lossily to text.
#[verifier::external_body]
fn parent_dir(p: &str) -> (r: Option<String>)
    ensures
        opt_view(r) == parent_of(p@),
{
    std::path::Path::new(p).parent().map(|d| d.to_string_lossy().to_string())
}

/// The search path for the agent process, with the directory of the
/// configured binary `claude_bin` (when it is not blank) among the extras.
pub fn build_node_path_env(
    inherited: &str,
    home: Option<&str>,
    version_bins: &Vec<String>,
    claude_bin: Option<&str>,
) -> (r: Option<String>)
    ensures
        ({
            let bin_dir = match claude_bin {
                Some(b) => if blank(b@) {
                    None
                } else {
                    parent_of(b@)
                },
                None => None,
            };
            let l = merged_entries(
                inherited@,
                match home {
                    Some(h) => Some(h@),
                    None => None,
                },
                ids_view(version_bins@),
                bin_dir,
            );
            match r {
                Some(s) => l.len() > 0 && s@ == joined(l),
                None => l.len() == 0,
            }
        }),
{
    let parent = match claude_bin {
        Some(b) => if is_blank(b) {
            None
        } else {
            parent_dir(b)
        },
        None => None,
    };
    match parent {
        Some(d) => merge_search_path(inherited, home, version_bins, Some(d.as_str())),
        None => merge_search_path(inherited, home, version_bins, None),
    }
}

} // verus!
