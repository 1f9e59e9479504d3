//! Deriving Gerrit's REST base URL from a clone's `origin` remote.
//!
//! A change id names no repository, so the clone the tool runs in supplies the
//! Gerrit. Derivation is a default, never a guarantee: an explicit override
//! always wins, and a failure reports the URL that was derived.

use vstd::prelude::*;
use vstd::string::*;
use crate::text::{contains_seq, lemma_first_occurrence, chars_of, chars_range, find, find_char, rfind_char, ends_with, ends_with_exec, first_index_of, last_index_of, first_occurrence, lemma_first_index_of, lemma_last_index_of, occurs_at, push_all, push_str};
use crate::gerrit::comment::opt_view;
use crate::gerrit::http::trim_trailing_slashes;

verus! {

/// `remote` with any `user@` credential prefix removed from its authority.
pub open spec fn without_user(rest: Seq<char>) -> Seq<char> {
    match last_index_of(rest, '@') {
        Some(j) => rest.skip(j + 1),
        None => rest,
    }
}

/// The authority (up to the first `/`) and the path (from that `/` on).
pub open spec fn split_authority(rest: Seq<char>) -> (Seq<char>, Seq<char>) {
    match first_index_of(rest, '/') {
        Some(k) => (rest.take(k), rest.skip(k)),
        None => (rest, Seq::empty()),
    }
}

/// The authority with Gerrit's conventional SSH port removed.
pub open spec fn strip_ssh_port(authority: Seq<char>) -> Seq<char> {
    if ends_with(authority, ":29418"@) {
        authority.take(authority.len() - ":29418"@.len())
    } else {
        authority
    }
}

/// Everything before the first `/a/` of the path: the root of a Gerrit hosted
/// under a subpath.
pub open spec fn subpath_prefix(path: Seq<char>) -> Seq<char> {
    match first_occurrence(path, "/a/"@) {
        Some(idx) => path.take(idx),
        None => Seq::empty(),
    }
}

/// What follows the first `://` of `url`.
pub open spec fn after_scheme(url: Seq<char>) -> Option<Seq<char>> {
    match first_occurrence(url, "://"@) {
        Some(i) => Some(url.skip(i + "://"@.len())),
        None => None,
    }
}

/// The host a remote names, once the user and the Gerrit SSH port are gone.
pub open spec fn remote_host(rest: Seq<char>) -> Seq<char> {
    strip_ssh_port(split_authority(without_user(rest)).0)
}

/// The REST base URL derived from a remote URL.
pub open spec fn spec_derive(remote: Seq<char>) -> Option<Seq<char>> {
    match after_scheme(remote) {
        None => None,
        Some(rest) => {
            let host = remote_host(rest);
            let path = split_authority(without_user(rest)).1;
            if host.len() == 0 {
                None
            } else {
                Some("https://"@ + host + subpath_prefix(path) + "/"@)
            }
        },
    }
}

/// The host of a base URL: what lies between `://` and the next `/`.
pub open spec fn spec_host_of(base: Seq<char>) -> Option<Seq<char>> {
    match after_scheme(base) {
        None => None,
        Some(rest) => {
            let host = split_authority(rest).0;
            if host.len() == 0 {
                None
            } else {
                Some(host)
            }
        },
    }
}

/// Derive the REST base URL from a remote URL, always in an `https://…/`
/// form with a trailing slash. The host survives, Gerrit's SSH port does not,
/// and a Gerrit hosted under a subpath is recovered when the remote carries
/// the `/a/` segment. A remote without a scheme yields nothing.
#[verifier::spinoff_prover]
pub fn derive(remote_url: &str) -> (r: Option<String>)
    ensures
        opt_view(r) == spec_derive(remote_url@),
{
    let v = chars_of(remote_url);
    let sep = chars_of("://");
    let i = match find(v.as_slice(), sep.as_slice()) {
        Some(i) => i,
        None => return None,
    };
    let n: usize = v.len();
    assert(occurs_at(v@, sep@, i as int));
    let rest = chars_range(v.as_slice(), i + sep.len(), n);
    assert(rest@ == remote_url@.skip(i + "://"@.len()));
    let rest = match rfind_char(rest.as_slice(), '@') {
        Some(j) => {
            proof { lemma_last_index_of(rest@, '@'); }
            chars_range(rest.as_slice(), j + 1, rest.len())
        },
        None => rest,
    };
    let ghost rest_spec = rest@;
    let (authority, path) = match find_char(rest.as_slice(), '/') {
        Some(k) => {
            proof { lemma_first_index_of(rest@, '/'); }
            (chars_range(rest.as_slice(), 0, k), chars_range(rest.as_slice(), k, rest.len()))
        },
        None => (rest, Vec::new()),
    };
    assert(authority@ == split_authority(rest_spec).0);
    assert(path@ == split_authority(rest_spec).1);
    let port = chars_of(":29418");
    let host = if ends_with_exec(authority.as_slice(), port.as_slice()) {
        chars_range(authority.as_slice(), 0, authority.len() - port.len())
    } else {
        authority
    };
    if host.len() == 0 {
        return None;
    }
    let aseg = chars_of("/a/");
    let prefix = match find(path.as_slice(), aseg.as_slice()) {
        Some(idx) => chars_range(path.as_slice(), 0, idx),
        None => Vec::new(),
    };
    let mut out = String::new();
    push_str(&mut out, "https://");
    push_all(&mut out, host.as_slice());
    push_all(&mut out, prefix.as_slice());
    push_str(&mut out, "/");
    Some(out)
}

/// The host of a derived base URL, for the credential lookup and error text.
pub fn host_of(base_url: &str) -> (r: Option<&str>)
    ensures
        match r {
            Some(h) => spec_host_of(base_url@) == Some(h@),
            None => spec_host_of(base_url@) is None,
        },
{
    let v = chars_of(base_url);
    let sep = chars_of("://");
    let i = match find(v.as_slice(), sep.as_slice()) {
        Some(i) => i,
        None => return None,
    };
    let n = v.len();
    assert(occurs_at(v@, sep@, i as int));
    let start = i + sep.len();
    let rest = chars_range(v.as_slice(), start, v.len());
    let end = match find_char(rest.as_slice(), '/') {
        Some(k) => {
            proof { lemma_first_index_of(rest@, '/'); }
            start + k
        },
        None => v.len(),
    };
    if end == start {
        return None;
    }
    let host = base_url.substring_char(start, end);
    assert(host@ =~= split_authority(rest@).0);
    Some(host)
}

/// Where a remote's path names the project: after the first `/a/` segment
/// when there is one (everything before it is the Gerrit root), otherwise
/// after the leading `/`.
pub open spec fn project_path(path: Seq<char>) -> Seq<char> {
    match first_occurrence(path, "/a/"@) {
        Some(i) => path.skip(i + "/a/"@.len()),
        None => if path.len() > 0 && path[0] == '/' { path.skip(1) } else { path },
    }
}

/// `p` without a trailing `.git`.
pub open spec fn strip_git_suffix(p: Seq<char>) -> Seq<char> {
    if ends_with(p, ".git"@) {
        p.take(p.len() - ".git"@.len())
    } else {
        p
    }
}

/// The Gerrit project a remote URL names, if it names one.
pub open spec fn spec_project_of(remote: Seq<char>) -> Option<Seq<char>> {
    match after_scheme(remote) {
        None => None,
        Some(rest) => {
            let p = strip_git_suffix(trim_trailing_slashes(project_path(split_authority(without_user(rest)).1)));
            if p.len() == 0 {
                None
            } else {
                Some(p)
            }
        },
    }
}

/// The Gerrit project a clone's remote names: the remote's path after the
/// `/a/` segment (or after its leading `/`), without trailing slashes or a
/// `.git` suffix. `https://gerrit.corp/a/platform/base` names
/// `platform/base`; a remote without a scheme or a path names none.
#[verifier::spinoff_prover]
pub fn project_of(remote_url: &str) -> (r: Option<String>)
    ensures
        opt_view(r) == spec_project_of(remote_url@),
{
    proof {
        reveal_strlit("/a/");
        reveal_strlit(".git");
    }
    let v = chars_of(remote_url);
    let sep = chars_of("://");
    let i = match find(v.as_slice(), sep.as_slice()) {
        Some(i) => i,
        None => return None,
    };
    let n: usize = v.len();
    assert(occurs_at(v@, sep@, i as int));
    let rest = chars_range(v.as_slice(), i + sep.len(), n);
    assert(rest@ == remote_url@.skip(i + "://"@.len()));
    let rest = match rfind_char(rest.as_slice(), '@') {
        Some(j) => {
            proof { lemma_last_index_of(rest@, '@'); }
            chars_range(rest.as_slice(), j + 1, rest.len())
        },
        None => rest,
    };
    let ghost wu = rest@;
    let path = match find_char(rest.as_slice(), '/') {
        Some(k) => {
            proof { lemma_first_index_of(rest@, '/'); }
            chars_range(rest.as_slice(), k, rest.len())
        },
        None => Vec::new(),
    };
    assert(path@ == split_authority(wu).1);
    let aseg = chars_of("/a/");
    let p = match find(path.as_slice(), aseg.as_slice()) {
        Some(idx) => {
            assert(occurs_at(path@, aseg@, idx as int));
            chars_range(path.as_slice(), idx + 3, path.len())
        },
        None => {
            if path.len() > 0 && path[0] == '/' {
                chars_range(path.as_slice(), 1, path.len())
            } else {
                path
            }
        },
    };
    assert(p@ == project_path(split_authority(wu).1));
    let mut end: usize = p.len();
    assert(p@.take(p@.len() as int) =~= p@);
    while end > 0 && p[end - 1] == '/'
        invariant
            end <= p@.len(),
            trim_trailing_slashes(p@) == trim_trailing_slashes(p@.take(end as int)),
        decreases end,
    {
        assert(p@.take(end as int).drop_last() =~= p@.take(end - 1));
        end = end - 1;
    }
    let trimmed = chars_range(p.as_slice(), 0, end);
    assert(trimmed@ =~= p@.take(end as int));
    assert(trim_trailing_slashes(trimmed@) == trimmed@);
    let suffix = chars_of(".git");
    let name = if ends_with_exec(trimmed.as_slice(), suffix.as_slice()) {
        chars_range(trimmed.as_slice(), 0, trimmed.len() - suffix.len())
    } else {
        trimmed
    };
    if name.len() == 0 {
        return None;
    }
    Some(crate::text::string_of(name.as_slice()))
}

proof fn lemma_after_https(x: Seq<char>)
    ensures
        after_scheme("https://"@ + x) == Some(x),
{
    reveal_strlit("https://");
    reveal_strlit("://");
    let base = "https://"@ + x;
    assert(base.subrange(5, 8) =~= "://"@);
    assert(occurs_at(base, "://"@, 5));
    assert forall|k: int| 0 <= k < 5 implies !occurs_at(base, "://"@, k) by {
        if occurs_at(base, "://"@, k) {
            assert(base.subrange(k, k + 3)[0] == "://"@[0]);
            assert(base[k] == "https://"@[k]);
        }
    }
    assert(first_occurrence(base, "://"@) == Some(5int));
    assert(base.skip(8) =~= x);
}

proof fn lemma_remote_host_has_no_slash(rest: Seq<char>)
    ensures
        forall|k: int| 0 <= k < remote_host(rest).len() ==> remote_host(rest)[k] != '/',
        split_authority(without_user(rest)).1.len() > 0 ==> split_authority(without_user(rest)).1[0] == '/',
{
    let wu = without_user(rest);
    lemma_first_index_of(wu, '/');
    let host = remote_host(rest);
    assert forall|k: int| 0 <= k < host.len() implies host[k] != '/' by {
        assert(host[k] == split_authority(wu).0[k]);
    }
}

proof fn lemma_subpath_starts_with_slash(rest: Seq<char>)
    ensures
        (subpath_prefix(split_authority(without_user(rest)).1) + "/"@)[0] == '/',
{
    reveal_strlit("/");
    reveal_strlit("/a/");
    let path = split_authority(without_user(rest)).1;
    let prefix = subpath_prefix(path);
    lemma_remote_host_has_no_slash(rest);
    if path.len() == 0 {
        assert(!contains_seq(path, "/a/"@));
    }
    lemma_first_occurrence(path, "/a/"@);
    if prefix.len() > 0 {
        assert(prefix[0] == path[0]);
    }
}

proof fn lemma_host_before_slash(host: Seq<char>, after: Seq<char>)
    requires
        host.len() > 0,
        after.len() > 0,
        after[0] == '/',
        forall|k: int| 0 <= k < host.len() ==> host[k] != '/',
    ensures
        spec_host_of("https://"@ + (host + after)) == Some(host),
{
    let tail = host + after;
    lemma_after_https(tail);
    lemma_first_index_of(tail, '/');
    assert forall|k: int| 0 <= k < host.len() implies tail[k] != '/' by {
        assert(tail[k] == host[k]);
    }
    assert(tail[host.len() as int] == after[0]);
    assert(first_index_of(tail, '/') == Some(host.len() as int));
    assert(split_authority(tail).0 =~= host);
}

/// A derived base URL leads back to the remote's host: looking up the host of
/// what `derive` returns gives the host the remote named, without its user and
/// without Gerrit's SSH port.
pub proof fn lemma_derived_base_names_the_remote_host(remote: Seq<char>)
    requires
        spec_derive(remote) is Some,
    ensures
        spec_host_of(spec_derive(remote).unwrap()) == Some(remote_host(after_scheme(remote).unwrap())),
{
    let rest = after_scheme(remote).unwrap();
    let host = remote_host(rest);
    let prefix = subpath_prefix(split_authority(without_user(rest)).1);
    let after = prefix + "/"@;
    let base = "https://"@ + host + prefix + "/"@;
    assert(spec_derive(remote) == Some(base));
    assert(base =~= "https://"@ + (host + after));
    assert(spec_host_of("https://"@ + (host + after)) == Some(host)) by {
        reveal_strlit("/");
        lemma_remote_host_has_no_slash(rest);
        lemma_subpath_starts_with_slash(rest);
        lemma_host_before_slash(host, after);
    }
}

} // verus!
