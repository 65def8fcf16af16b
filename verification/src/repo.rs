//! The repository that is watched, and the ways in which it can be named.

use crate::text::{
    begins_with, chars_of, finishes_with, is_white_space, joined, stands_at, text_between, trim,
    trimmed, trimmed_end, trimmed_is_trimmed, trimmed_start,
};
use std::str::FromStr;
use vstd::prelude::*;
use vstd::utf8::{decode_utf8, valid_utf8};

verus! {

/// A repository on GitHub.
#[derive(Debug, PartialEq, Eq)]
pub struct GitHubRepo {
    pub owner: String,
    pub name: String,
}

/// The texts of a `GitHubRepo`.
pub struct GitHubRepoView {
    pub owner: Seq<char>,
    pub name: Seq<char>,
}

impl View for GitHubRepo {
    type V = GitHubRepoView;

    open spec fn view(&self) -> GitHubRepoView {
        GitHubRepoView { owner: self.owner@, name: self.name@ }
    }
}

impl GitHubRepoView {
    /// Owner and name with a slash between them.
    pub open spec fn full_name(self) -> Seq<char> {
        self.owner + "/"@ + self.name
    }
}

/// The only slash of a text stands at `at`.
pub open spec fn only_slash_at(s: Seq<char>, at: int) -> bool {
    &&& 0 <= at < s.len()
    &&& s[at] == '/'
    &&& forall|i: int| 0 <= i < s.len() && i != at ==> s[i] != '/'
}

/// What stands before and after the slash of a text, where it has exactly one.
pub open spec fn halves(s: Seq<char>) -> Option<(Seq<char>, Seq<char>)> {
    if exists|at: int| only_slash_at(s, at) {
        let at = choose|at: int| only_slash_at(s, at);
        Some((s.take(at), s.skip(at + 1)))
    } else {
        None
    }
}

/// The repository that `owner/name` names, or what is wrong with the text.
pub open spec fn repo_of_text(s: Seq<char>) -> Result<GitHubRepoView, Seq<char>> {
    match halves(s) {
        None => Err("Repository must be in 'owner/repo' format"@),
        Some((owner, name)) => if trimmed(owner).len() == 0 {
            Err("Owner name cannot be empty"@)
        } else if trimmed(name).len() == 0 {
            Err("Repository name cannot be empty"@)
        } else {
            Ok(GitHubRepoView { owner: trimmed(owner), name: trimmed(name) })
        },
    }
}

/// The part of a remote URL that follows the name of the host.
pub open spec fn path_of_url(url: Seq<char>) -> Option<Seq<char>> {
    if begins_with(url, "git@github.com:"@) {
        Some(url.skip("git@github.com:"@.len() as int))
    } else if begins_with(url, "https://github.com/"@) {
        Some(url.skip("https://github.com/"@.len() as int))
    } else {
        None
    }
}

/// A path without the suffix that marks a repository.
pub open spec fn without_git_suffix(path: Seq<char>) -> Seq<char> {
    if finishes_with(path, ".git"@) {
        path.take(path.len() - ".git"@.len())
    } else {
        path
    }
}

/// The repository that a remote URL leads to, or what is wrong with the URL.
pub open spec fn repo_of_url(url: Seq<char>) -> Result<GitHubRepoView, Seq<char>> {
    match path_of_url(url) {
        None => Err("URL must be a GitHub repository (SSH or HTTPS)"@),
        Some(path) => match halves(without_git_suffix(path)) {
            None => Err("Invalid repository path format. Expected owner/repo"@),
            Some((owner, name)) => Ok(GitHubRepoView { owner, name }),
        },
    }
}

/// The texts in the outcome of a parse.
pub open spec fn parsed(r: Result<GitHubRepo, String>) -> Result<GitHubRepoView, Seq<char>> {
    match r {
        Ok(repo) => Ok(repo@),
        Err(message) => Err(message@),
    }
}

proof fn lemma_halves(s: Seq<char>, at: int)
    requires
        only_slash_at(s, at),
    ensures
        halves(s) == Some((s.take(at), s.skip(at + 1))),
{
    let other = choose|k: int| only_slash_at(s, k);
    assert(only_slash_at(s, other));
}

/// Splits the characters from `from` up to `to` at their slash, where they have exactly one.
fn split_at_slash(chars: &Vec<char>, from: usize, to: usize) -> (r: Option<(String, String)>)
    requires
        from <= to <= chars.len(),
    ensures
        match r {
            Some((a, b)) => halves(chars@.subrange(from as int, to as int)) == Some((a@, b@)),
            None => halves(chars@.subrange(from as int, to as int)) is None,
        },
{
    let ghost s = chars@.subrange(from as int, to as int);
    let mut slash: Option<usize> = None;
    let mut i: usize = from;
    while i < to
        invariant
            from <= i <= to <= chars.len(),
            s == chars@.subrange(from as int, to as int),
            match slash {
                None => forall|k: int| 0 <= k < i - from ==> s[k] != '/',
                Some(at) => from <= at < i && s[at - from] == '/' && forall|k: int|
                    0 <= k < i - from && k != at - from ==> s[k] != '/',
            },
        decreases to - i,
    {
        if chars[i] == '/' {
            assert(s[i - from] == '/');
            if let Some(at) = slash {
                proof {
                    if exists|k: int| only_slash_at(s, k) {
                        let k = choose|k: int| only_slash_at(s, k);
                        assert(s[at - from] == '/' && s[i - from] == '/');
                        assert(k == at - from && k == i - from);
                    }
                }
                return None;
            }
            slash = Some(i);
        } else {
            assert(s[i - from] != '/');
        }
        i = i + 1;
    }
    match slash {
        None => {
            proof {
                if exists|k: int| only_slash_at(s, k) {
                    let k = choose|k: int| only_slash_at(s, k);
                    assert(s[k] == '/');
                }
            }
            None
        },
        Some(at) => {
            proof {
                lemma_halves(s, at - from);
                assert(s.take(at - from) =~= chars@.subrange(from as int, at as int));
                assert(s.skip(at - from + 1) =~= chars@.subrange(at + 1, to as int));
            }
            Some((text_between(chars, from, at), text_between(chars, at + 1, to)))
        },
    }
}

impl GitHubRepo {
    /// Names a repository by its owner and its name.
    pub fn new(owner: String, name: String) -> (r: Self)
        ensures
            r.owner == owner,
            r.name == name,
            r@ == (GitHubRepoView { owner: owner@, name: name@ }),
    {
        Self { owner, name }
    }

    /// The owner and the name with a slash between them.
    pub fn full_name(&self) -> (r: String)
        ensures
            r@ == self@.full_name(),
    {
        let with_slash: String = joined(self.owner.as_str(), "/");
        joined(with_slash.as_str(), self.name.as_str())
    }

    /// Reads a repository from `owner/name`. White space around either is left out.
    pub fn from_str(s: &str) -> (r: Result<GitHubRepo, String>)
        ensures
            parsed(r) == repo_of_text(s@),
    {
        let chars: Vec<char> = chars_of(s);
        assert(chars@.subrange(0, chars@.len() as int) =~= s@);
        match split_at_slash(&chars, 0, chars.len()) {
            None => Err("Repository must be in 'owner/repo' format".to_owned()),
            Some((owner, name)) => {
                let owner: String = trim(owner.as_str());
                let name: String = trim(name.as_str());
                if owner.as_str().is_empty() {
                    return Err("Owner name cannot be empty".to_owned());
                }
                if name.as_str().is_empty() {
                    return Err("Repository name cannot be empty".to_owned());
                }
                Ok(GitHubRepo::new(owner, name))
            },
        }
    }
}

impl Clone for GitHubRepo {
    fn clone(&self) -> (r: Self)
        ensures
            r@ == self@,
    {
        GitHubRepo { owner: self.owner.clone(), name: self.name.clone() }
    }
}

impl FromStr for GitHubRepo {
    type Err = String;

    fn from_str(s: &str) -> (r: Result<GitHubRepo, String>)
        ensures
            parsed(r) == repo_of_text(s@),
    {
        GitHubRepo::from_str(s)
    }
}

/// Reads a repository from the URL of a remote, in the form for SSH or that for HTTPS.
pub fn parse_github_repo(url: &str) -> (r: Result<GitHubRepo, String>)
    ensures
        parsed(r) == repo_of_url(url@),
{
    let chars: Vec<char> = chars_of(url);
    let ssh: Vec<char> = chars_of("git@github.com:");
    let https: Vec<char> = chars_of("https://github.com/");
    let suffix: Vec<char> = chars_of(".git");
    let from: usize = if stands_at(&chars, &ssh, 0) {
        ssh.len()
    } else if stands_at(&chars, &https, 0) {
        https.len()
    } else {
        return Err("URL must be a GitHub repository (SSH or HTTPS)".to_owned());
    };
    let ghost path = url@.skip(from as int);
    let mut to: usize = chars.len();
    if to - from >= suffix.len() && stands_at(&chars, &suffix, to - suffix.len()) {
        to = to - suffix.len();
        assert(path.subrange(path.len() - suffix@.len(), path.len() as int) =~= suffix@);
    } else {
        proof {
            if finishes_with(path, suffix@) {
                let at = to - suffix@.len();
                assert(chars@.subrange(at, at + suffix@.len()) =~= path.subrange(
                    path.len() - suffix@.len(),
                    path.len() as int,
                ));
            }
        }
    }
    assert(chars@.subrange(from as int, to as int) =~= without_git_suffix(path));
    match split_at_slash(&chars, from, to) {
        None => Err("Invalid repository path format. Expected owner/repo".to_owned()),
        Some((owner, name)) => Ok(GitHubRepo::new(owner, name)),
    }
}

/// The text of the error that `String::from_utf8` gives for bytes that are not UTF-8.
pub uninterp spec fn utf8_error(bytes: Seq<u8>) -> Seq<char>;

/// `String::from_utf8` decodes bytes, or gives an error exactly where they are not UTF-8.
#[verifier::external_body]
fn utf8_text(bytes: Vec<u8>) -> (r: Result<String, String>)
    ensures
        match r {
            Ok(text) => valid_utf8(bytes@) && text@ == decode_utf8(bytes@),
            Err(message) => !valid_utf8(bytes@) && message@ == utf8_error(bytes@),
        },
{
    String::from_utf8(bytes).map_err(|e| e.to_string())
}

/// The URL that `git` gave, or why there is none.
pub open spec fn origin_url_of(success: bool, stdout: Seq<u8>) -> Result<Seq<char>, Seq<char>> {
    if !success {
        Err("Failed to get git origin URL. Make sure you're in a git repository."@)
    } else if !valid_utf8(stdout) {
        Err(utf8_error(stdout))
    } else if trimmed(decode_utf8(stdout)).len() == 0 {
        Err("No origin URL found. Make sure the repository has a remote origin."@)
    } else {
        Ok(trimmed(decode_utf8(stdout)))
    }
}

/// Reads the URL of the remote `origin` from what `git config --get remote.origin.url` wrote, and
/// from whether it succeeded.
pub fn git_origin_url(success: bool, stdout: Vec<u8>) -> (r: Result<String, String>)
    ensures
        match r {
            Ok(url) => origin_url_of(success, stdout@) == Ok::<Seq<char>, Seq<char>>(url@),
            Err(message) => origin_url_of(success, stdout@) == Err::<Seq<char>, Seq<char>>(
                message@,
            ),
        },
{
    if !success {
        return Err(
            "Failed to get git origin URL. Make sure you're in a git repository.".to_owned(),
        );
    }
    match utf8_text(stdout) {
        Err(message) => Err(message),
        Ok(text) => {
            let url: String = trim(text.as_str());
            if url.as_str().is_empty() {
                return Err(
                    "No origin URL found. Make sure the repository has a remote origin.".to_owned(),
                );
            }
            Ok(url)
        },
    }
}

/// A text has no slash.
pub open spec fn has_no_slash(s: Seq<char>) -> bool {
    forall|i: int| 0 <= i < s.len() ==> s[i] != '/'
}

proof fn lemma_halves_of_full_name(repo: GitHubRepoView)
    requires
        has_no_slash(repo.owner),
        has_no_slash(repo.name),
    ensures
        halves(repo.full_name()) == Some((repo.owner, repo.name)),
{
    reveal_strlit("/");
    let s = repo.full_name();
    let at = repo.owner.len() as int;
    assert(s[at] == '/');
    assert forall|i: int| 0 <= i < s.len() && i != at implies s[i] != '/' by {
        if i < at {
            assert(s[i] == repo.owner[i]);
        } else {
            assert(s[i] == repo.name[i - at - 1]);
        }
    }
    lemma_halves(s, at);
    assert(s.take(at) =~= repo.owner);
    assert(s.skip(at + 1) =~= repo.name);
}

/// The full name of a repository reads back as that repository, where neither part is empty, holds
/// a slash, or begins or ends with white space.
pub proof fn full_name_reads_back(repo: GitHubRepoView)
    requires
        has_no_slash(repo.owner),
        has_no_slash(repo.name),
        repo.owner.len() > 0 && trimmed(repo.owner) == repo.owner,
        repo.name.len() > 0 && trimmed(repo.name) == repo.name,
    ensures
        repo_of_text(repo.full_name()) == Ok::<GitHubRepoView, Seq<char>>(repo),
{
    lemma_halves_of_full_name(repo);
}

/// What is read as a repository reads back from its full name.
pub proof fn accepted_names_read_back(s: Seq<char>)
    ensures
        repo_of_text(s) matches Ok(repo) ==> repo_of_text(repo.full_name()) == Ok::<
            GitHubRepoView,
            Seq<char>,
        >(repo),
{
    if let Ok(repo) = repo_of_text(s) {
        let at = choose|at: int| only_slash_at(s, at);
        let owner = s.take(at);
        let name = s.skip(at + 1);
        let owner_from = trimmed_is_trimmed(owner);
        let name_from = trimmed_is_trimmed(name);
        assert forall|i: int| 0 <= i < repo.owner.len() implies repo.owner[i] != '/' by {
            assert(repo.owner[i] == s[owner_from + i]);
        }
        assert forall|i: int| 0 <= i < repo.name.len() implies repo.name[i] != '/' by {
            assert(repo.name[i] == s[at + 1 + name_from + i]);
        }
        full_name_reads_back(repo);
    }
}

/// The forms for SSH and for HTTPS lead to the same repository, whatever path follows.
pub proof fn ssh_and_https_agree(path: Seq<char>)
    ensures
        path_of_url("git@github.com:"@ + path) == Some(path),
        path_of_url("https://github.com/"@ + path) == Some(path),
        repo_of_url("git@github.com:"@ + path) == repo_of_url("https://github.com/"@ + path),
{
    let ssh = "git@github.com:"@;
    let https = "https://github.com/"@;
    reveal_strlit("git@github.com:");
    reveal_strlit("https://github.com/");
    assert((ssh + path).subrange(0, ssh.len() as int) =~= ssh);
    assert((https + path).subrange(0, https.len() as int) =~= https);
    assert((ssh + path).skip(ssh.len() as int) =~= path);
    assert((https + path).skip(https.len() as int) =~= path);
    assert((https + path).subrange(0, ssh.len() as int)[0] == 'h');
    assert(ssh[0] == 'g');
}

/// A line feed after a text that neither begins nor ends with white space is trimmed off.
proof fn lemma_line_feed_is_trimmed(s: Seq<char>)
    requires
        s.len() > 0,
        !is_white_space(s[0]),
        !is_white_space(s.last()),
    ensures
        trimmed(s.push('\n')) == s,
{
    assert(s.push('\n')[0] == s[0]);
    assert(trimmed_start(s.push('\n')) == s.push('\n'));
    assert(s.push('\n').drop_last() =~= s);
    assert(trimmed_end(s) == s);
}

/// Where `git` names a remote of a repository on a line of its own, the origin is found and leads to
/// that repository, unless the URL ends with white space.
pub proof fn origin_leads_to_its_repository(
    repo: GitHubRepoView,
    url: Seq<char>,
    stdout: Seq<u8>,
)
    requires
        has_no_slash(repo.owner),
        has_no_slash(repo.name),
        is_remote_of(url, repo),
        !is_white_space(url.last()),
        valid_utf8(stdout),
        decode_utf8(stdout) == url.push('\n'),
    ensures
        origin_url_of(true, stdout) == Ok::<Seq<char>, Seq<char>>(url),
        repo_of_url(url) == Ok::<GitHubRepoView, Seq<char>>(repo),
{
    reveal_strlit("git@github.com:");
    reveal_strlit("https://github.com/");
    assert(url[0] == 'g' || url[0] == 'h');
    lemma_line_feed_is_trimmed(url);
    remote_url_reads_back(repo, url);
}

proof fn lemma_suffix_is_removed(path: Seq<char>)
    ensures
        without_git_suffix(path + ".git"@) == path,
{
    let g = ".git"@;
    assert((path + g).subrange((path + g).len() - g.len(), (path + g).len() as int) =~= g);
    assert((path + g).take((path + g).len() - g.len()) =~= path);
}

/// Where a full name ends with `.git`, the name of the repository does.
proof fn lemma_suffix_of_full_name(repo: GitHubRepoView)
    requires
        finishes_with(repo.full_name(), ".git"@),
    ensures
        finishes_with(repo.name, ".git"@),
{
    let s = repo.full_name();
    let g = ".git"@;
    let name = repo.name;
    reveal_strlit(".git");
    reveal_strlit("/");
    assert(g.len() == 4 && g[0] == '.' && g[1] == 'g' && g[2] == 'i' && g[3] == 't');
    let tail = s.subrange(s.len() - 4, s.len() as int);
    assert(tail == g);
    if name.len() >= 4 {
        assert(name.subrange(name.len() - 4, name.len() as int) =~= tail);
    } else {
        let slash = 3 - name.len();
        assert(s[s.len() - 1 - name.len()] == '/');
        assert(tail[slash] == s[s.len() - 4 + slash]);
    }
}

/// The URLs that name a repository: in the form for SSH or that for HTTPS, with `.git` after the full
/// name, or without it, unless the name itself ends so.
pub open spec fn is_remote_of(url: Seq<char>, repo: GitHubRepoView) -> bool {
    ||| url == "git@github.com:"@ + (repo.full_name() + ".git"@)
    ||| url == "https://github.com/"@ + (repo.full_name() + ".git"@)
    ||| !finishes_with(repo.name, ".git"@) && (url == "git@github.com:"@ + repo.full_name() || url
        == "https://github.com/"@ + repo.full_name())
}

/// The URLs that name a repository lead to it.
pub proof fn remote_url_reads_back(repo: GitHubRepoView, url: Seq<char>)
    requires
        has_no_slash(repo.owner),
        has_no_slash(repo.name),
        is_remote_of(url, repo),
    ensures
        repo_of_url(url) == Ok::<GitHubRepoView, Seq<char>>(repo),
{
    let s = repo.full_name();
    lemma_halves_of_full_name(repo);
    ssh_and_https_agree(s + ".git"@);
    ssh_and_https_agree(s);
    lemma_suffix_is_removed(s);
    if finishes_with(s, ".git"@) {
        lemma_suffix_of_full_name(repo);
    }
}

/// The full name is the owner, a slash, and the name.
pub proof fn full_names_hold_owner_and_name(repo: GitHubRepoView)
    ensures
        repo.full_name() == repo.owner.push('/') + repo.name,
{
    reveal_strlit("/");
    assert(repo.full_name() =~= repo.owner.push('/') + repo.name);
}

proof fn lemma_halves_of_two(a: Seq<char>, b: Seq<char>)
    requires
        has_no_slash(a),
        has_no_slash(b),
    ensures
        halves(a.push('/') + b) == Some((a, b)),
{
    let repo = GitHubRepoView { owner: a, name: b };
    lemma_halves_of_full_name(repo);
    full_names_hold_owner_and_name(repo);
}

proof fn lemma_more_slashes(a: Seq<char>, b: Seq<char>, c: Seq<char>)
    ensures
        halves(a.push('/') + b.push('/') + c) is None,
{
    let s = a.push('/') + b.push('/') + c;
    let one = a.len() as int;
    let two: int = a.len() + 1 + b.len() as int;
    assert(s[one] == '/');
    assert(s[two] == '/');
    if exists|at: int| only_slash_at(s, at) {
        let at = choose|at: int| only_slash_at(s, at);
        assert(only_slash_at(s, at));
        assert(one == at && two == at);
    }
}

proof fn lemma_no_slashes(s: Seq<char>)
    requires
        has_no_slash(s),
    ensures
        halves(s) is None,
{
    if exists|at: int| only_slash_at(s, at) {
        let at = choose|at: int| only_slash_at(s, at);
        assert(s[at] == '/');
    }
}

/// A text with one slash names the repository whose owner stands before it and whose name after it,
/// both without the white space around them, unless nothing is left of one of them.
pub proof fn one_slash_parts_owner_and_name(a: Seq<char>, b: Seq<char>)
    requires
        has_no_slash(a),
        has_no_slash(b),
    ensures
        trimmed(a).len() > 0 && trimmed(b).len() > 0 ==> repo_of_text(a.push('/') + b) == Ok::<
            GitHubRepoView,
            Seq<char>,
        >(GitHubRepoView { owner: trimmed(a), name: trimmed(b) }),
        trimmed(a).len() == 0 ==> repo_of_text(a.push('/') + b) == Err::<
            GitHubRepoView,
            Seq<char>,
        >("Owner name cannot be empty"@),
        trimmed(a).len() > 0 && trimmed(b).len() == 0 ==> repo_of_text(a.push('/') + b) == Err::<
            GitHubRepoView,
            Seq<char>,
        >("Repository name cannot be empty"@),
{
    lemma_halves_of_two(a, b);
}

/// A text without a slash, or with two or more, names no repository. Nor does a remote URL with such a
/// path, with `.git` behind it or without.
pub proof fn other_numbers_of_slashes_are_refused(s: Seq<char>, a: Seq<char>, b: Seq<char>, c: Seq<char>)
    requires
        has_no_slash(s),
    ensures
        ({
            let more = a.push('/') + b.push('/') + c;
            let format = Err::<GitHubRepoView, Seq<char>>(
                "Repository must be in 'owner/repo' format"@,
            );
            let path = Err::<GitHubRepoView, Seq<char>>(
                "Invalid repository path format. Expected owner/repo"@,
            );
            &&& repo_of_text(s) == format
            &&& repo_of_text(more) == format
            &&& repo_of_url("git@github.com:"@ + s) == path
            &&& repo_of_url("https://github.com/"@ + s) == path
            &&& repo_of_url("git@github.com:"@ + (more + ".git"@)) == path
            &&& repo_of_url("https://github.com/"@ + (more + ".git"@)) == path
            &&& !finishes_with(more, ".git"@) ==> repo_of_url("git@github.com:"@ + more) == path
            &&& !finishes_with(more, ".git"@) ==> repo_of_url("https://github.com/"@ + more)
                == path
        }),
{
    let more = a.push('/') + b.push('/') + c;
    lemma_no_slashes(s);
    lemma_more_slashes(a, b, c);
    ssh_and_https_agree(s);
    ssh_and_https_agree(more);
    ssh_and_https_agree(more + ".git"@);
    lemma_suffix_is_removed(more);
    if finishes_with(s, ".git"@) {
        lemma_no_slashes(without_git_suffix(s));
    }
}

/// A URL that begins neither with the form for SSH nor with that for HTTPS is refused.
pub proof fn other_hosts_are_refused(url: Seq<char>)
    requires
        forall|path: Seq<char>| url != #[trigger] ("git@github.com:"@ + path),
        forall|path: Seq<char>| url != #[trigger] ("https://github.com/"@ + path),
    ensures
        repo_of_url(url) == Err::<GitHubRepoView, Seq<char>>(
            "URL must be a GitHub repository (SSH or HTTPS)"@,
        ),
{
    let ssh = "git@github.com:"@;
    let https = "https://github.com/"@;
    if begins_with(url, ssh) {
        assert(url =~= ssh + url.skip(ssh.len() as int));
    }
    if begins_with(url, https) {
        assert(url =~= https + url.skip(https.len() as int));
    }
}

/// What `git` wrote is taken without the white space around it, where `git` succeeded and something
/// is left. Each way to fail has its own words.
pub proof fn origins_are_what_git_wrote(stdout: Seq<u8>)
    ensures
        origin_url_of(false, stdout) == Err::<Seq<char>, Seq<char>>(
            "Failed to get git origin URL. Make sure you're in a git repository."@,
        ),
        !valid_utf8(stdout) ==> origin_url_of(true, stdout) == Err::<Seq<char>, Seq<char>>(
            utf8_error(stdout),
        ),
        valid_utf8(stdout) && trimmed(decode_utf8(stdout)).len() > 0 ==> origin_url_of(true, stdout)
            == Ok::<Seq<char>, Seq<char>>(trimmed(decode_utf8(stdout))),
        valid_utf8(stdout) && trimmed(decode_utf8(stdout)).len() == 0 ==> origin_url_of(
            true,
            stdout,
        ) == Err::<Seq<char>, Seq<char>>(
            "No origin URL found. Make sure the repository has a remote origin."@,
        ),
{
}

} // verus!
