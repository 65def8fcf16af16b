use gal::repo::{git_origin_url, parse_github_repo, GitHubRepo};

fn repo(owner: &str, name: &str) -> GitHubRepo {
    GitHubRepo::new(owner.to_string(), name.to_string())
}

#[test]
fn full_names_have_a_slash() {
    assert_eq!(repo("rust-lang", "rust").full_name(), "rust-lang/rust");
    assert_eq!(repo("rust-lang", "rust").clone(), repo("rust-lang", "rust"));
}

#[test]
fn full_names_read_back() {
    let one = repo("rust-lang", "rust");
    assert_eq!(GitHubRepo::from_str(&one.full_name()), Ok(one));
    assert_eq!("a/b".parse::<GitHubRepo>(), Ok(repo("a", "b")));
}

#[test]
fn names_are_trimmed() {
    assert_eq!(GitHubRepo::from_str("  owner /\trepo\n"), Ok(repo("owner", "repo")));
}

#[test]
fn names_that_are_not_repositories_are_refused() {
    let format = Err("Repository must be in 'owner/repo' format".to_string());
    assert_eq!(GitHubRepo::from_str("owner"), format);
    assert_eq!(GitHubRepo::from_str("a/b/c"), format);
    assert_eq!(GitHubRepo::from_str(""), format);
    assert_eq!(GitHubRepo::from_str(" /repo"), Err("Owner name cannot be empty".to_string()));
    assert_eq!(GitHubRepo::from_str("/"), Err("Owner name cannot be empty".to_string()));
    assert_eq!(GitHubRepo::from_str("owner/ "), Err("Repository name cannot be empty".to_string()));
}

#[test]
fn remote_urls_lead_to_repositories() {
    assert_eq!(parse_github_repo("git@github.com:owner/repo.git"), Ok(repo("owner", "repo")));
    assert_eq!(parse_github_repo("https://github.com/owner/repo.git"), Ok(repo("owner", "repo")));
    assert_eq!(parse_github_repo("https://github.com/owner/repo"), Ok(repo("owner", "repo")));
    assert_eq!(parse_github_repo("git@github.com:owner/re.git.git"), Ok(repo("owner", "re.git")));
    // Nothing is trimmed or refused as empty here.
    assert_eq!(parse_github_repo("git@github.com: /"), Ok(repo(" ", "")));
    assert_eq!(parse_github_repo("git@github.com:a/.git"), Ok(repo("a", "")));
}

#[test]
fn both_forms_of_a_url_agree() {
    for path in ["o/r", "o/r.git", "o", "o/r/", ""] {
        assert_eq!(
            parse_github_repo(&format!("git@github.com:{path}")),
            parse_github_repo(&format!("https://github.com/{path}"))
        );
    }
}

#[test]
fn other_urls_are_refused() {
    let host = Err("URL must be a GitHub repository (SSH or HTTPS)".to_string());
    assert_eq!(parse_github_repo("https://gitlab.com/owner/repo"), host);
    assert_eq!(parse_github_repo("http://github.com/owner/repo"), host);
    assert_eq!(parse_github_repo(""), host);
    let path = Err("Invalid repository path format. Expected owner/repo".to_string());
    assert_eq!(parse_github_repo("https://github.com/owner"), path);
    assert_eq!(parse_github_repo("https://github.com/owner/repo/"), path);
    assert_eq!(parse_github_repo("git@github.com:.git"), path);
}

#[test]
fn origin_urls_are_what_git_wrote() {
    assert_eq!(
        git_origin_url(true, b"git@github.com:o/r.git\n".to_vec()),
        Ok("git@github.com:o/r.git".to_string())
    );
    assert_eq!(git_origin_url(true, "ü\n".as_bytes().to_vec()), Ok("ü".to_string()));
}

#[test]
fn missing_origin_urls_are_told() {
    assert_eq!(
        git_origin_url(false, b"x".to_vec()),
        Err("Failed to get git origin URL. Make sure you're in a git repository.".to_string())
    );
    assert_eq!(
        git_origin_url(true, b" \n".to_vec()),
        Err("No origin URL found. Make sure the repository has a remote origin.".to_string())
    );
    assert_eq!(
        git_origin_url(true, vec![b'a', 0xff]),
        Err("invalid utf-8 sequence of 1 bytes from index 1".to_string())
    );
}

#[test]
fn origins_lead_to_repositories() {
    let url = git_origin_url(true, b"git@github.com:owner/my.repo.git\n".to_vec()).unwrap();
    assert_eq!(parse_github_repo(&url), Ok(repo("owner", "my.repo")));
}

#[test]
fn what_is_accepted_reads_back() {
    for text in ["a/b", " a b / c\t", "\u{a0}x/y.git"] {
        let one = GitHubRepo::from_str(text).unwrap();
        assert_eq!(GitHubRepo::from_str(&one.full_name()), Ok(one));
    }
}

#[test]
fn origins_of_every_form_lead_to_repositories() {
    for text in ["git@github.com:o/r.git", "https://github.com/o/r.git", "git@github.com:o/r", "https://github.com/o/r"] {
        let url = git_origin_url(true, format!("{text}\n").into_bytes()).unwrap();
        assert_eq!(url, text);
        assert_eq!(parse_github_repo(&url), Ok(repo("o", "r")));
    }
}
