//! Tests for VCS platform deduction and URL construction.

use std::str::FromStr;
use unclog::vcs::{GitHubProject, GitLabProject};

// With or without the trailing slash
const GITHUB_URLS: &[&str] = &[
    "https://github.com/informalsystems/unclog",
    "https://github.com/informalsystems/unclog/",
    "https://github.com/informalsystems/unclog.git",
    "ssh://git@github.com/informalsystems/unclog.git",
];

// With or without the trailing slash
const GITLAB_URLS: &[&str] = &[
    "https://gitlab.host.com/group/project",
    "https://gitlab.host.com/group/project/",
    "https://gitlab.host.com/group/project.git",
    "ssh://git@gitlab.host.com/group/project.git",
];

#[test]
fn github_project_url_parsing() {
    let expected = GitHubProject {
        owner: "informalsystems".to_owned(),
        project: "unclog".to_owned(),
    };
    for url in GITHUB_URLS {
        let actual = GitHubProject::from_str(url).unwrap();
        assert_eq!(expected, actual);
    }
}

#[test]
fn github_project_url_construction() {
    let project = GitHubProject {
        owner: "informalsystems".to_owned(),
        project: "unclog".to_owned(),
    };
    assert_eq!(
        project.url_str(),
        "https://github.com/informalsystems/unclog"
    )
}

#[test]
fn gitlab_project_url_parsing() {
    let expected = GitLabProject {
        root_url: "group".to_owned(),
        host: "gitlab.host.com".to_owned(),
        project: "project".to_owned(),
    };
    for url in GITLAB_URLS {
        let actual = GitLabProject::from_str(url).unwrap();
        assert_eq!(expected, actual);
    }
}

#[test]
fn gitlab_project_url_construction() {
    let project = GitLabProject {
        root_url: "group".to_owned(),
        host: "gitlab.host.com".to_owned(),
        project: "project".to_owned(),
    };
    assert_eq!(project.url_str(), "https://gitlab.host.com/group/project")
}

#[test]
fn unrecognized_platform_fails() {
    assert!(GitHubProject::from_str("https://example.com/a/b").is_err());
    assert!(GitHubProject::from_str("not a url at all \u{7f}").is_err());
    assert!(GitLabProject::from_str("https://example.com/a/b").is_err());
}
