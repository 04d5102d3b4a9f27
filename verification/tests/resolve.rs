use tabletbot::document::{Embeddable, IssueDocument, PullDocument};
use tabletbot::embed::Author;
use tabletbot::resolve::{
    lookup_target, plan_lookups, Answer, IssueReference, Request, Resolver, Target,
    DEFAULT_REPO_NAME, DEFAULT_REPO_OWNER, DEFAULT_RESERVE, ISSUE_PATTERN,
};
use tabletbot::structures::{Aliases, RepositoryDetails};

fn default_repo() -> RepositoryDetails {
    RepositoryDetails { owner: DEFAULT_REPO_OWNER.into(), name: DEFAULT_REPO_NAME.into() }
}

fn aliases() -> Aliases {
    let mut aliases = Aliases::new();
    aliases.insert("foo".into(), RepositoryDetails { owner: "acme".into(), name: "widgets".into() });
    aliases
}

fn target(owner: &str, repo: &str, number: u64) -> Target {
    Target { owner: owner.into(), repo: repo.into(), number }
}

fn issue(number: u64) -> IssueDocument {
    IssueDocument {
        number,
        title: format!("issue {}", number),
        body: None,
        html_url: format!("https://example.org/{}", number),
        user: Author { name: "u".into(), url: "https://u".into(), icon_url: "https://i".into() },
        closed: false,
        milestone: None,
        labels: vec![],
    }
}

fn pull(number: u64) -> PullDocument {
    PullDocument {
        number,
        title: Some(format!("pull {}", number)),
        body: None,
        html_url: None,
        user: None,
        closed: false,
        merged: false,
        milestone: None,
        labels: None,
    }
}

#[test]
fn mentions_are_found_with_and_without_alias() {
    let found = IssueReference::try_from_str("see #42 and foo#7").unwrap();
    assert_eq!(
        found,
        vec![
            IssueReference { alias: None, number: 42 },
            IssueReference { alias: Some("foo".into()), number: 7 },
        ]
    );
}

#[test]
fn mentions_resolve_against_their_repositories_in_order() {
    let found = IssueReference::try_from_str("see #42 and foo#7").unwrap();
    let targets = plan_lookups(&found, &aliases(), &default_repo());
    assert_eq!(
        targets,
        vec![target("OpenTabletDriver", "OpenTabletDriver", 42), target("acme", "widgets", 7)]
    );
}

#[test]
fn alias_characters_are_letters_digits_hyphen_underscore_and_dot() {
    let found = IssueReference::try_from_str("a-b_c.d9#1 x/y#2 (z#3)").unwrap();
    assert_eq!(
        found,
        vec![
            IssueReference { alias: Some("a-b_c.d9".into()), number: 1 },
            IssueReference { alias: Some("y".into()), number: 2 },
            IssueReference { alias: Some("z".into()), number: 3 },
        ]
    );
}

#[test]
fn neighbouring_mentions_share_no_characters() {
    let found = IssueReference::try_from_str("#1 #2  #3#4").unwrap();
    let numbers: Vec<u64> = found.iter().map(|r| r.number).collect();
    assert_eq!(numbers, vec![1, 2, 3, 4]);
    assert!(found.iter().all(|r| r.alias.is_none()));
}

#[test]
fn text_without_mentions_gives_no_references() {
    assert_eq!(IssueReference::try_from_str("nothing here"), None);
    assert_eq!(IssueReference::try_from_str(""), None);
    assert_eq!(IssueReference::try_from_str("# 12"), None);
    assert_eq!(IssueReference::try_from_str("foo#bar"), None);
}

#[test]
fn a_line_anchor_of_a_file_link_is_no_mention() {
    assert_eq!(
        IssueReference::try_from_str("https://github.com/acme/widgets/blob/main/src/lib.rs#L10-L12"),
        None
    );
}

#[test]
fn a_mention_inside_a_file_link_is_still_a_mention() {
    let found =
        IssueReference::try_from_str("https://github.com/a/b/blob/main/x#7/y#L1").unwrap();
    assert_eq!(found, vec![IssueReference { alias: Some("x".into()), number: 7 }]);
}

#[test]
fn a_number_that_does_not_fit_gives_no_reference() {
    assert_eq!(IssueReference::try_from_str("#99999999999999999999999"), None);
    let found = IssueReference::try_from_str("#18446744073709551615 #18446744073709551616").unwrap();
    assert_eq!(found, vec![IssueReference { alias: None, number: u64::MAX }]);
}

#[test]
fn issue_captures_are_read_group_by_group() {
    let found = IssueReference::from_captures(&vec![
        vec![Some(" a#1 ".to_string()), Some("a".to_string()), Some("1".to_string())],
        vec![Some("#2".to_string()), None, Some("2".to_string())],
        vec![Some("#".to_string()), None, None],
        vec![Some("#x".to_string()), None, Some("x".to_string())],
        vec![Some("#+3".to_string()), None, Some("+3".to_string())],
        vec![Some("#".to_string()), None, Some("".to_string())],
        vec![Some("short".to_string())],
        vec![Some("#007".to_string()), None, Some("007".to_string())],
    ])
    .unwrap();
    assert_eq!(
        found,
        vec![
            IssueReference { alias: Some("a".into()), number: 1 },
            IssueReference { alias: None, number: 2 },
            IssueReference { alias: None, number: 7 },
        ]
    );
    assert_eq!(IssueReference::from_captures(&Vec::new()), None);
}

#[test]
fn the_pattern_and_defaults_are_fixed() {
    assert_eq!(ISSUE_PATTERN, " ?([a-zA-Z0-9-_.]+)?#([0-9]+) ?");
    assert_eq!(DEFAULT_REPO_OWNER, "OpenTabletDriver");
    assert_eq!(DEFAULT_REPO_NAME, "OpenTabletDriver");
    assert_eq!(DEFAULT_RESERVE, 1);
}

#[test]
fn aliases_are_looked_up_in_lowercase() {
    let reference = IssueReference { alias: Some("FoO".into()), number: 3 };
    assert_eq!(
        lookup_target(&reference, &aliases(), &default_repo()),
        Some(target("acme", "widgets", 3))
    );
}

#[test]
fn an_unknown_alias_is_looked_up_nowhere() {
    let reference = IssueReference { alias: Some("bar".into()), number: 3 };
    assert_eq!(lookup_target(&reference, &aliases(), &default_repo()), None);
    let refs = vec![
        IssueReference { alias: Some("bar".into()), number: 1 },
        IssueReference { alias: None, number: 2 },
        IssueReference { alias: Some("nope".into()), number: 3 },
    ];
    assert_eq!(
        plan_lookups(&refs, &aliases(), &default_repo()),
        vec![target("OpenTabletDriver", "OpenTabletDriver", 2)]
    );
    assert!(plan_lookups(&Vec::new(), &aliases(), &default_repo()).is_empty());
}

#[test]
fn low_quota_skips_the_lookup_entirely() {
    let mut resolver = Resolver::new(vec![target("o", "r", 1), target("o", "r", 2)], 2);
    assert_eq!(resolver.request(), Request::Quota);
    resolver.answer(Answer::Quota(1));
    assert_eq!(resolver.request(), Request::Quota);
    resolver.answer(Answer::Quota(1));
    assert_eq!(resolver.request(), Request::Done);
    assert!(resolver.is_done());
    assert_eq!(resolver.finish(), None);
}

#[test]
fn quota_at_the_reserve_allows_the_lookup() {
    let mut resolver = Resolver::new(vec![target("o", "r", 1)], 2);
    resolver.answer(Answer::Quota(2));
    assert_eq!(
        resolver.request(),
        Request::PullRequest { owner: "o".into(), repo: "r".into(), number: 1 }
    );
    let mut other = Resolver::new(vec![target("o", "r", 1)], DEFAULT_RESERVE);
    other.answer(Answer::Quota(0));
    assert_eq!(other.request(), Request::Done);
    let mut third = Resolver::new(vec![target("o", "r", 1)], 0);
    third.answer(Answer::Quota(0));
    assert_eq!(
        third.request(),
        Request::PullRequest { owner: "o".into(), repo: "r".into(), number: 1 }
    );
}

#[test]
fn the_pull_request_is_tried_before_the_issue() {
    let mut resolver = Resolver::new(vec![target("o", "r", 5)], 1);
    resolver.answer(Answer::Quota(10));
    assert_eq!(
        resolver.request(),
        Request::PullRequest { owner: "o".into(), repo: "r".into(), number: 5 }
    );
    resolver.answer(Answer::Failed);
    assert_eq!(
        resolver.request(),
        Request::Issue { owner: "o".into(), repo: "r".into(), number: 5 }
    );
    resolver.answer(Answer::Issue(issue(5)));
    assert_eq!(resolver.request(), Request::Done);
    assert_eq!(resolver.finish(), Some(vec![issue(5).embed()]));
}

#[test]
fn failures_are_swallowed_and_order_is_kept() {
    let mut resolver =
        Resolver::new(vec![target("o", "r", 1), target("o", "r", 2), target("o", "r", 3)], 1);
    resolver.answer(Answer::Quota(10));
    resolver.answer(Answer::PullRequest(pull(1)));
    assert_eq!(resolver.request(), Request::Quota);
    resolver.answer(Answer::Quota(10));
    resolver.answer(Answer::Failed);
    resolver.answer(Answer::Failed);
    assert_eq!(resolver.request(), Request::Quota);
    resolver.answer(Answer::Quota(10));
    resolver.answer(Answer::Failed);
    resolver.answer(Answer::Issue(issue(3)));
    assert!(resolver.is_done());
    assert_eq!(resolver.finish(), Some(vec![pull(1).embed(), issue(3).embed()]));
}

#[test]
fn answers_to_what_was_not_asked_change_nothing() {
    let mut resolver = Resolver::new(vec![target("o", "r", 1)], 1);
    resolver.answer(Answer::Failed);
    resolver.answer(Answer::Issue(issue(1)));
    resolver.answer(Answer::PullRequest(pull(1)));
    assert_eq!(resolver.request(), Request::Quota);
    resolver.answer(Answer::Quota(5));
    resolver.answer(Answer::Quota(0));
    resolver.answer(Answer::Issue(issue(1)));
    assert_eq!(
        resolver.request(),
        Request::PullRequest { owner: "o".into(), repo: "r".into(), number: 1 }
    );
    resolver.answer(Answer::Failed);
    resolver.answer(Answer::PullRequest(pull(1)));
    resolver.answer(Answer::Quota(0));
    assert_eq!(
        resolver.request(),
        Request::Issue { owner: "o".into(), repo: "r".into(), number: 1 }
    );
    resolver.answer(Answer::Failed);
    assert_eq!(resolver.request(), Request::Done);
    resolver.answer(Answer::Issue(issue(1)));
    resolver.answer(Answer::Quota(9));
    assert_eq!(resolver.finish(), None);
}

#[test]
fn a_target_gives_at_most_one_embed() {
    let mut resolver = Resolver::new(vec![target("o", "r", 1), target("o", "r", 2)], 1);
    resolver.answer(Answer::Quota(9));
    resolver.answer(Answer::PullRequest(pull(1)));
    resolver.answer(Answer::PullRequest(pull(1)));
    resolver.answer(Answer::Issue(issue(1)));
    resolver.answer(Answer::Quota(9));
    resolver.answer(Answer::Failed);
    resolver.answer(Answer::Issue(issue(2)));
    resolver.answer(Answer::Issue(issue(2)));
    resolver.answer(Answer::PullRequest(pull(2)));
    assert!(resolver.is_done());
    assert_eq!(resolver.finish(), Some(vec![pull(1).embed(), issue(2).embed()]));
}

#[test]
fn nothing_to_resolve_means_nothing_to_reply() {
    let resolver = Resolver::new(Vec::new(), 1);
    assert!(resolver.is_done());
    assert_eq!(resolver.request(), Request::Done);
    assert_eq!(resolver.finish(), None);
}
