use shoka::gh::{
    classify_ci, latest_ci_status, list_open_issues, list_repos, recent_weekly_commits,
    repo_route, resolve_token, snapshot_of, without_archived, CiStatus, ListedItem, PickerItem,
    RepoListItem, RunMinimal, ACTIVITY_WEEKS,
};

#[test]
fn repo_list_item_display_includes_description() {
    let item = RepoListItem {
        owner: "yukimemi".into(),
        name: "shoka".into(),
        description: Some("书架".into()),
        archived: false,
    };
    assert_eq!(item.display(), "yukimemi/shoka  —  书架");
}

#[test]
fn repo_list_item_display_falls_back_to_slug_when_no_description() {
    let item = RepoListItem {
        owner: "yukimemi".into(),
        name: "shoka".into(),
        description: None,
        archived: false,
    };
    assert_eq!(item.display(), "yukimemi/shoka");
    let empty_desc = RepoListItem {
        description: Some(String::new()),
        ..item
    };
    assert_eq!(empty_desc.display(), "yukimemi/shoka");
}

#[test]
fn token_of_the_environment_comes_first() {
    assert_eq!(
        resolve_token(Some("test-token-xyz".into()), Some("other".into())).as_deref(),
        Some("test-token-xyz")
    );
    assert_eq!(
        resolve_token(Some(String::new()), Some(" from-gh \n".into())).as_deref(),
        Some("from-gh")
    );
    assert_eq!(resolve_token(None, Some("  \n".into())), None);
    assert_eq!(resolve_token(None, None), None);
}

fn run(status: &str, conclusion: Option<&str>) -> RunMinimal {
    RunMinimal {
        status: status.into(),
        conclusion: conclusion.map(str::to_string),
    }
}

#[test]
fn each_conclusion_has_its_status() {
    assert_eq!(classify_ci(&run("completed", Some("success"))), CiStatus::Success);
    assert_eq!(classify_ci(&run("completed", Some("failure"))), CiStatus::Failure);
    assert_eq!(classify_ci(&run("completed", Some("skipped"))), CiStatus::Skipped);
    assert_eq!(classify_ci(&run("completed", Some("cancelled"))), CiStatus::Other);
    assert_eq!(classify_ci(&run("in_progress", None)), CiStatus::Pending);
    assert_eq!(classify_ci(&run("queued", Some("success"))), CiStatus::Pending);
}

#[test]
fn latest_run_is_the_first_one_listed() {
    assert_eq!(latest_ci_status(&[]), None);
    assert_eq!(
        latest_ci_status(&[
            run("completed", Some("failure")),
            run("completed", Some("success")),
        ]),
        Some(CiStatus::Failure)
    );
}

#[test]
fn activity_keeps_the_last_weeks() {
    let year: Vec<u32> = (0..52).collect();
    let recent = recent_weekly_commits(&year).unwrap();
    assert_eq!(recent.len(), ACTIVITY_WEEKS);
    assert_eq!(recent, (40..52).collect::<Vec<u32>>());
    assert_eq!(recent_weekly_commits(&[3, 4]), Some(vec![3, 4]));
    assert_eq!(recent_weekly_commits(&[]), None);
    let snap = snapshot_of(7, None, Some(year));
    assert_eq!(snap.open_pr_count, Some(7));
    assert_eq!(snap.ci_status, None);
    assert_eq!(snap.weekly_commits.unwrap().len(), ACTIVITY_WEEKS);
}

#[test]
fn issue_list_leaves_pull_requests_out() {
    let item = |number: u64| PickerItem {
        number,
        title: "t".into(),
        html_url: "u".into(),
        labels: vec![],
    };
    let listed = vec![
        ListedItem { item: item(1), is_pull_request: false },
        ListedItem { item: item(2), is_pull_request: true },
        ListedItem { item: item(3), is_pull_request: false },
    ];
    let issues: Vec<u64> = list_open_issues(listed).iter().map(|i| i.number).collect();
    assert_eq!(issues, vec![1, 3]);
}

#[test]
fn archived_repositories_are_left_out() {
    let repo = |name: &str, archived: bool| RepoListItem {
        owner: "o".into(),
        name: name.into(),
        description: None,
        archived,
    };
    let kept = without_archived(vec![repo("a", false), repo("b", true), repo("c", false)]);
    let names: Vec<&str> = kept.iter().map(|r| r.name.as_str()).collect();
    assert_eq!(names, vec!["a", "c"]);
}

#[test]
fn repositories_are_listed_by_whom_they_belong_to() {
    let own = list_repos(None, false);
    assert_eq!(own.route, "/user/repos");
    assert!(own.params.contains(&("affiliation", "owner")));
    let org = list_repos(Some("acme"), true);
    assert_eq!(org.route, "/orgs/acme/repos");
    assert_eq!(org.params, vec![("sort", "updated"), ("per_page", "100")]);
    assert_eq!(list_repos(Some("u"), false).route, "/users/u/repos");
    assert_eq!(repo_route("o", "n", "pulls"), "/repos/o/n/pulls");
}

#[test]
fn picker_search_key_includes_number_title_and_labels() {
    let item = PickerItem {
        number: 42,
        title: "fix the thing".into(),
        html_url: "https://github.com/x/y/issues/42".into(),
        labels: vec!["bug".into(), "p1".into()],
    };
    let key = item.search_key();
    assert!(key.contains("42"), "number missing: {key}");
    assert!(key.contains("fix the thing"), "title missing: {key}");
    assert!(key.contains("bug"), "label missing: {key}");
    assert!(key.contains("p1"), "label missing: {key}");
    assert_eq!(key, "#42 fix the thing [bug,p1]");
}
