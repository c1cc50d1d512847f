use backend::admin::{compute_similarity, rank_by_similarity, raw_similarity, top_ranked};
use backend::articles::{list_articles, Article, Status};
use backend::enter::{enter_page_for, submission_for, EnterPage, EnterPageAction, EnterSubmission};
use backend::migrate::Version;
use backend::perms::{parse_perm_var, rank_selectors, Perms, PermsWrapper};
use backend::template::Arg;

#[test]
fn perm_names() {
    assert_eq!(Perms::Admin.as_str(), "Admin");
    assert_eq!(Perms::Editor.as_string(), "Editor".to_string());
    assert_eq!(Perms::iter(), vec![Perms::Admin, Perms::Editor, Perms::User]);
}

#[test]
fn perm_parsing() {
    assert_eq!(parse_perm_var("User"), Ok(PermsWrapper(Perms::User)));
    assert!(parse_perm_var("admin").is_err());
    assert!(parse_perm_var("").is_err());
}

#[test]
fn description_strips_tags_and_cuts() {
    assert_eq!(Article::format_for_description("<b>Hi</b> there"), "Hi there...");
    assert_eq!(Article::format_for_description("a <unclosed"), "a ...");
    let long = "x".repeat(150);
    assert_eq!(Article::format_for_description(&long), format!("{}...", "x".repeat(100)));
    assert_eq!(Article::format_for_description(""), "...");
}

#[test]
fn published_status() {
    let a = Article {
        title: "t".to_string(),
        content: "c".to_string(),
        author: "ann".to_string(),
        created_at: 0,
        updated_at: 0,
        uuid: "u".to_string(),
        status: Status::NeedsReview,
    };
    assert!(!a.is_published());
}

#[test]
fn similarity_scores() {
    assert_eq!(raw_similarity("", "abc"), 3);
    assert_eq!(raw_similarity("ab", "ab"), 2);
    assert_eq!(raw_similarity("ab", "xy"), 0);
    assert_eq!(compute_similarity("AB", "ab"), 2);
}

#[test]
fn ranking_is_best_first_and_stable() {
    assert_eq!(top_ranked(&vec![1, 3, 2, 3]), vec![1, 3, 2, 0]);
    let many: Vec<usize> = (0..12).collect();
    assert_eq!(top_ranked(&many), vec![11, 10, 9, 8, 7, 6, 5, 4, 3, 2]);
    let names = vec!["xy".to_string(), "Ab".to_string()];
    assert_eq!(rank_by_similarity(&names, "ab"), vec![1, 0]);
}

#[test]
fn enter_page_decisions() {
    assert_eq!(enter_page_for(Some(EnterPageAction::LogOut), true), EnterPage::LogOut);
    assert_eq!(enter_page_for(Some(EnterPageAction::SignUp), true), EnterPage::AlreadyLoggedIn);
    assert_eq!(enter_page_for(Some(EnterPageAction::SignUp), false), EnterPage::SignUp);
    assert_eq!(enter_page_for(None, false), EnterPage::LogIn);
    assert_eq!(submission_for(EnterPageAction::LogOut, false), EnterSubmission::NoAction);
    assert_eq!(submission_for(EnterPageAction::LogIn, true), EnterSubmission::AlreadyLoggedIn);
}

#[test]
fn version_arithmetic() {
    assert_eq!(u8::from(Version::V0_2_0), 1);
    assert_eq!(Version::from(0u8), Version::V0_1_0);
    assert_eq!(Version::from(7u8), Version::V0_2_0);
    assert_eq!(Version::V0_1_0.add(1), Version::V0_2_0);
    assert!(Version::V0_1_0.precedes(Version::V0_2_0));
    assert_eq!(Version::V0_1_0.name(), "v0-1-0");
}

fn article(author: &str, created_at: i64, status: Status) -> Article {
    Article {
        title: format!("{}-{}", author, created_at),
        content: String::new(),
        author: author.to_string(),
        created_at,
        updated_at: created_at,
        uuid: String::new(),
        status,
    }
}

#[test]
fn listing_is_newest_first_and_filtered() {
    let all = vec![
        article("ann", 5, Status::Published),
        article("bob", 9, Status::Published),
        article("ann", 7, Status::NeedsReview),
        article("ann", 9, Status::Published),
        article("ann", 5, Status::Published),
    ];
    assert_eq!(list_articles(&all, None, None), vec![1, 3, 2, 0, 4]);
    assert_eq!(list_articles(&all, Some("ann"), Some(Status::Published)), vec![3, 0, 4]);
    assert_eq!(list_articles(&all, None, Some(Status::NeedsReview)), vec![2]);
    assert_eq!(list_articles(&all, Some("zed"), None), Vec::<usize>::new());
}

#[test]
fn new_article_awaits_review() {
    let a = Article::create_new("t".to_string(), "c".to_string(), "ann".to_string());
    assert_eq!(a.status, Status::NeedsReview);
    assert_eq!(a.uuid.len(), 36);
    assert_eq!(a.created_at, a.updated_at);
    assert_eq!(a.author, "ann");
}

#[test]
fn selectors_mark_the_current_level() {
    let r = rank_selectors(Perms::Editor);
    let keys: Vec<&str> = r.iter().map(|e| e.key.as_str()).collect();
    assert_eq!(keys, vec!["admin_selected", "editor_selected", "user_selected"]);
    let flags: Vec<bool> = r.iter().map(|e| matches!(e.value, Arg::Bool(true))).collect();
    assert_eq!(flags, vec![false, true, false]);
}
