use rusty_lib::app_state::{AppState, CtxRequesterDataPerEndpoint};
use rusty_lib::core_args::LogLevel;
use rusty_lib::dtk_error::DtkError;
use rusty_lib::pocket_model::PocketSrcType;
use rusty_lib::pocket_utils::{
    get_pocket_src_type, get_valid_title, get_valid_url, inject_tags_from_url,
};
use rusty_lib::str_order::str_le;
use rusty_lib::tasks::TaskSpawner;
use rusty_lib::utils::{
    double, get_default_article_tag, is_string_num, is_valid_mongo_search, null_if_empty,
    str_contains_sub, str_eq,
};

#[test]
fn test_is_valid_mongo_search() {
    let mut search = "go ? baakey@github.com";
    assert_eq!(is_valid_mongo_search(search), true);
    search = "let's push,_ this - !";
    assert_eq!(is_valid_mongo_search(search), true);
    search = "let:s push this";
    assert_eq!(is_valid_mongo_search(search), false);
}

#[test]
fn to_double() {
    let mut to_double = vec![1, -2, 42, 0, 100, 84, 21, 51, 23, 64];
    double(&mut to_double);
    double(&mut to_double);
    assert_eq!(vec![4, -8, 168, 0, 400, 336, 84, 204, 92, 256], to_double);
}

#[test]
fn null_if_empty_cases() {
    assert_eq!(null_if_empty(String::new()), None);
    assert_eq!(null_if_empty("x".to_string()), Some("x".to_string()));
}

#[test]
fn is_string_num_cases() {
    assert!(is_string_num("12345"));
    assert!(is_string_num(""));
    assert!(!is_string_num("12a45"));
}

#[test]
fn default_article_tags() {
    assert_eq!(get_default_article_tag("https://www.instagram.com/p/xyz"), "instagram");
    assert_eq!(get_default_article_tag("https://twitter.com/someone"), "twitter");
    assert_eq!(get_default_article_tag("https://youtu.be/abc"), "youtube");
    assert_eq!(get_default_article_tag("https://github.com/owner/repo"), "github");
    assert_eq!(get_default_article_tag("https://example.org/post"), "article");
}

#[test]
fn substring_search() {
    assert!(str_contains_sub("hello world", "lo wo"));
    assert!(str_contains_sub("hello", ""));
    assert!(!str_contains_sub("hello", "world"));
    assert!(!str_contains_sub("hi", "hello"));
}

#[test]
fn string_equality() {
    assert!(str_eq("abc", "abc"));
    assert!(!str_eq("abc", "abd"));
    assert!(!str_eq("abc", "abcd"));
}

#[test]
fn lexicographic_order() {
    assert!(str_le("2023-01-02", "2023-03-01"));
    assert!(!str_le("2023-03-01", "2023-01-30"));
    assert!(str_le("abc", "abcd"));
    assert!(str_le("", "a"));
}

#[test]
fn pocket_src_type_text() {
    assert_eq!(PocketSrcType::INSTAGRAM.to_string(), "instagram");
    assert_eq!(PocketSrcType::TWITTER.to_string(), "twitter");
    assert_eq!(PocketSrcType::YOUTUBE.to_string(), "youtube");
    assert_eq!(PocketSrcType::GITHUB.to_string(), "github");
    assert_eq!(PocketSrcType::ARTICLE.to_string(), "article");
}

#[test]
fn valid_url_prefers_given() {
    assert_eq!(get_valid_url("https://a".to_string(), "https://b".to_string()), "https://a");
    assert_eq!(get_valid_url(String::new(), "https://b".to_string()), "https://b");
    assert_eq!(get_valid_title(String::new(), "Resolved".to_string()), "Resolved");
    assert_eq!(get_valid_title("Given".to_string(), "Resolved".to_string()), "Given");
}

#[test]
fn pocket_src_type_from_urls() {
    assert_eq!(
        get_pocket_src_type("https://youtu.be/abc".to_string(), String::new()),
        "youtube"
    );
    assert_eq!(
        get_pocket_src_type(String::new(), "https://github1s.com/o/r".to_string()),
        "github"
    );
    assert_eq!(get_pocket_src_type("https://example.org".to_string(), String::new()), "article");
}

#[test]
fn injected_tags() {
    let tags = inject_tags_from_url(
        "https://github.com/owner/repo".to_string(),
        String::new(),
        vec!["rust".to_string()],
    );
    assert_eq!(tags, vec!["rust".to_string(), "github".to_string(), "tech".to_string()]);

    let untagged = inject_tags_from_url("https://example.org".to_string(), String::new(), vec![]);
    assert_eq!(untagged, vec!["article".to_string()]);

    let kept = inject_tags_from_url(
        "https://twitter.com/x".to_string(),
        String::new(),
        vec!["twitter".to_string()],
    );
    assert_eq!(kept, vec!["twitter".to_string()]);
}

#[test]
fn dtk_error_carries_message() {
    let e = DtkError::new("JWT not valid");
    assert_eq!(e.message(), "JWT not valid");
}

#[test]
fn task_spawner_lifecycle() {
    let mut task: TaskSpawner<String> = TaskSpawner::new(3);
    assert_eq!(task.id, 3);
    assert!(!task.success);
    task.set_task_data("Thread finished".to_string());
    task.set_success(true);
    assert_eq!(task.data, "Thread finished");
    assert!(task.success);
}

#[test]
fn endpoint_counters() {
    let mut state = AppState {
        dev_mode: false,
        log_level: LogLevel::INFO,
        app_name: "core".to_string(),
        cron_time_secs: 10,
        scheduler_time: "1/15 * * * * * *".to_string(),
        max_endpoint_count: 100,
        counters: Vec::new(),
    };
    state.update_endpoint_count("/hey-1.2.3.4");
    state.update_endpoint_count("/hey-1.2.3.4");
    state.update_endpoint_count("/echo-1.2.3.4");
    assert_eq!(state.get_endpoint_count("/hey-1.2.3.4"), 2);
    assert_eq!(state.get_endpoint_count("/echo-1.2.3.4"), 1);
}

#[test]
fn endpoint_counter_record() {
    let mut c = CtxRequesterDataPerEndpoint { endpoint_count_for_ip: 0 };
    c.add_endpoint_count();
    c.add_endpoint_count();
    assert_eq!(c.endpoint_count_for_ip, 2);
}
