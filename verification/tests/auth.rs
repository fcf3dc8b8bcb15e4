use resource_island_server::auth::{
    authorize, check_token, parse_params, query_access, select_candidate, socket_access,
    AuthDecision, QueryParams,
};
use resource_island_server::config::ServerCfg;
use resource_island_server::text::{char_is_whitespace, chars_of, str_eq, substring, trim_window};

#[test]
fn query_token_alone_is_enough() {
    assert_eq!(authorize(true, "token=secret", None, "secret"), AuthDecision::Allowed);
}

#[test]
fn query_token_wins_over_header() {
    assert_eq!(authorize(true, "token=secret", Some("wrong"), "secret"), AuthDecision::Allowed);
    assert_eq!(authorize(true, "token=wrong", Some("secret"), "secret"), AuthDecision::Forbidden);
}

#[test]
fn header_token_is_used_without_query_token() {
    assert_eq!(authorize(true, "", Some("secret"), "secret"), AuthDecision::Allowed);
    assert_eq!(authorize(true, "player=a", Some("secret"), "secret"), AuthDecision::Allowed);
}

#[test]
fn mismatched_token_is_forbidden_on_either_channel() {
    assert_eq!(authorize(true, "token=nope", None, "secret"), AuthDecision::Forbidden);
    assert_eq!(authorize(true, "", Some("nope"), "secret"), AuthDecision::Forbidden);
    assert_eq!(authorize(true, "token=Secret", None, "secret"), AuthDecision::Forbidden);
    assert_eq!(authorize(true, "token=secre", None, "secret"), AuthDecision::Forbidden);
    assert_eq!(authorize(true, "token=", None, "secret"), AuthDecision::Forbidden);
}

#[test]
fn missing_token_is_unauthenticated() {
    assert_eq!(authorize(true, "", None, "secret"), AuthDecision::Unauthenticated);
    assert_eq!(authorize(true, "player=a&x=1", None, "secret"), AuthDecision::Unauthenticated);
}

#[test]
fn disabled_check_allows_everything() {
    assert_eq!(authorize(false, "", None, "secret"), AuthDecision::Allowed);
    assert_eq!(authorize(false, "token=nope", Some("nope"), "secret"), AuthDecision::Allowed);
}

#[test]
fn last_token_parameter_counts() {
    assert_eq!(authorize(true, "token=nope&token=secret", None, "secret"), AuthDecision::Allowed);
    assert_eq!(authorize(true, "token=secret&token=nope", None, "secret"), AuthDecision::Forbidden);
}

#[test]
fn configured_flags_select_the_check() {
    let mut cfg = ServerCfg::with_defaults();
    cfg.token = String::from("secret");
    assert_eq!(socket_access(&cfg, "", None), AuthDecision::Allowed);
    assert_eq!(query_access(&cfg, "", None), AuthDecision::Allowed);
    cfg.use_token = true;
    assert_eq!(socket_access(&cfg, "", None), AuthDecision::Unauthenticated);
    assert_eq!(socket_access(&cfg, "token=secret", None), AuthDecision::Allowed);
    assert_eq!(query_access(&cfg, "", None), AuthDecision::Allowed);
    cfg.query_use_token = true;
    assert_eq!(query_access(&cfg, "token=x", None), AuthDecision::Forbidden);
    assert_eq!(query_access(&cfg, "", Some("secret")), AuthDecision::Allowed);
}

#[test]
fn select_candidate_prefers_query() {
    assert_eq!(select_candidate(Some("q"), Some("h")), Some("q"));
    assert_eq!(select_candidate(None, Some("h")), Some("h"));
    assert_eq!(select_candidate(Some("q"), None), Some("q"));
    assert_eq!(select_candidate(None, None), None);
}

#[test]
fn check_token_compares_exactly() {
    assert_eq!(check_token(None, "t"), AuthDecision::Unauthenticated);
    assert_eq!(check_token(Some("t"), "t"), AuthDecision::Allowed);
    assert_eq!(check_token(Some("t "), "t"), AuthDecision::Forbidden);
    assert_eq!(check_token(Some(""), ""), AuthDecision::Allowed);
}

#[test]
fn parse_params_trims_and_overrides() {
    let params = parse_params(" a = 1 &b=2&&a=3&=x& c ");
    assert_eq!(params.get("a"), Some("3"));
    assert_eq!(params.get("b"), Some("2"));
    assert_eq!(params.get("c"), Some(""));
    assert_eq!(params.get(""), None);
    assert_eq!(params.get("x"), None);
}

#[test]
fn parse_params_splits_at_first_equals_only() {
    let params = parse_params("k=a=b&token==x");
    assert_eq!(params.get("k"), Some("a=b"));
    assert_eq!(params.get("token"), Some("=x"));
}

#[test]
fn parse_params_of_empty_and_blank_input() {
    assert_eq!(parse_params("").get("token"), None);
    assert_eq!(parse_params("&&&").get(""), None);
    assert_eq!(parse_params("   ").get(""), None);
    assert_eq!(parse_params("=").get(""), None);
}

#[test]
fn parse_params_handles_non_ascii_text() {
    let params = parse_params("player=测试玩家&\u{3000}token\u{a0}=\u{2003}钥匙\u{2028}");
    assert_eq!(params.get("player"), Some("测试玩家"));
    assert_eq!(params.get("token"), Some("钥匙"));
}

#[test]
fn query_params_insert_replaces() {
    let mut params = QueryParams::new();
    assert_eq!(params.get("a"), None);
    params.insert(String::from("a"), String::from("1"));
    params.insert(String::from("b"), String::from("2"));
    params.insert(String::from("a"), String::from("3"));
    assert_eq!(params.get("a"), Some("3"));
    assert_eq!(params.get("b"), Some("2"));
}

#[test]
fn whitespace_is_the_unicode_property() {
    let white = [
        '\t', '\n', '\u{b}', '\u{c}', '\r', ' ', '\u{85}', '\u{a0}', '\u{1680}', '\u{2000}',
        '\u{2005}', '\u{200a}', '\u{2028}', '\u{2029}', '\u{202f}', '\u{205f}', '\u{3000}',
    ];
    for c in white {
        assert!(char_is_whitespace(c));
    }
    let other = ['a', '0', '=', '&', '\u{8}', '\u{e}', '\u{200b}', '\u{feff}', '金', '\u{180e}'];
    for c in other {
        assert!(!char_is_whitespace(c));
    }
}

#[test]
fn whitespace_agrees_with_std_on_every_char() {
    let mut code: u32 = 0;
    while code <= 0x10ffff {
        if let Some(c) = char::from_u32(code) {
            assert_eq!(char_is_whitespace(c), c.is_whitespace());
        }
        code += 1;
    }
}

#[test]
fn text_helpers_work_on_chars() {
    assert!(str_eq("", ""));
    assert!(str_eq("铁", "铁"));
    assert!(!str_eq("铁", "金"));
    assert!(!str_eq("ab", "abc"));
    assert_eq!(chars_of("a金b"), vec!['a', '金', 'b']);
    assert_eq!(substring("a金币b", 1, 3), "金币");
    assert_eq!(substring("abc", 2, 2), "");
    let chars = chars_of("  a b \t");
    assert_eq!(trim_window(&chars, 0, chars.len()), (2, 5));
    assert_eq!(trim_window(&chars, 0, 2), (2, 2));
    assert_eq!(trim_window(&chars, 3, 4), (4, 4));
}
