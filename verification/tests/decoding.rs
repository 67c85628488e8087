use carter_client::plugins::collect_listing;
use carter_client::plugins::decode_plugin_info;
use carter_client::plugins::decode_plugin_list;
use carter_client::plugins::parse_plugin_info;
use carter_client::plugins::parse_plugin_list_ids;
use carter_client::plugins::Plugin;
use carter_client::protocol::CarterOutput;
use carter_client::protocol::ChatResponse;

fn chat_response_with(text: Option<&str>) -> ChatResponse {
    ChatResponse {
        output: text.map(|t| CarterOutput { text: t.to_string(), audio: None }),
        input: None,
        forced_behaviours: None,
        agent: None,
    }
}

#[test]
fn info_reply_with_description() {
    let text = "Here is some info about #weather:\nName: Weather\nDescription: gives forecasts\n";
    let p = parse_plugin_info(text).expect("well-formed reply must decode");
    assert_eq!(p.id, "weather");
    assert_eq!(p.name, "Weather");
    assert_eq!(p.description.as_deref(), Some("gives forecasts"));
}

#[test]
fn info_reply_with_two_hash_markers() {
    let text = "Plugin #weather#: a forecast tool\nName: Weather\n";
    let p = parse_plugin_info(text).expect("well-formed reply must decode");
    assert_eq!(p.id, "weather");
    assert_eq!(p.name, "Weather");
    assert_eq!(p.description, None);
}

#[test]
fn info_reply_missing_name_line() {
    assert!(parse_plugin_info("Here is #weather:\n").is_none());
    assert!(parse_plugin_info("Here is #weather:").is_none());
    assert!(parse_plugin_info("").is_none());
}

#[test]
fn info_reply_name_line_without_separator() {
    assert!(parse_plugin_info("Here is #weather:\nNameWeather\n").is_none());
}

#[test]
fn info_reply_without_hash_marker() {
    assert!(parse_plugin_info("weather\nName: Weather\n").is_none());
}

#[test]
fn info_reply_without_description_line() {
    let text = "About #news:\nName: News\nVersion: 2\nAuthor: someone\n";
    let p = parse_plugin_info(text).expect("well-formed reply must decode");
    assert_eq!(p.id, "news");
    assert_eq!(p.name, "News");
    assert_eq!(p.description, None);
}

#[test]
fn info_reply_last_description_wins() {
    let text = "About #news:\nName: News\nDescription: first\nDescription: second\n";
    let p = parse_plugin_info(text).expect("well-formed reply must decode");
    assert_eq!(p.description.as_deref(), Some("second"));
}

#[test]
fn info_reply_malformed_pair_line_fails() {
    let text = "About #news:\nName: News\nno separator here\n";
    assert!(parse_plugin_info(text).is_none());
}

#[test]
fn info_reply_name_keeps_everything_after_first_separator() {
    let text = "About #news:\nName: News: daily edition\n";
    let p = parse_plugin_info(text).expect("well-formed reply must decode");
    assert_eq!(p.name, "News: daily edition");
}

#[test]
fn list_reply_in_order() {
    let text = "Here are the plugins:\nweather - Weather\nnews - News\ncalc - Calculator\n";
    let ids = parse_plugin_list_ids(text).expect("well-formed reply must decode");
    assert_eq!(ids, vec!["weather", "news", "calc"]);
}

#[test]
fn list_reply_header_is_discarded_even_with_separator() {
    let text = "all - of them:\nweather - Weather\n";
    let ids = parse_plugin_list_ids(text).expect("well-formed reply must decode");
    assert_eq!(ids, vec!["weather"]);
}

#[test]
fn list_reply_missing_separator_fails_whole_listing() {
    let text = "Here are the plugins:\nweather - Weather\nbroken line\n";
    assert!(parse_plugin_list_ids(text).is_none());
}

#[test]
fn list_reply_empty_lines_are_skipped() {
    let text = "Here are the plugins:\n\nweather - Weather\n\n";
    let ids = parse_plugin_list_ids(text).expect("well-formed reply must decode");
    assert_eq!(ids, vec!["weather"]);
}

#[test]
fn list_reply_ids_are_trimmed() {
    let text = "Here are the plugins:\n   weather\t -  Weather\n";
    let ids = parse_plugin_list_ids(text).expect("well-formed reply must decode");
    assert_eq!(ids, vec!["weather"]);
}

#[test]
fn list_reply_with_header_only_is_empty() {
    let ids = parse_plugin_list_ids("Here are the plugins:\n").expect("header alone is fine");
    assert!(ids.is_empty());
    let ids = parse_plugin_list_ids("").expect("empty reply is an empty catalogue");
    assert!(ids.is_empty());
}

#[test]
fn collect_listing_keeps_order() {
    let infos = vec![
        Some(Plugin { id: "a".to_string(), name: "A".to_string(), description: None }),
        Some(Plugin { id: "b".to_string(), name: "B".to_string(), description: Some("x".to_string()) }),
    ];
    let listing = collect_listing(&infos).expect("all lookups resolved");
    assert_eq!(listing.plugins.len(), 2);
    assert_eq!(listing.plugins[0].id, "a");
    assert_eq!(listing.plugins[1].id, "b");
    assert_eq!(listing.plugins[1].description.as_deref(), Some("x"));
}

#[test]
fn collect_listing_fails_on_any_unresolved_lookup() {
    let infos = vec![
        Some(Plugin { id: "a".to_string(), name: "A".to_string(), description: None }),
        None,
    ];
    assert!(collect_listing(&infos).is_none());
}

#[test]
fn exchange_without_output_has_no_directory() {
    assert!(decode_plugin_list(&chat_response_with(None)).is_none());
    assert!(decode_plugin_info(&chat_response_with(None)).is_none());
}

#[test]
fn exchange_with_output_is_decoded() {
    let listing = chat_response_with(Some("Plugins:\nweather - Weather\n"));
    let ids = decode_plugin_list(&listing).expect("well-formed reply must decode");
    assert_eq!(ids, vec!["weather"]);
    let info = chat_response_with(Some("About #weather:\nName: Weather\nDescription: d\n"));
    let p = decode_plugin_info(&info).expect("well-formed reply must decode");
    assert_eq!(p.id, "weather");
    assert_eq!(p.description.as_deref(), Some("d"));
}
