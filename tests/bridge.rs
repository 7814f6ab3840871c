use chat_bridge::channel::ChannelIdentifier;
use chat_bridge::config::{default_listen_address, default_log_level, Bridge, FilterMode, Message};
use chat_bridge::filter::ExcludeFilter;
use chat_bridge::harness::{channel_values, task_exited, PlatformStep, PlatformsBuilder, StartupError, TASK_EXIT_STATUS};
use chat_bridge::mirror::{mark_name, mirror_message, render_content, supports_zws, Dispatch, IncomingMessage};
use chat_bridge::router::{ConfigError, MessageRouter};

fn bridge(a: &str, b: &str) -> Bridge {
    Bridge {
        channels: [a.to_string(), b.to_string()],
        bidirectional: None,
        insert_zws_into_names: None,
        exclude_filters: Vec::new(),
        filter_mode: FilterMode::default(),
    }
}

fn chat(channel: Option<&str>, name: Option<&str>, contents: &str) -> IncomingMessage {
    IncomingMessage {
        channel_id: channel.map(|c| c.to_string()),
        user_id: name.map(|c| c.to_string()),
        user_name: name.map(|c| c.to_string()),
        user_color: None,
        contents: contents.to_string(),
    }
}

fn zws_table() -> Vec<(String, bool)> {
    vec![("twitch".to_string(), true), ("factorio".to_string(), false)]
}

fn no_aliases() -> Message {
    Message { platform_aliases: Vec::new() }
}

fn route(router: &MessageRouter, source: &str, msg: &IncomingMessage) -> Vec<Dispatch> {
    mirror_message(router, &zws_table(), &no_aliases(), source, msg)
}

#[test]
fn channel_round_trip() {
    let c = ChannelIdentifier::from_str("p:v");
    assert_eq!(c.platform, "p");
    assert_eq!(c.value.as_deref(), Some("v"));
    assert_eq!(c.render(), "p:v");
    let bare = ChannelIdentifier::from_str("p");
    assert_eq!(bare.value, None);
    assert_eq!(bare.render(), "p");
}

#[test]
fn channel_splits_at_first_colon() {
    let c = ChannelIdentifier::from_str("a:b:c");
    assert_eq!(c.platform, "a");
    assert_eq!(c.value.as_deref(), Some("b:c"));
    assert_eq!(c.render(), "a:b:c");
    let empty = ChannelIdentifier::from_str("x:");
    assert_eq!(empty.value.as_deref(), Some(""));
    assert_eq!(empty.render(), "x:");
}

#[test]
fn channel_equality_is_exact() {
    let a = ChannelIdentifier::from_str("twitch:123");
    assert!(a.same_as(&ChannelIdentifier::from_str("twitch:123")));
    assert!(!a.same_as(&ChannelIdentifier::from_str("Twitch:123")));
    assert!(!a.same_as(&ChannelIdentifier::from_str("twitch")));
}

#[test]
fn defaults() {
    assert_eq!(default_log_level(), "info");
    assert_eq!(default_listen_address(), "0.0.0.0:8000");
    assert!(matches!(FilterMode::default(), FilterMode::FinalMessage));
    let b = bridge("a", "b");
    assert!(b.is_bidirectional());
    assert!(!b.inserts_zws());
}

#[test]
fn bidirectional_bridge_links_both_ways() {
    let mut b = bridge("twitch:1", "factorio");
    b.insert_zws_into_names = Some(true);
    b.exclude_filters = vec!["^!".to_string()];
    b.filter_mode = FilterMode::SourceMessage;
    let router = MessageRouter::new(&vec![b]).ok().unwrap();
    assert_eq!(router.channel_links.len(), 2);
    let fwd = &router.channel_links[0];
    let back = &router.channel_links[1];
    assert_eq!(fwd.source.render(), "twitch:1");
    assert_eq!(fwd.target.channel.render(), "factorio");
    assert_eq!(back.source.render(), "factorio");
    assert_eq!(back.target.channel.render(), "twitch:1");
    for l in [fwd, back] {
        assert!(l.target.insert_zws);
        assert_eq!(l.target.exclude_filters.len(), 1);
        assert_eq!(l.target.exclude_filters[0].pattern(), "^!");
        assert!(matches!(l.target.filter_mode, FilterMode::SourceMessage));
    }
}

#[test]
fn one_way_bridge_links_forward_only() {
    let mut b = bridge("twitch:1", "factorio");
    b.bidirectional = Some(false);
    let router = MessageRouter::new(&vec![b]).ok().unwrap();
    assert_eq!(router.channel_links.len(), 1);
    assert_eq!(router.channel_links[0].source.render(), "twitch:1");
    let from_factorio = route(&router, "factorio", &chat(None, None, "hello"));
    assert!(from_factorio.is_empty());
}

#[test]
fn invalid_filter_names_bridge_and_pattern() {
    let mut bad = bridge("a", "b");
    bad.exclude_filters = vec!["ok".to_string(), "foo(bar".to_string(), "[".to_string()];
    match MessageRouter::new(&vec![bridge("x", "y"), bad]) {
        Err(ConfigError::InvalidFilter { bridge_index, pattern }) => {
            assert_eq!(bridge_index, 1);
            assert_eq!(pattern, "foo(bar");
        }
        Ok(_) => panic!("an invalid pattern was accepted"),
    }
}

#[test]
fn filter_compiles_and_matches() {
    assert!(ExcludeFilter::compile("foo(bar").is_none());
    let f = ExcludeFilter::compile("^\\[twitch\\]").unwrap();
    assert!(f.is_match("[twitch] bob: hi"));
    assert!(!f.is_match("[factorio] hi"));
    assert!(f.duplicate().is_match("[twitch] x"));
}

#[test]
fn end_to_end_twitch_and_factorio() {
    let router = MessageRouter::new(&vec![bridge("twitch:123", "factorio")]).ok().unwrap();
    let out = route(&router, "twitch", &chat(Some("123"), Some("bob"), "hi"));
    assert_eq!(out.len(), 1);
    assert_eq!(out[0].platform, "factorio");
    assert_eq!(out[0].message.content, "[twitch] bob: hi");
    assert_eq!(out[0].message.target_channel_id, None);
    assert_eq!(out[0].message.source_platform_name, "twitch");
    assert_eq!(out[0].message.source_msg.contents, "hi");
    assert_eq!(out[0].message.source_msg.user_name.as_deref(), Some("bob"));

    let back = route(&router, "factorio", &chat(None, None, "hello"));
    assert_eq!(back.len(), 1);
    assert_eq!(back[0].platform, "twitch");
    assert_eq!(back[0].message.content, "[factorio] hello");
    assert_eq!(back[0].message.target_channel_id.as_deref(), Some("123"));
}

#[test]
fn unknown_channel_is_dropped() {
    let router = MessageRouter::new(&vec![bridge("twitch:123", "factorio")]).ok().unwrap();
    assert!(route(&router, "twitch", &chat(Some("999"), Some("bob"), "hi")).is_empty());
    assert!(route(&router, "twitch", &chat(None, Some("bob"), "hi")).is_empty());
}

#[test]
fn shared_source_fans_out_in_order() {
    let router = MessageRouter::new(&vec![bridge("twitch:1", "factorio"), bridge("twitch:1", "twitch:2")]).ok().unwrap();
    let out = route(&router, "twitch", &chat(Some("1"), Some("bob"), "hi"));
    assert_eq!(out.len(), 2);
    assert_eq!(out[0].platform, "factorio");
    assert_eq!(out[1].platform, "twitch");
    assert_eq!(out[1].message.target_channel_id.as_deref(), Some("2"));
}

#[test]
fn rendering_with_and_without_name() {
    assert_eq!(render_content("alias", &None, "contents", false), "[alias] contents");
    assert_eq!(render_content("alias", &Some("bob".to_string()), "hi", false), "[alias] bob: hi");
}

#[test]
fn alias_replaces_platform_name() {
    let router = MessageRouter::new(&vec![bridge("factorio", "twitch:5")]).ok().unwrap();
    let aliases = Message { platform_aliases: vec![("factorio".to_string(), "Game".to_string())] };
    let out = mirror_message(&router, &zws_table(), &aliases, "factorio", &chat(None, Some("al"), "gg"));
    assert_eq!(out.len(), 1);
    assert_eq!(out[0].message.content, "[Game] al: gg");
    assert_eq!(out[0].message.source_platform_name, "Game");
    assert_eq!(aliases.display_name("twitch"), "twitch");
}

#[test]
fn marker_inserted_after_first_character() {
    let marked = mark_name("bob");
    assert_eq!(marked, "b\u{E0000}ob");
    assert_ne!(marked, "bob");
    assert_eq!(marked.chars().count(), 4);
    assert_eq!(marked.replace('\u{E0000}', ""), "bob");

    let mut b = bridge("factorio", "twitch:5");
    b.insert_zws_into_names = Some(true);
    let router = MessageRouter::new(&vec![b]).ok().unwrap();
    let out = route(&router, "factorio", &chat(None, Some("bob"), "hi"));
    assert_eq!(out[0].message.content, "[factorio] b\u{E0000}ob: hi");
    let short = route(&router, "factorio", &chat(None, Some("b"), "hi"));
    assert_eq!(short[0].message.content, "[factorio] b: hi");
}

#[test]
fn no_marker_toward_incapable_platform() {
    let mut b = bridge("twitch:5", "factorio");
    b.insert_zws_into_names = Some(true);
    let router = MessageRouter::new(&vec![b]).ok().unwrap();
    let out = route(&router, "twitch", &chat(Some("5"), Some("bob"), "hi"));
    assert_eq!(out[0].message.content, "[twitch] bob: hi");
    assert!(supports_zws(&zws_table(), &"twitch".to_string()));
    assert!(!supports_zws(&zws_table(), &"factorio".to_string()));
    assert!(!supports_zws(&zws_table(), &"other".to_string()));
}

#[test]
fn filter_drops_one_link_only() {
    let mut filtered = bridge("twitch:1", "factorio");
    filtered.exclude_filters = vec!["secret".to_string()];
    let router = MessageRouter::new(&vec![filtered, bridge("twitch:1", "twitch:2")]).ok().unwrap();
    let out = route(&router, "twitch", &chat(Some("1"), Some("bob"), "a secret"));
    assert_eq!(out.len(), 1);
    assert_eq!(out[0].platform, "twitch");
    let both = route(&router, "twitch", &chat(Some("1"), Some("bob"), "public"));
    assert_eq!(both.len(), 2);
}

#[test]
fn filter_modes_match_different_text() {
    let mut fin = bridge("twitch:1", "factorio");
    fin.exclude_filters = vec!["^\\[twitch\\]".to_string()];
    let router = MessageRouter::new(&vec![fin]).ok().unwrap();
    assert!(route(&router, "twitch", &chat(Some("1"), Some("bob"), "hi")).is_empty());

    let mut src = bridge("twitch:1", "factorio");
    src.exclude_filters = vec!["^\\[twitch\\]".to_string()];
    src.filter_mode = FilterMode::SourceMessage;
    let router = MessageRouter::new(&vec![src]).ok().unwrap();
    assert_eq!(route(&router, "twitch", &chat(Some("1"), Some("bob"), "hi")).len(), 1);
    assert!(route(&router, "twitch", &chat(Some("1"), Some("bob"), "[twitch] loop")).is_empty());
}

#[test]
fn startup_fails_without_platforms() {
    let router = MessageRouter::new(&vec![bridge("twitch:1", "factorio")]).ok().unwrap();
    let mut b = PlatformsBuilder::new();
    assert!(matches!(b.init_platform(&router, "twitch", true, false), PlatformStep::Skip));
    assert!(matches!(b.init_platform(&router, "factorio", false, false), PlatformStep::Skip));
    assert_eq!(b.zws_support.len(), 2);
    assert!(matches!(b.finish(), Err(StartupError::NoPlatforms)));
}

#[test]
fn startup_records_configured_platforms() {
    let router = MessageRouter::new(&vec![
        bridge("twitch:1", "factorio"),
        bridge("twitch:2", "twitch:1"),
        bridge("twitch:1", "factorio"),
    ])
    .ok()
    .unwrap();
    let mut b = PlatformsBuilder::new();
    match b.init_platform(&router, "twitch", true, true) {
        PlatformStep::Start { channel_values } => assert_eq!(channel_values, vec!["1".to_string(), "2".to_string()]),
        PlatformStep::Skip => panic!("a configured platform was skipped"),
    }
    assert!(matches!(b.init_platform(&router, "factorio", false, true), PlatformStep::Start { .. }));
    assert_eq!(b.started, vec!["twitch".to_string(), "factorio".to_string()]);
    assert_eq!(b.finish().ok(), Some(2));
    assert!(channel_values(&router, "factorio").is_empty());
}

#[test]
fn task_exit_is_fatal_either_way() {
    let ok = task_exited("web", &Ok(()));
    let err = task_exited("twitch", &Err("boom".to_string()));
    assert_eq!(ok.exit_status, TASK_EXIT_STATUS);
    assert_eq!(err.exit_status, TASK_EXIT_STATUS);
    assert_ne!(TASK_EXIT_STATUS, 0);
    assert_eq!(ok.message, "Worker 'web' exited unexpectedly: Ok(())");
    assert_eq!(err.message, "Worker 'twitch' exited unexpectedly: Err(boom)");
}
