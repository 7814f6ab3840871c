use chat_bridge::factorio::{console_command, parse_log_line, player_list_text, process_log};
use chat_bridge::mirror::{IncomingMessage, OutgoingMessage};
use chat_bridge::twitch::{
    auth_redirect_url, channels_to_subscribe, check_auth_redirect, eventsub_callback_url, incoming_chat_message, scopes_for,
    AuthRedirectParams, AuthenticationMode, BotScope, RedirectOutcome,
};

fn outgoing(name: Option<&str>, color: Option<&str>, contents: &str, content: &str) -> OutgoingMessage {
    OutgoingMessage {
        content: content.to_string(),
        target_channel_id: None,
        source_platform_name: "twitch".to_string(),
        source_msg: IncomingMessage {
            channel_id: Some("1".to_string()),
            user_id: None,
            user_name: name.map(|s| s.to_string()),
            user_color: color.map(|s| s.to_string()),
            contents: contents.to_string(),
        },
    }
}

#[test]
fn chat_line_parsed() {
    let m = parse_log_line("CHAT alice: hello there").unwrap();
    assert_eq!(m.user_name.as_deref(), Some("alice"));
    assert_eq!(m.user_id.as_deref(), Some("alice"));
    assert_eq!(m.contents, "hello there");
    assert_eq!(m.channel_id, None);
    assert!(parse_log_line("CHAT <server>: restarting").is_none());
    assert!(parse_log_line("CHAT nobody").is_none());
    assert!(parse_log_line("nospace").is_none());
}

#[test]
fn other_events_parsed() {
    let m = parse_log_line("JOIN alice joined the game").unwrap();
    assert_eq!(m.contents, "alice joined the game");
    assert_eq!(m.user_name, None);
    let p = parse_log_line("PLAYERLIST alice nauvis;bob Nauvis Orbit").unwrap();
    assert_eq!(p.contents, "alice is on Nauvis, bob is on Nauvis Orbit");
    assert_eq!(player_list_text("solo"), "solo");
}

#[test]
fn log_split_into_lines() {
    let ms = process_log("CHAT a: x\r\nJOIN b joined\n\nCHAT <server>: y\nLEAVE c left");
    let contents: Vec<&str> = ms.iter().map(|m| m.contents.as_str()).collect();
    assert_eq!(contents, vec!["x", "b joined", "c left"]);
    assert!(process_log("").is_empty());
}

#[test]
fn console_commands() {
    assert_eq!(console_command(&outgoing(Some("bob"), None, "/players", "")), "/bridge-player-list");
    assert_eq!(console_command(&outgoing(Some("bob"), None, "/players all", "")), "/bridge-player-list");
    assert_eq!(console_command(&outgoing(Some("bob"), None, "hi", "[twitch] bob: hi")), "/puppet [twitch] bob: hi");
    assert_eq!(
        console_command(&outgoing(Some("bob"), Some("ff0000"), "hi", "")),
        "/puppet [twitch] [color=#ff0000]bob:[/color] hi"
    );
    assert_eq!(console_command(&outgoing(None, None, "hi", "[twitch] hi")), "/puppet [twitch] [twitch] hi");
}

#[test]
fn chat_event_to_message() {
    let m = incoming_chat_message("10", "20", "Bob", "hey", "#00FF00");
    assert_eq!(m.channel_id.as_deref(), Some("10"));
    assert_eq!(m.user_id.as_deref(), Some("20"));
    assert_eq!(m.user_color.as_deref(), Some("00FF00"));
    assert_eq!(incoming_chat_message("10", "20", "Bob", "hey", "").user_color, None);
    assert_eq!(incoming_chat_message("10", "20", "Bob", "hey", "#").user_color, None);
}

#[test]
fn subscriptions_still_needed() {
    let ids = vec!["1".to_string(), "2".to_string(), "3".to_string()];
    let subscribed = vec!["2".to_string(), "9".to_string()];
    assert_eq!(channels_to_subscribe(&ids, &subscribed), vec!["1".to_string(), "3".to_string()]);
}

#[test]
fn sign_in_flow() {
    assert_eq!(scopes_for(AuthenticationMode::Channel), vec![BotScope::ChannelBot]);
    assert_eq!(scopes_for(AuthenticationMode::User).len(), 3);
    assert_eq!(AuthenticationMode::User.name(), "User");
    assert_eq!(eventsub_callback_url("https://x"), "https://x/platform/twitch/eventsub");
    assert_eq!(auth_redirect_url("https://x"), "https://x/platform/twitch/auth/redirect");
    let mut p = AuthRedirectParams { state: "s".to_string(), error_description: None, code: Some("c".to_string()), scope: Some("a b".to_string()) };
    assert!(matches!(check_auth_redirect(&p, true), RedirectOutcome::Trade { .. }));
    assert!(matches!(check_auth_redirect(&p, false), RedirectOutcome::Reply { status: 401, .. }));
    p.scope = None;
    assert!(matches!(check_auth_redirect(&p, true), RedirectOutcome::Reply { status: 400, .. }));
    p.error_description = Some("denied".to_string());
    match check_auth_redirect(&p, true) {
        RedirectOutcome::Reply { status, body } => {
            assert_eq!(status, 422);
            assert_eq!(body, "denied");
        }
        RedirectOutcome::Trade { .. } => panic!("an error was traded"),
    }
}
