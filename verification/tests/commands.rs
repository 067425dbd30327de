use tahti_radio::sinks::discord::commands::play::{extract_url, play_reply, CommandOption, OptionValue};
use tahti_radio::sinks::discord::handlers::guild_create::{find_radio_channel, ChannelInfo, CHANNEL_NAME};
use tahti_radio::sinks::discord::handlers::interaction::{route, CommandKind};

fn opt(name: &str, value: Option<&str>) -> CommandOption {
    CommandOption {
        name: name.to_owned(),
        value: match value {
            Some(v) => OptionValue::Text(v.to_owned()),
            None => OptionValue::Other,
        },
    }
}

#[test]
fn extract_url_takes_first_string_url_option_trimmed() {
    assert_eq!(extract_url(&vec![opt("url", Some("  https://y/1 "))]).as_deref(), Some("https://y/1"));
    assert_eq!(extract_url(&vec![opt("other", Some("x")), opt("url", Some("u"))]).as_deref(), Some("u"));
    assert_eq!(extract_url(&vec![opt("url", None), opt("url", Some("second"))]).as_deref(), Some("second"));
    assert_eq!(extract_url(&vec![opt("other", Some("x"))]), None);
    assert_eq!(extract_url(&vec![]), None);
}

#[test]
fn play_replies() {
    assert_eq!(play_reply(&None), "Missing URL");
    assert_eq!(play_reply(&Some("https://y/1".to_owned())), "Queued <https://y/1>");
}

#[test]
fn route_dispatches_known_commands() {
    assert_eq!(route("play"), CommandKind::Play);
    assert_eq!(route("queue"), CommandKind::Queue);
    assert_eq!(route("skip"), CommandKind::Unknown);
    assert_eq!(route("Play"), CommandKind::Unknown);
}

#[test]
fn radio_channel_must_be_voice_and_named() {
    let channels = vec![
        ChannelInfo { id: 1, is_voice: false, name: CHANNEL_NAME.to_owned() },
        ChannelInfo { id: 2, is_voice: true, name: "General".to_owned() },
        ChannelInfo { id: 3, is_voice: true, name: "Tahti Radio".to_owned() },
        ChannelInfo { id: 4, is_voice: true, name: "Tahti Radio".to_owned() },
    ];
    assert_eq!(find_radio_channel(&channels), Some(3));
    let others = vec![
        ChannelInfo { id: 1, is_voice: false, name: CHANNEL_NAME.to_owned() },
        ChannelInfo { id: 2, is_voice: true, name: "General".to_owned() },
    ];
    assert_eq!(find_radio_channel(&others), None);
    assert_eq!(CHANNEL_NAME, "Tahti Radio");
}
