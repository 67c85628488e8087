use carter_client::protocol::get_carter;
use carter_client::protocol::request_url;
use carter_client::protocol::Carter;
use carter_client::protocol::Endpoint;

#[test]
fn chat_envelope_carries_text_and_speak() {
    let carter = Carter::new("secret".to_string(), "user-1".to_string());
    let e = carter.chat_envelope("hello there");
    assert_eq!(e.endpoint, Endpoint::Chat);
    assert_eq!(e.key, "secret");
    assert_eq!(e.user_id, "user-1");
    assert_eq!(e.text.as_deref(), Some("hello there"));
    assert_eq!(e.speak, Some(true));
}

#[test]
fn opener_envelope_carries_credential_only() {
    let carter = get_carter("secret".to_string(), "user-1".to_string());
    let e = carter.opener_envelope();
    assert_eq!(e.endpoint, Endpoint::Opener);
    assert_eq!(e.key, "secret");
    assert_eq!(e.user_id, "user-1");
    assert_eq!(e.text, None);
    assert_eq!(e.speak, None);
}

#[test]
fn personalise_envelope_uses_its_own_endpoint() {
    let carter = Carter::new("k".to_string(), "u".to_string());
    let e = carter.personalise_envelope("be cheerful");
    assert_eq!(e.endpoint, Endpoint::Personalise);
    assert_eq!(e.text.as_deref(), Some("be cheerful"));
    assert_eq!(e.speak, Some(true));
}

#[test]
fn plugin_commands_are_reserved_chat_turns_without_audio() {
    let carter = Carter::new("k".to_string(), "u".to_string());
    let list = carter.plugin_list_envelope();
    assert_eq!(list.endpoint, Endpoint::Chat);
    assert_eq!(list.text.as_deref(), Some("/plugin list"));
    assert_eq!(list.speak, Some(false));
    let info = carter.plugin_info_envelope("weather");
    assert_eq!(info.endpoint, Endpoint::Chat);
    assert_eq!(info.text.as_deref(), Some("/plugin info weather"));
    assert_eq!(info.speak, Some(false));
}

#[test]
fn request_urls_join_host_and_path() {
    assert_eq!(request_url(Endpoint::Chat), "https://api.carterlabs.ai/api/chat");
    assert_eq!(request_url(Endpoint::Opener), "https://api.carterlabs.ai/api/opener");
    assert_eq!(request_url(Endpoint::Personalise), "https://api.carterlabs.ai/api/personalise");
}
