use rres::{
    card_names, check_card, get_card_modes, get_connector_mode, get_display, get_displays,
    CardInfo, ConnectionState, ConnectorInfo, CrtcInfo, EncoderInfo, Mode, ModeLookup, RresError,
};

fn mode(width: u16, height: u16) -> Mode {
    Mode { width, height }
}

fn connector(state: ConnectionState, encoder: Option<u32>, modes: Vec<Mode>) -> ConnectorInfo {
    ConnectorInfo { state, current_encoder: encoder, modes }
}

fn card(connectors: Vec<ConnectorInfo>) -> CardInfo {
    CardInfo {
        connectors,
        encoders: vec![
            EncoderInfo { handle: 10, crtc: Some(20) },
            EncoderInfo { handle: 11, crtc: None },
            EncoderInfo { handle: 12, crtc: Some(22) },
        ],
        crtcs: vec![
            CrtcInfo { handle: 20, mode: Some(mode(2560, 1440)) },
            CrtcInfo { handle: 22, mode: None },
        ],
    }
}

#[test]
fn active_mode_is_found() {
    let c = card(vec![]);
    let conn = connector(ConnectionState::Connected, Some(10), vec![mode(3840, 2160)]);
    assert_eq!(get_connector_mode(&c, &conn), Ok(ModeLookup::Found(mode(2560, 1440))));
}

#[test]
fn fallback_without_encoder() {
    let c = card(vec![]);
    let conn = connector(ConnectionState::Connected, None, vec![mode(1920, 1080), mode(1280, 720)]);
    assert_eq!(get_connector_mode(&c, &conn), Ok(ModeLookup::Fallback(mode(1920, 1080))));
}

#[test]
fn fallback_without_crtc() {
    let c = card(vec![]);
    let conn = connector(ConnectionState::Connected, Some(11), vec![mode(1920, 1200)]);
    assert_eq!(get_connector_mode(&c, &conn), Ok(ModeLookup::Fallback(mode(1920, 1200))));
}

#[test]
fn fallback_without_current_mode() {
    let c = card(vec![]);
    let conn = connector(ConnectionState::Connected, Some(12), vec![mode(1600, 900)]);
    assert_eq!(get_connector_mode(&c, &conn), Ok(ModeLookup::Fallback(mode(1600, 900))));
}

#[test]
fn fallback_with_unknown_encoder() {
    let c = card(vec![]);
    let conn = connector(ConnectionState::Connected, Some(99), vec![mode(1024, 768)]);
    assert_eq!(get_connector_mode(&c, &conn), Ok(ModeLookup::Fallback(mode(1024, 768))));
}

#[test]
fn unresolvable_without_modes() {
    let c = card(vec![]);
    let conn = connector(ConnectionState::Connected, None, vec![]);
    assert_eq!(get_connector_mode(&c, &conn), Ok(ModeLookup::Unresolvable));
}

#[test]
fn disconnected_connector_fails() {
    let c = card(vec![]);
    let conn = connector(ConnectionState::Disconnected, Some(10), vec![mode(1920, 1080)]);
    assert_eq!(get_connector_mode(&c, &conn), Err(RresError::ConnectorDisconnected));
    let conn = connector(ConnectionState::Unknown, Some(10), vec![mode(1920, 1080)]);
    assert_eq!(get_connector_mode(&c, &conn), Err(RresError::ConnectorDisconnected));
}

#[test]
fn card_modes_skip_disconnected() {
    let c = card(vec![
        connector(ConnectionState::Disconnected, None, vec![mode(640, 480)]),
        connector(ConnectionState::Connected, None, vec![mode(1920, 1080)]),
        connector(ConnectionState::Unknown, Some(10), vec![mode(800, 600)]),
        connector(ConnectionState::Connected, Some(10), vec![mode(3840, 2160)]),
        connector(ConnectionState::Connected, None, vec![]),
    ]);
    assert_eq!(get_card_modes(&c), vec![mode(1920, 1080), mode(2560, 1440)]);
}

#[test]
fn displays_skip_unreadable_device() {
    let card0 = card(vec![
        connector(ConnectionState::Disconnected, None, vec![mode(1920, 1080)]),
        connector(ConnectionState::Connected, Some(10), vec![mode(3840, 2160)]),
    ]);
    let cards = vec![Ok(card0), Err(RresError::ResourceQuery)];
    assert_eq!(get_displays(&cards), vec![mode(2560, 1440)]);
}

#[test]
fn displays_in_device_then_connector_order() {
    let card0 = card(vec![
        connector(ConnectionState::Connected, None, vec![mode(1, 1)]),
        connector(ConnectionState::Connected, None, vec![mode(2, 2)]),
    ]);
    let card2 = card(vec![connector(ConnectionState::Connected, None, vec![mode(4, 4)])]);
    let cards = vec![Ok(card0), Err(RresError::ResourceQuery), Ok(card2)];
    assert_eq!(get_displays(&cards), vec![mode(1, 1), mode(2, 2), mode(4, 4)]);
}

#[test]
fn displays_empty_when_nothing_connected() {
    let card0 = card(vec![connector(ConnectionState::Disconnected, None, vec![mode(1, 1)])]);
    let cards = vec![Ok(card0)];
    let displays = get_displays(&cards);
    assert!(displays.is_empty());
    assert_eq!(get_display(&displays, 0), Err(RresError::NoDisplaysFound));
}

#[test]
fn display_selection() {
    let displays = vec![mode(2560, 1440), mode(1920, 1080)];
    assert_eq!(get_display(&displays, 0), Ok((2560, 1440)));
    assert_eq!(get_display(&displays, 1), Ok((1920, 1080)));
    assert_eq!(get_display(&displays, 2), Err(RresError::IndexOutOfRange));
    assert_eq!(get_display(&displays, usize::MAX), Err(RresError::IndexOutOfRange));
}

#[test]
fn mode_size() {
    assert_eq!(mode(3440, 1440).size(), (3440, 1440));
}

#[test]
fn card_names_sorted_and_filtered() {
    let entries: Vec<String> = ["renderD128", "card1", "by-path", "card0", "card10", "card2"]
        .iter()
        .map(|s| s.to_string())
        .collect();
    assert_eq!(card_names(&entries), vec!["card0", "card1", "card10", "card2"]);
}

#[test]
fn card_names_empty() {
    assert!(card_names(&vec![]).is_empty());
    assert!(card_names(&vec!["renderD128".to_string()]).is_empty());
}

#[test]
fn selected_card_checked() {
    assert_eq!(check_card("card0", true), Ok("card0".to_string()));
    assert_eq!(check_card("card5", false), Err(RresError::InvalidDevice));
    assert_eq!(check_card("renderD128", true), Err(RresError::InvalidDevice));
}
