//! Tests of the `server.properties` parser.

use mcbe_lan_advertizer::config::server_properties::{Gamemode, ServerProperties};
use mcbe_lan_advertizer::error::ConfigError;

#[test]
fn full_file_parses() {
    let text = "server-name=My World\n\
                level-name=Hi\n\
                gamemode=creative\n\
                max-players=10\n\
                server-port=19132\n\
                server-portv6=19133\n";
    let props = ServerProperties::from_str(text).unwrap();
    assert_eq!(props.server_name, "My World");
    assert_eq!(props.level_name, "Hi");
    assert_eq!(props.gamemode, Gamemode::Creative);
    assert_eq!(props.max_players, 10);
    assert_eq!(props.port4, 19132);
    assert_eq!(props.port6, 19133);
}

#[test]
fn absent_keys_fall_back_to_defaults() {
    let text = "gamemode=survival\nserver-port=61543\nserver-portv6=61544\n";
    let props = ServerProperties::from_str(text).unwrap();
    assert_eq!(props.server_name, "Minecraft Server");
    assert_eq!(props.level_name, "Bedrock server");
    assert_eq!(props.max_players, 1);
    assert_eq!(props.gamemode, Gamemode::Survival);
    assert_eq!(props.port4, 61543);
    assert_eq!(props.port6, 61544);
}

#[test]
fn comments_are_stripped() {
    let text = "# a full comment line\n\
                gamemode=adventure\n\
                server-port=19132 # trailing comment\n\
                server-portv6=19133\n\
                # server-port=1\n";
    let props = ServerProperties::from_str(text).unwrap();
    assert_eq!(props.gamemode, Gamemode::Adventure);
    assert_eq!(props.port4, 19132);
}

#[test]
fn last_assignment_wins() {
    let text = "gamemode=creative\nserver-port=1\nserver-portv6=2\nserver-port=19132\n";
    let props = ServerProperties::from_str(text).unwrap();
    assert_eq!(props.port4, 19132);
    assert_eq!(props.port6, 2);
}

#[test]
fn crlf_line_endings_are_accepted() {
    let text = "server-name=CRLF World\r\ngamemode=creative\r\nserver-port=19132\r\nserver-portv6=19133\r\n";
    let props = ServerProperties::from_str(text).unwrap();
    assert_eq!(props.server_name, "CRLF World");
    assert_eq!(props.port4, 19132);
}

#[test]
fn keys_are_trimmed_values_are_not_left_trimmed() {
    let text = "  gamemode  =creative\nserver-port=19132\nserver-portv6=19133\n";
    let props = ServerProperties::from_str(text).unwrap();
    assert_eq!(props.gamemode, Gamemode::Creative);
    // a space after `=` stays part of the value, so the mode name no longer
    // matches; the file format allows no such space
    let spaced = "gamemode= creative\nserver-port=19132\nserver-portv6=19133\n";
    assert_eq!(
        ServerProperties::from_str(spaced),
        Err(ConfigError::BadGamemode)
    );
}

#[test]
fn plus_signed_numbers_parse() {
    let text = "gamemode=creative\nserver-port=+19132\nserver-portv6=19133\n";
    let props = ServerProperties::from_str(text).unwrap();
    assert_eq!(props.port4, 19132);
}

#[test]
fn semicolon_in_server_name_is_rejected() {
    let text = "server-name=Bad;Name\ngamemode=creative\nserver-port=19132\nserver-portv6=19133\n";
    assert_eq!(
        ServerProperties::from_str(text),
        Err(ConfigError::SemicolonInServerName)
    );
}

#[test]
fn semicolon_in_level_name_is_rejected() {
    let text = "level-name=a;b\ngamemode=creative\nserver-port=19132\nserver-portv6=19133\n";
    assert_eq!(
        ServerProperties::from_str(text),
        Err(ConfigError::SemicolonInLevelName)
    );
}

#[test]
fn unknown_gamemode_is_rejected() {
    let text = "gamemode=hardcore\nserver-port=19132\nserver-portv6=19133\n";
    assert_eq!(
        ServerProperties::from_str(text),
        Err(ConfigError::BadGamemode)
    );
}

#[test]
fn missing_gamemode_is_rejected() {
    let text = "server-port=19132\nserver-portv6=19133\n";
    assert_eq!(
        ServerProperties::from_str(text),
        Err(ConfigError::BadGamemode)
    );
}

#[test]
fn bad_max_players_is_rejected() {
    let text = "gamemode=creative\nmax-players=ten\nserver-port=19132\nserver-portv6=19133\n";
    assert_eq!(
        ServerProperties::from_str(text),
        Err(ConfigError::BadMaxPlayers)
    );
    let text = "gamemode=creative\nmax-players=99999999999999999999999999\nserver-port=19132\nserver-portv6=19133\n";
    assert_eq!(
        ServerProperties::from_str(text),
        Err(ConfigError::BadMaxPlayers)
    );
}

#[test]
fn bad_port_v4_is_rejected() {
    let missing = "gamemode=creative\nserver-portv6=19133\n";
    assert_eq!(
        ServerProperties::from_str(missing),
        Err(ConfigError::BadPortV4)
    );
    let out_of_range = "gamemode=creative\nserver-port=65536\nserver-portv6=19133\n";
    assert_eq!(
        ServerProperties::from_str(out_of_range),
        Err(ConfigError::BadPortV4)
    );
}

#[test]
fn bad_port_v6_is_rejected() {
    let text = "gamemode=creative\nserver-port=19132\nserver-portv6=-1\n";
    assert_eq!(
        ServerProperties::from_str(text),
        Err(ConfigError::BadPortV6)
    );
    let empty = "gamemode=creative\nserver-port=19132\nserver-portv6=\n";
    assert_eq!(
        ServerProperties::from_str(empty),
        Err(ConfigError::BadPortV6)
    );
}

#[test]
fn first_invalid_field_names_the_error() {
    // both the server name and the gamemode are bad; the name is checked first
    let text = "server-name=a;b\ngamemode=nope\nserver-port=19132\nserver-portv6=19133\n";
    assert_eq!(
        ServerProperties::from_str(text),
        Err(ConfigError::SemicolonInServerName)
    );
}

#[test]
fn gamemode_names_round_trip() {
    for mode in [Gamemode::Survival, Gamemode::Creative, Gamemode::Adventure] {
        let name = mode.to_string();
        assert_eq!(Gamemode::from_str(&name), Ok(mode));
    }
    assert_eq!(Gamemode::from_str("creative"), Ok(Gamemode::Creative));
    assert_eq!(Gamemode::from_str("survival"), Ok(Gamemode::Survival));
    assert_eq!(Gamemode::from_str("adventure"), Ok(Gamemode::Adventure));
    assert_eq!(
        Gamemode::from_str("Creative"),
        Err(ConfigError::BadGamemode)
    );
    assert_eq!(Gamemode::from_str(""), Err(ConfigError::BadGamemode));
}

#[test]
fn default_gamemode_is_creative() {
    assert_eq!(Gamemode::default(), Gamemode::Creative);
}

#[test]
fn unicode_names_survive_parsing() {
    let text = "server-name=Mond Welt \u{263a}\ngamemode=creative\nserver-port=19132\nserver-portv6=19133\n";
    let props = ServerProperties::from_str(text).unwrap();
    assert_eq!(props.server_name, "Mond Welt \u{263a}");
}
