use search6::auth::{login_redirect, AuthStates, STATE_TTL_SECONDS};
use search6::error::Error;
use search6::notify::{card_request, leaderboard_url, level_up_description, logo_url};
use search6::scores::Scores;
use search6::store::{id_key_string, lookup_outcome, lookup_plan, record_entries, slug_key_string};
use search6::text::{decimal_string, parse_decimal};
use search6::user::{normalize_discriminator, player_to_user, Player, User};
use search6::util::{duration_fmt, get_avatar_url, last_update_text, rfalse, time_since_epoch};

fn user(id: u64, name: &str, discriminator: Option<&str>) -> User {
    User {
        xp: 100,
        id,
        username: name.to_string(),
        discriminator: discriminator.map(|d| d.to_string()),
        avatar: None,
        message_count: Some(3),
        rank: 1,
        last_updated: None,
    }
}

#[test]
fn human_identifier_forms() {
    assert_eq!(user(1, "valk", Some("0001")).human_identifier(), "valk#0001");
    assert_eq!(user(1, "valk", None).human_identifier(), "valk");
}

#[test]
fn blank_discriminator_is_dropped() {
    assert_eq!(normalize_discriminator(Some("0000".to_string())), None);
    assert_eq!(normalize_discriminator(Some("0".to_string())), None);
    assert_eq!(normalize_discriminator(Some("".to_string())), None);
    assert_eq!(normalize_discriminator(Some("0420".to_string())), Some("0420".to_string()));
    assert_eq!(normalize_discriminator(None), None);
}

#[test]
fn player_id_is_read() {
    let p = Player {
        xp: 5,
        id: "123".to_string(),
        username: "a".to_string(),
        discriminator: None,
        message_count: None,
        avatar: Some("h".to_string()),
    };
    let u = player_to_user(&p, 7, 99).unwrap();
    assert_eq!((u.id, u.rank, u.last_updated, u.avatar.as_deref()), (123, 7, Some(99), Some("h")));
    let bad = Player { id: "12a".to_string(), ..p };
    assert_eq!(player_to_user(&bad, 7, 99), None);
}

#[test]
fn decimal_text_round_trip() {
    assert_eq!(decimal_string(0), "0");
    assert_eq!(decimal_string(u64::MAX), "18446744073709551615");
    assert_eq!(parse_decimal("18446744073709551615", u64::MAX), Some(u64::MAX));
    assert_eq!(parse_decimal("18446744073709551616", u64::MAX), None);
    assert_eq!(parse_decimal("+12", 65535), Some(12));
    assert_eq!(parse_decimal("+", 65535), None);
    assert_eq!(parse_decimal("", 65535), None);
    assert_eq!(parse_decimal("-1", 65535), None);
    assert_eq!(parse_decimal("65536", 65535), None);
}

#[test]
fn avatar_urls() {
    assert_eq!(
        get_avatar_url(5, "0007", &None, true),
        "https://cdn.discordapp.com/embed/avatars/2.png?width=256&height=256"
    );
    assert_eq!(
        get_avatar_url(5, "abc", &Some(String::new()), true),
        "https://cdn.discordapp.com/embed/avatars/5.png?width=256&height=256"
    );
    assert_eq!(
        get_avatar_url(5, "1", &Some("a_ff".to_string()), true),
        "https://cdn.discordapp.com/avatars/5/a_ff.gif"
    );
    assert_eq!(
        get_avatar_url(5, "1", &Some("a_ff".to_string()), false),
        "https://cdn.discordapp.com/avatars/5/a_ff.png"
    );
    assert_eq!(
        get_avatar_url(5, "1", &Some("ff".to_string()), true),
        "https://cdn.discordapp.com/avatars/5/ff.png"
    );
}

#[test]
fn durations() {
    assert_eq!(duration_fmt(0), "");
    assert_eq!(duration_fmt(1), "1 second");
    assert_eq!(duration_fmt(61), "1 minute, 1 second");
    assert_eq!(duration_fmt(2 * 604800 + 86400 + 3), "2 weeks, 1 day, 3 seconds");
    assert_eq!(duration_fmt(7200), "2 hours");
    assert_eq!(duration_fmt(-61), "-1 minutes, -1 seconds");
}

#[test]
fn elapsed_time_from_the_clock() {
    assert!(time_since_epoch(0).unwrap() > 0);
    assert_eq!(time_since_epoch(i64::MAX), None);
    assert_eq!(last_update_text(None), None);
    assert!(last_update_text(Some(0)).unwrap().contains("weeks"));
}

#[test]
fn query_default() {
    assert!(!rfalse());
}

#[test]
fn lookup_keys() {
    assert_eq!(id_key_string(42), "user.id:42");
    assert_eq!(slug_key_string("valk#1"), "user.slug:valk#1");
    let by_id = lookup_plan("42");
    assert_eq!((by_id.key.as_str(), by_id.via_name), ("user.id:42", false));
    let by_name = lookup_plan("valk#1");
    assert_eq!((by_name.key.as_str(), by_name.via_name), ("user.slug:valk#1", true));
    assert_eq!(lookup_outcome(None, true), Err(Error::NotLevelFive));
    assert_eq!(lookup_outcome(None, false), Err(Error::UnknownId));
    assert_eq!(lookup_outcome(Some("x".to_string()), false), Ok("x".to_string()));
}

#[test]
fn batch_entries_pair_name_and_record() {
    let records = vec![user(42, "valk", Some("1")), user(7, "b", None)];
    let encoded = vec!["{a}".to_string(), "{b}".to_string()];
    let entries = record_entries(&records, &encoded);
    let expected: Vec<(String, String)> = vec![
        ("user.slug:valk#1".into(), "42".into()),
        ("user.id:42".into(), "{a}".into()),
        ("user.slug:b".into(), "7".into()),
        ("user.id:7".into(), "{b}".into()),
    ];
    assert_eq!(entries, expected);
}

#[test]
fn name_lookup_matches_id_lookup() {
    let scores = Scores::new(vec![user(42, "valk", Some("1")), user(7, "b", None)]);
    assert_eq!(scores.get("valk#1").map(|u| u.id), Some(42));
    assert_eq!(scores.get("42"), scores.get("valk#1"));
    assert_eq!(scores.get("b"), scores.get("7"));
    assert_eq!(scores.get("nobody"), None);
    assert_eq!(scores.get("8"), None);
}

#[test]
fn scores_insert_overwrites() {
    let mut scores = Scores::new(Vec::new());
    scores.insert(user(1, "a", None));
    let mut newer = user(1, "a", None);
    newer.xp = 999;
    scores.insert(newer);
    assert_eq!(scores.get("1").unwrap().xp, 999);
    assert_eq!(scores.get("a").unwrap().xp, 999);
}

#[test]
fn login_state_is_single_use() {
    let mut states = AuthStates::new();
    states.begin_login("tok".to_string(), "ver".to_string(), 1000);
    assert_eq!(states.take_verifier("tok", 1000), Ok("ver".to_string()));
    assert_eq!(states.take_verifier("tok", 1000), Err(Error::InvalidState));
}

#[test]
fn login_state_expires() {
    let mut states = AuthStates::new();
    states.begin_login("tok".to_string(), "ver".to_string(), 1000);
    assert_eq!(states.take_verifier("tok", 1000 + STATE_TTL_SECONDS), Err(Error::InvalidState));
    assert_eq!(states.take_verifier("other", 0), Err(Error::InvalidState));
}

#[test]
fn login_redirect_address() {
    assert_eq!(login_redirect(1234), "/?id=1234&userexists=true");
}

#[test]
fn notification_texts() {
    let request = card_request("https://x.y", 42);
    assert_eq!(request, "https://x.y/card?id=42 <@42>");
    assert_eq!(
        level_up_description(&user(42, "valk", Some("1")), 5, &request),
        "User valk#1 (<@42>) has reached level 5```https://x.y/card?id=42 <@42>```"
    );
    assert_eq!(logo_url("https://x.y"), "https://x.y/search6.png");
    assert_eq!(
        leaderboard_url(77, 3),
        "https://mee6.xyz/api/plugins/levels/leaderboard/77?limit=1000&page=3"
    );
}

#[test]
fn error_messages() {
    assert_eq!(Error::InvalidState.message(), "Invalid OAuth2 State");
    assert_eq!(Error::NoId.message(), "You must specify an ID");
}

#[test]
fn png_data_uri_encodes_bytes() {
    assert_eq!(search6::util::png_data_uri(&vec![1, 2, 3]), "data:image/png;base64,AQID");
    assert_eq!(search6::util::png_data_uri(&Vec::new()), "data:image/png;base64,");
}

#[test]
fn expired_states_are_forgotten() {
    let mut states = AuthStates::new();
    states.begin_login("old".to_string(), "v1".to_string(), 0);
    states.begin_login("new".to_string(), "v2".to_string(), 500);
    states.begin_login("new".to_string(), "v3".to_string(), 550);
    states.forget_expired(700);
    assert_eq!(states.take_verifier("old", 0), Err(Error::InvalidState));
    assert_eq!(states.take_verifier("new", 700), Ok("v3".to_string()));
}
