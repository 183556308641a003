use player_auth::player::{AccessError, SpotifyWebPlayer};
use player_auth::relay::{OAuthRelay, PendingAuth};
use player_auth::secrets::{parse_version, SecretError, SecretTable};
use player_auth::token::{after_exchange, token_expiry, ExchangeReply, ExchangeStep, Reason, TokenCache};
use player_auth::totp::{
    counter_bytes, decimal_digits, derive_secret, format_six_digits, generate_totp, otp_from_mac,
    xor_transform_secret,
};
use player_auth::upstream::{extract_token, playlist_id_of, LyricsReply};

const V61: [u8; 26] = [
    44, 55, 47, 42, 70, 40, 34, 114, 76, 74, 50, 111, 120, 97, 75, 76, 94, 102, 43, 69, 49, 120,
    118, 80, 64, 78,
];
const V61_SECRET: &str =
    "GM3TMMJTGYZTQNZVGM4DINJZHA4TGOBYGMZTCMRTGEYDSMJRHE4TEOBUG4YTCMRUGQ4DQOJUGQYTAMRRGA2TCMJSHE3TCMBY";
const RFC_SECRET: &str = "GEZDGNBVGY3TQOJQGEZDGNBVGY3TQOJQ";

fn hex(s: &str) -> Vec<u8> {
    (0..s.len() / 2).map(|i| u8::from_str_radix(&s[2 * i..2 * i + 2], 16).unwrap()).collect()
}

fn reply(token: Option<&str>, ms: Option<i64>) -> ExchangeReply {
    ExchangeReply { access_token: token.map(|t| t.to_string()), expiration_ms: ms }
}

fn auth(a: &str, r: &str, e: i64) -> PendingAuth {
    PendingAuth { access_token: a.to_string(), refresh_token: r.to_string(), expires_in: e }
}

#[test]
fn xor_transform_unmasks_by_position() {
    assert_eq!(xor_transform_secret(&[0, 1, 2]), vec![9, 11, 9]);
    let long: Vec<u8> = vec![0; 35];
    let out = xor_transform_secret(&long);
    assert_eq!(out[32], 41);
    assert_eq!(out[33], 9);
    assert_eq!(out[34], 10);
}

#[test]
fn decimal_digits_concatenate() {
    assert_eq!(decimal_digits(&[9, 11, 9]), b"9119".to_vec());
    assert_eq!(decimal_digits(&[0, 100, 255, 7]), b"01002557".to_vec());
    assert_eq!(decimal_digits(&[]), Vec::<u8>::new());
}

#[test]
fn derive_secret_small_input() {
    assert_eq!(derive_secret(&[0, 1, 2]), "HEYTCOI");
}

#[test]
fn derive_secret_is_deterministic() {
    let a = derive_secret(&V61);
    let b = derive_secret(&V61);
    assert_eq!(a, b);
    assert_eq!(a, V61_SECRET);
}

#[test]
fn counter_bytes_big_endian() {
    assert_eq!(counter_bytes(1), vec![0, 0, 0, 0, 0, 0, 0, 1]);
    assert_eq!(counter_bytes(0x0102030405060708), vec![1, 2, 3, 4, 5, 6, 7, 8]);
}

#[test]
fn six_digits_are_zero_padded() {
    assert_eq!(format_six_digits(5924), "005924");
    assert_eq!(format_six_digits(0), "000000");
    assert_eq!(format_six_digits(1234567), "234567");
}

#[test]
fn otp_from_known_mac() {
    assert_eq!(otp_from_mac(&hex("75a48a19d4cbe100644e8ac1397eea747a2d33ab")), "287082");
    assert_eq!(otp_from_mac(&hex("907cd1a9116564ecb9d5d1780325f246173fe703")), "005924");
}

#[test]
fn totp_rfc_vectors() {
    let cases: [(u64, &str); 6] = [
        (59, "287082"),
        (1111111109, "081804"),
        (1111111111, "050471"),
        (1234567890, "005924"),
        (2000000000, "279037"),
        (20000000000, "353130"),
    ];
    for (t, code) in cases {
        assert_eq!(generate_totp(RFC_SECRET, t).unwrap(), code);
    }
}

#[test]
fn totp_same_step_same_code() {
    assert_eq!(generate_totp(RFC_SECRET, 60).unwrap(), generate_totp(RFC_SECRET, 89).unwrap());
}

#[test]
fn totp_rejects_non_base32() {
    assert!(generate_totp("not base32!", 59).is_none());
}

#[test]
fn version_61_scenario() {
    let mut p = SpotifyWebPlayer::new();
    p.secrets.insert(61, V61.to_vec());
    assert_eq!(p.ensure_totp_version(None), Ok(61));
    let s = p.derive_totp_secret(61).unwrap();
    assert_eq!(s, V61_SECRET);
    assert_eq!(generate_totp(&s, 1700000000).unwrap(), "371599");
}

#[test]
fn ensure_version_errors() {
    let mut p = SpotifyWebPlayer::new();
    assert_eq!(p.ensure_totp_version(None), Err(SecretError::Empty));
    assert_eq!(p.ensure_totp_version(Some(14)), Err(SecretError::Empty));
    p.secrets.insert(14, vec![1, 2]);
    assert_eq!(p.ensure_totp_version(Some(14)), Ok(14));
    assert_eq!(p.ensure_totp_version(Some(99)), Err(SecretError::MissingVersion(99)));
    assert_eq!(p.ensure_totp_version(None), Err(SecretError::MissingVersion(61)));
    assert_eq!(p.derive_totp_secret(99), Err(SecretError::MissingVersion(99)));
}

#[test]
fn init_secrets_seeds_fallbacks() {
    let mut p = SpotifyWebPlayer::new();
    p.init_secrets();
    assert!(p.secrets.contains(13));
    assert!(p.secrets.contains(14));
    assert_eq!(p.secrets.get(61).unwrap(), &V61.to_vec());
    assert!(!p.secrets.is_empty());
}

#[test]
fn access_token_request_uses_default_version() {
    let mut p = SpotifyWebPlayer::new();
    p.init_secrets();
    let req = p.get_access_token(1700000000).unwrap();
    assert_eq!(req.version, 61);
    assert_eq!(req.otp, "371599");
    let empty = SpotifyWebPlayer::new();
    assert!(matches!(
        empty.get_access_token(1700000000),
        Err(AccessError::Secret(SecretError::Empty))
    ));
}

#[test]
fn update_secrets_merges() {
    let mut p = SpotifyWebPlayer::new();
    p.init_secrets();
    p.update_secrets(vec![
        ("62".to_string(), vec![1, 2, 3]),
        ("abc".to_string(), vec![4]),
        ("14".to_string(), vec![5, 6]),
    ]);
    assert_eq!(p.secrets.get(62).unwrap(), &vec![1, 2, 3]);
    assert_eq!(p.secrets.get(14).unwrap(), &vec![5, 6]);
    assert_eq!(p.secrets.get(61).unwrap(), &V61.to_vec());
    assert!(p.secrets.contains(13));
}

#[test]
fn parse_version_keys() {
    assert_eq!(parse_version("61"), Some(61));
    assert_eq!(parse_version("0"), Some(0));
    assert_eq!(parse_version("2147483647"), Some(2147483647));
    assert_eq!(parse_version("2147483648"), None);
    assert_eq!(parse_version("061"), None);
    assert_eq!(parse_version("-1"), None);
    assert_eq!(parse_version(""), None);
    assert_eq!(parse_version("6a"), None);
}

#[test]
fn secret_table_insert_overwrites() {
    let mut t = SecretTable::new();
    assert!(t.is_empty());
    t.insert(3, vec![1]);
    t.insert(3, vec![2]);
    assert_eq!(t.get(3).unwrap(), &vec![2]);
    assert!(t.get(4).is_none());
}

#[test]
fn server_time_from_date_header() {
    assert_eq!(
        SpotifyWebPlayer::server_time_from_header(Some("Tue, 14 Nov 2023 22:13:20 GMT")),
        Ok(1700000000)
    );
    assert_eq!(
        SpotifyWebPlayer::server_time_from_header(Some("yesterday")),
        Err(AccessError::ServerTimeUnavailable)
    );
    assert_eq!(
        SpotifyWebPlayer::server_time_from_header(None),
        Err(AccessError::ServerTimeUnavailable)
    );
}

#[test]
fn cache_hit_within_margin() {
    let mut c = TokenCache::new();
    assert_eq!(c.lookup(1000), None);
    c.store("tok".to_string(), 2000);
    assert_eq!(c.lookup(1000), Some("tok".to_string()));
    assert_eq!(c.lookup(1939), Some("tok".to_string()));
}

#[test]
fn cache_miss_at_expiry_margin() {
    let mut c = TokenCache::new();
    c.store("tok".to_string(), 2000);
    assert_eq!(c.lookup(1940), None);
    assert_eq!(c.lookup(2500), None);
}

#[test]
fn token_expiry_rules() {
    assert_eq!(token_expiry(Some(1700001800123), 5), 1700001800);
    assert_eq!(token_expiry(Some(0), 100), 1900);
    assert_eq!(token_expiry(None, 100), 1900);
}

#[test]
fn exchange_retries_once_with_init() {
    assert_eq!(Reason::Transport.as_str(), "transport");
    assert_eq!(Reason::Init.as_str(), "init");
    assert!(matches!(
        after_exchange(Reason::Transport, reply(None, None), 100),
        ExchangeStep::Retry(Reason::Init)
    ));
    assert!(matches!(after_exchange(Reason::Init, reply(None, None), 100), ExchangeStep::Failed));
    match after_exchange(Reason::Init, reply(Some("t2"), None), 100) {
        ExchangeStep::Issued { token, expires_at } => {
            assert_eq!(token, "t2");
            assert_eq!(expires_at, 1900);
        }
        _ => panic!("expected a token"),
    }
}

#[test]
fn exchange_first_answer() {
    match after_exchange(Reason::Transport, reply(Some("t1"), Some(3_000_000)), 100) {
        ExchangeStep::Issued { token, expires_at } => {
            assert_eq!(token, "t1");
            assert_eq!(expires_at, 3000);
        }
        _ => panic!("expected a token"),
    }
}

#[test]
fn exchange_reply_fills_cache() {
    let mut p = SpotifyWebPlayer::new();
    p.init_secrets();
    assert!(matches!(
        p.on_exchange_reply(Reason::Transport, reply(None, None), 100),
        ExchangeStep::Retry(Reason::Init)
    ));
    assert_eq!(p.cache.lookup(100), None);
    assert!(matches!(
        p.on_exchange_reply(Reason::Init, reply(Some("t3"), Some(5_000_000)), 100),
        ExchangeStep::Issued { .. }
    ));
    assert_eq!(p.cache.lookup(100), Some("t3".to_string()));
    assert_eq!(p.cache.lookup(4940), None);
    let mut q = SpotifyWebPlayer::new();
    assert!(matches!(q.on_exchange_reply(Reason::Init, reply(None, None), 100), ExchangeStep::Failed));
    assert_eq!(q.cache.lookup(100), None);
}

#[test]
fn derived_secret_decodes_to_digits() {
    let s = derive_secret(&[0, 1, 2]);
    assert!(s.chars().all(|c| c.is_ascii_uppercase() || ('2'..='7').contains(&c)));
    let v = derive_secret(&V61);
    assert!(!v.contains('='));
    assert_eq!(generate_totp(&v, 1700000000).unwrap(), "371599");
}

#[test]
fn relay_delivers_once() {
    let mut r = OAuthRelay::new();
    let st = "abc".to_string();
    assert!(r.poll(&st).is_none());
    r.complete(st.clone(), auth("a1", "r1", 3600));
    let got = r.poll(&st).unwrap();
    assert_eq!(got.access_token, "a1");
    assert_eq!(got.refresh_token, "r1");
    assert_eq!(got.expires_in, 3600);
    assert!(r.poll(&st).is_none());
}

#[test]
fn relay_keeps_states_apart() {
    let mut r = OAuthRelay::new();
    r.complete("".to_string(), auth("x", "y", 1));
    assert!(r.poll(&"".to_string()).is_none());
    r.complete("s1".to_string(), auth("a1", "r1", 1));
    r.complete("s2".to_string(), auth("a2", "r2", 2));
    r.complete("s1".to_string(), auth("a3", "r3", 3));
    assert_eq!(r.poll(&"s2".to_string()).unwrap().access_token, "a2");
    assert_eq!(r.poll(&"s1".to_string()).unwrap().access_token, "a3");
    assert!(r.poll(&"s1".to_string()).is_none());
}

#[test]
fn lyrics_not_found_is_success() {
    assert!(matches!(
        SpotifyWebPlayer::get_lyrics(404, "missing".to_string()),
        Ok(LyricsReply::NotFound)
    ));
}

#[test]
fn lyrics_server_error_carries_body() {
    match SpotifyWebPlayer::get_lyrics(500, "boom".to_string()) {
        Err(e) => {
            assert_eq!(e.status, 500);
            assert_eq!(e.body, "boom");
        }
        Ok(_) => panic!("expected an error"),
    }
}

#[test]
fn lyrics_found() {
    match SpotifyWebPlayer::get_lyrics(200, "{\"lyrics\":{}}".to_string()) {
        Ok(LyricsReply::Found(b)) => assert_eq!(b, "{\"lyrics\":{}}"),
        _ => panic!("expected lyrics"),
    }
}

#[test]
fn recommendation_status() {
    assert_eq!(SpotifyWebPlayer::get_recommend_song(200, "{}".to_string()).ok(), Some("{}".to_string()));
    match SpotifyWebPlayer::get_recommend_song(403, "no".to_string()) {
        Err(e) => {
            assert_eq!(e.status, 403);
            assert_eq!(e.body, "no");
        }
        Ok(_) => panic!("expected an error"),
    }
}

#[test]
fn extract_bearer_token() {
    assert_eq!(extract_token(Some("Bearer abc".to_string())), Some("abc".to_string()));
    assert_eq!(extract_token(Some("Bearer ".to_string())), Some("".to_string()));
    assert_eq!(extract_token(Some("Basic abc".to_string())), None);
    assert_eq!(extract_token(Some("Bearer a b".to_string())), None);
    assert_eq!(extract_token(Some("Bearer".to_string())), None);
    assert_eq!(extract_token(None), None);
}

#[test]
fn playlist_id_from_uri() {
    assert_eq!(playlist_id_of("spotify:playlist:37i9dQZF1E"), "37i9dQZF1E");
    assert_eq!(playlist_id_of("plain"), "plain");
    assert_eq!(playlist_id_of("spotify:playlist:"), "");
    assert_eq!(playlist_id_of(""), "");
}
