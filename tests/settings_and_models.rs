use game_vault::error::VaultError;
use game_vault::models::{validate_game_update, validate_new_game, AppError, Game};
use game_vault::salt::get_master_salt;
use game_vault::settings;
use game_vault::steam::{
    process_game_metadata, ProcessedGameData, StoreAppResponse, StoreGameDetails, StoreGenre,
    StoreReleaseDate, SteamGame,
};
use game_vault::storage::{self, SecretStore};
use game_vault::text::{has_prefix, is_blank_str, is_whitespace, trim_whitespace};

fn store() -> SecretStore {
    SecretStore::new(get_master_salt(None).unwrap().bytes)
}

#[test]
fn settings_set_secret_trims_value() {
    let mut s = store();
    settings::set_secret(&mut s, "rawg_api_key".to_string(), "  abc \n".to_string()).unwrap();
    assert_eq!(settings::get_secret(&s, "rawg_api_key".to_string()).unwrap(), "abc");
}

#[test]
fn settings_set_secret_refuses_blank() {
    let mut s = store();
    let r = settings::set_secret(&mut s, "rawg_api_key".to_string(), " \t ".to_string());
    assert_eq!(r, Err(VaultError::ValidationError));
    assert_eq!(s.len(), 0);
}

#[test]
fn set_secrets_sets_deletes_and_skips() {
    let mut s = store();
    storage::set_secret(&mut s, "steam_id", "old-id").unwrap();
    storage::set_secret(&mut s, "rawg_api_key", "keep-me").unwrap();
    settings::set_secrets(&mut s, Some("   ".to_string()), Some(" key-1 ".to_string()), None).unwrap();
    let batch = settings::get_secrets(&s).unwrap();
    assert_eq!(batch.steam_id, "");
    assert_eq!(batch.steam_api_key, "key-1");
    assert_eq!(batch.rawg_api_key, "keep-me");
    assert_eq!(s.len(), 2);
}

#[test]
fn get_secrets_of_empty_store() {
    let s = store();
    let batch = settings::get_secrets(&s).unwrap();
    assert_eq!(batch.steam_id, "");
    assert_eq!(batch.steam_api_key, "");
    assert_eq!(batch.rawg_api_key, "");
}

#[test]
fn settings_delete_secret_removes() {
    let mut s = store();
    storage::set_secret(&mut s, "steam_id", "1").unwrap();
    assert_eq!(settings::delete_secret(&mut s, "steam_id".to_string()), Ok(()));
    assert_eq!(settings::get_secret(&s, "steam_id".to_string()).unwrap(), "");
}

#[test]
fn list_secrets_names_known_keys() {
    assert_eq!(
        settings::list_secrets().unwrap(),
        vec!["steam_id".to_string(), "steam_api_key".to_string(), "rawg_api_key".to_string()]
    );
}

#[test]
fn trimming_and_blank_tests() {
    assert_eq!(trim_whitespace("  a b \t"), "a b");
    assert_eq!(trim_whitespace("\u{a0}x\u{2003}"), "x");
    assert_eq!(trim_whitespace("   "), "");
    assert_eq!(trim_whitespace(""), "");
    assert!(is_blank_str(""));
    assert!(is_blank_str(" \r\n\u{85}"));
    assert!(!is_blank_str(" x "));
    assert!(is_whitespace('\u{200a}'));
    assert!(!is_whitespace('\u{200b}'));
    assert!(has_prefix("https://x", "https://"));
    assert!(!has_prefix("http:/", "http://"));
}

fn some(s: &str) -> Option<String> {
    Some(s.to_string())
}

#[test]
fn new_game_accepts_valid_input() {
    assert!(validate_new_game("Hades", &some("Roguelike"), &some("PC"), &some("https://img/x.jpg"), Some(120), Some(5)).is_ok());
    assert!(validate_new_game("Hades", &None, &None, &some(""), None, None).is_ok());
    assert!(validate_new_game(&"n".repeat(200), &None, &None, &None, Some(1_000_000), Some(1)).is_ok());
}

#[test]
fn new_game_rejects_each_rule() {
    let bad = [
        validate_new_game("  ", &None, &None, &None, None, None),
        validate_new_game(&"n".repeat(201), &None, &None, &None, None, None),
        validate_new_game("g", &None, &None, &some("ftp://x"), None, None),
        validate_new_game("g", &None, &None, &Some(format!("https://{}", "a".repeat(493))), None, None),
        validate_new_game("g", &some(&"x".repeat(101)), &None, &None, None, None),
        validate_new_game("g", &None, &some(&"x".repeat(101)), &None, None, None),
        validate_new_game("g", &None, &None, &None, Some(-1), None),
        validate_new_game("g", &None, &None, &None, Some(1_000_001), None),
        validate_new_game("g", &None, &None, &None, None, Some(0)),
        validate_new_game("g", &None, &None, &None, None, Some(6)),
    ];
    for r in bad {
        assert!(matches!(r, Err(AppError::ValidationError(_))));
    }
}

#[test]
fn game_update_checks_name_playtime_rating() {
    assert!(validate_game_update("Celeste", Some(0), Some(3)).is_ok());
    assert!(matches!(validate_game_update("", None, None), Err(AppError::ValidationError(_))));
    assert!(matches!(validate_game_update("g", Some(-5), None), Err(AppError::ValidationError(_))));
    assert!(matches!(validate_game_update("g", None, Some(9)), Err(AppError::ValidationError(_))));
}

#[test]
fn game_record_holds_fields() {
    let g = Game {
        id: "570".to_string(),
        name: "Dota 2".to_string(),
        genre: None,
        platform: some("Steam"),
        cover_url: None,
        playtime: 10,
        rating: Some(4),
        favorite: false,
    };
    assert_eq!(g.name, "Dota 2");
    let s = SteamGame { appid: 570, name: g.name.clone(), playtime_forever: 600, img_icon_url: None };
    assert_eq!(s.appid, 570);
}

fn details(genres: Option<Vec<&str>>, desc: Option<&str>, date: Option<&str>) -> StoreGameDetails {
    StoreGameDetails {
        short_description: desc.map(|d| d.to_string()),
        genres: genres.map(|g| g.into_iter().map(|d| StoreGenre { description: d.to_string() }).collect()),
        release_date: date.map(|d| StoreReleaseDate { date: d.to_string() }),
    }
}

#[test]
fn metadata_takes_first_genre() {
    let entry = StoreAppResponse {
        success: true,
        data: Some(details(Some(vec!["RPG", "Action"]), Some("A game"), Some("1 Jan, 2020"))),
    };
    let ProcessedGameData { genre, description, release_date } = process_game_metadata(&entry).unwrap();
    assert_eq!(genre, "RPG");
    assert_eq!(description, "A game");
    assert_eq!(release_date, "1 Jan, 2020");
}

#[test]
fn metadata_defaults_when_missing() {
    let entry = StoreAppResponse { success: true, data: Some(details(None, None, None)) };
    let m = process_game_metadata(&entry).unwrap();
    assert_eq!(m.genre, "Desconhecido");
    assert_eq!(m.description, "");
    assert_eq!(m.release_date, "");
    let empty = StoreAppResponse { success: true, data: Some(details(Some(vec![]), None, None)) };
    assert_eq!(process_game_metadata(&empty).unwrap().genre, "Desconhecido");
}

#[test]
fn metadata_absent_on_failure() {
    let failed = StoreAppResponse { success: false, data: Some(details(None, None, None)) };
    assert!(process_game_metadata(&failed).is_none());
    let no_data = StoreAppResponse { success: true, data: None };
    assert!(process_game_metadata(&no_data).is_none());
}

#[test]
fn set_secrets_without_values_changes_nothing() {
    let mut s = store();
    storage::set_secret(&mut s, "steam_id", "x").unwrap();
    assert_eq!(settings::set_secrets(&mut s, None, None, None), Ok(()));
    assert_eq!(settings::get_secret(&s, "steam_id".to_string()).unwrap(), "x");
}

#[test]
fn settings_set_secret_with_given_draws_trims() {
    let mut s = store();
    settings::set_secret_with(&mut s, "steam_id".to_string(), " 765 ".to_string(), &[1u8; 12], &[2u8; 16]).unwrap();
    assert_eq!(settings::get_secret(&s, "steam_id".to_string()).unwrap(), "765");
    assert_eq!(
        settings::set_secret_with(&mut s, "steam_id".to_string(), "\t".to_string(), &[1u8; 12], &[2u8; 16]),
        Err(VaultError::ValidationError)
    );
}
