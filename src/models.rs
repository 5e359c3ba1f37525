//! The game library's records, its error type, and the rules its input must
//! meet before it is stored.
use vstd::prelude::*;
use vstd::utf8::encode_utf8;
use crate::text::{is_blank, is_blank_str, starts_with, has_prefix};

verus! {

/// Longest game name, in bytes.
pub const MAX_NAME_LENGTH: usize = 200;

/// Longest genre, in bytes.
pub const MAX_GENRE_LENGTH: usize = 100;

/// Longest platform, in bytes.
pub const MAX_PLATFORM_LENGTH: usize = 100;

/// Longest cover address, in bytes.
pub const MAX_URL_LENGTH: usize = 500;

/// Largest playtime accepted.
pub const MAX_PLAYTIME: i32 = 1_000_000;

/// Lowest rating.
pub const MIN_RATING: i32 = 1;

/// Highest rating.
pub const MAX_RATING: i32 = 5;

/// One game of the library.
#[derive(Debug)]
pub struct Game {
    pub id: String,
    pub name: String,
    pub genre: Option<String>,
    pub platform: Option<String>,
    pub cover_url: Option<String>,
    pub playtime: i32,
    pub rating: Option<i32>,
    pub favorite: bool,
}

/// Errors of the game library, each with a description.
#[derive(Debug)]
pub enum AppError {
    DatabaseError(String),
    ValidationError(String),
    NetworkError(String),
    NotFound(String),
    MutexError,
}

/// An optional text as an optional character sequence.
pub open spec fn opt_text(v: &Option<String>) -> Option<Seq<char>> {
    match v {
        Some(s) => Some(s@),
        None => None,
    }
}

/// Whether an optional text is absent or at most `max` bytes long.
pub open spec fn fits(v: Option<Seq<char>>, max: usize) -> bool {
    match v {
        Some(s) => encode_utf8(s).len() <= max,
        None => true,
    }
}

/// Whether a cover address is absent, or at most `MAX_URL_LENGTH` bytes and
/// either empty or an http or https address.
pub open spec fn cover_url_valid(v: Option<Seq<char>>) -> bool {
    match v {
        Some(u) => encode_utf8(u).len() <= MAX_URL_LENGTH && (u.len() == 0 || starts_with(u, "http://"@)
            || starts_with(u, "https://"@)),
        None => true,
    }
}

/// Whether the name, playtime and rating of a game are acceptable: a name
/// that is not blank and at most `MAX_NAME_LENGTH` bytes, a playtime in
/// `0..=MAX_PLAYTIME`, a rating in `MIN_RATING..=MAX_RATING`.
pub open spec fn core_fields_valid(name: Seq<char>, playtime: Option<i32>, rating: Option<i32>) -> bool {
    &&& !is_blank(name)
    &&& encode_utf8(name).len() <= MAX_NAME_LENGTH
    &&& (playtime matches Some(t) ==> 0 <= t <= MAX_PLAYTIME)
    &&& (rating matches Some(x) ==> MIN_RATING <= x <= MAX_RATING)
}

/// Checks the name, playtime and rating, in that order.
fn check_core_fields(name: &str, playtime: Option<i32>, rating: Option<i32>) -> (r: Result<(), AppError>)
    ensures
        r is Ok <==> core_fields_valid(name@, playtime, rating),
        r is Err ==> r->Err_0 is ValidationError,
{
    if is_blank_str(name) {
        return Err(AppError::ValidationError("game name must not be empty".to_owned()));
    }
    if name.as_bytes().len() > MAX_NAME_LENGTH {
        return Err(AppError::ValidationError("game name is too long (at most 200 bytes)".to_owned()));
    }
    match playtime {
        Some(t) => {
            if t < 0 {
                return Err(AppError::ValidationError("playtime must not be negative".to_owned()));
            }
            if t > MAX_PLAYTIME {
                return Err(AppError::ValidationError("playtime is too large (at most 1000000)".to_owned()));
            }
        },
        None => {},
    }
    match rating {
        Some(x) => {
            if x < MIN_RATING || x > MAX_RATING {
                return Err(AppError::ValidationError("rating must be between 1 and 5".to_owned()));
            }
        },
        None => {},
    }
    Ok(())
}

/// Checks the input of a new game: the name first, then the cover address,
/// genre and platform, then playtime and rating.
pub fn validate_new_game(
    name: &str,
    genre: &Option<String>,
    platform: &Option<String>,
    cover_url: &Option<String>,
    playtime: Option<i32>,
    rating: Option<i32>,
) -> (r: Result<(), AppError>)
    ensures
        r is Ok <==> core_fields_valid(name@, playtime, rating) && cover_url_valid(opt_text(cover_url))
            && fits(opt_text(genre), MAX_GENRE_LENGTH) && fits(opt_text(platform), MAX_PLATFORM_LENGTH),
        r is Err ==> r->Err_0 is ValidationError,
{
    if is_blank_str(name) || name.as_bytes().len() > MAX_NAME_LENGTH {
        return check_core_fields(name, playtime, rating);
    }
    match cover_url {
        Some(url) => {
            if url.as_str().as_bytes().len() > MAX_URL_LENGTH {
                return Err(AppError::ValidationError("cover address is too long (at most 500 bytes)".to_owned()));
            }
            if url.as_str().unicode_len() != 0 && !has_prefix(url.as_str(), "http://") && !has_prefix(
                url.as_str(),
                "https://",
            ) {
                return Err(AppError::ValidationError("cover address must start with http:// or https://".to_owned()));
            }
        },
        None => {},
    }
    match genre {
        Some(g) => {
            if g.as_str().as_bytes().len() > MAX_GENRE_LENGTH {
                return Err(AppError::ValidationError("genre is too long (at most 100 bytes)".to_owned()));
            }
        },
        None => {},
    }
    match platform {
        Some(p) => {
            if p.as_str().as_bytes().len() > MAX_PLATFORM_LENGTH {
                return Err(AppError::ValidationError("platform is too long (at most 100 bytes)".to_owned()));
            }
        },
        None => {},
    }
    check_core_fields(name, playtime, rating)
}

/// Checks the input of a game update: name, playtime and rating.
pub fn validate_game_update(name: &str, playtime: Option<i32>, rating: Option<i32>) -> (r: Result<(), AppError>)
    ensures
        r is Ok <==> core_fields_valid(name@, playtime, rating),
        r is Err ==> r->Err_0 is ValidationError,
{
    check_core_fields(name, playtime, rating)
}

} // verus!
