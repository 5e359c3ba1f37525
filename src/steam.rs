//! Records of the Steam catalogue, and the reduction of a store entry to the
//! metadata the library keeps.
use vstd::prelude::*;

verus! {

/// Genre recorded where the store gives none.
pub const DEFAULT_GENRE: &'static str = "Desconhecido";

/// A game owned on Steam.
#[derive(Debug)]
pub struct SteamGame {
    pub appid: u32,
    pub name: String,
    pub playtime_forever: i32,
    pub img_icon_url: Option<String>,
}

/// The store's details of one application.
#[derive(Debug)]
pub struct StoreGameDetails {
    pub short_description: Option<String>,
    pub genres: Option<Vec<StoreGenre>>,
    pub release_date: Option<StoreReleaseDate>,
}

/// One genre of the store.
#[derive(Debug)]
pub struct StoreGenre {
    pub description: String,
}

/// A release date, as the store writes it.
#[derive(Debug)]
pub struct StoreReleaseDate {
    pub date: String,
}

/// The store's answer for one application.
#[derive(Debug)]
pub struct StoreAppResponse {
    pub success: bool,
    pub data: Option<StoreGameDetails>,
}

/// The metadata kept of a game.
#[derive(Debug)]
pub struct ProcessedGameData {
    pub genre: String,
    pub description: String,
    pub release_date: String,
}

/// The genre kept for a game: the store's first, else the default.
pub open spec fn kept_genre(d: StoreGameDetails) -> Seq<char> {
    match d.genres {
        Some(g) => if g@.len() > 0 { g@[0].description@ } else { DEFAULT_GENRE@ },
        None => DEFAULT_GENRE@,
    }
}

/// An optional text, or the empty text.
pub open spec fn text_or_empty(v: Option<String>) -> Seq<char> {
    match v {
        Some(s) => s@,
        None => Seq::<char>::empty(),
    }
}

/// The release date kept for a game, or the empty text.
pub open spec fn kept_release(d: StoreGameDetails) -> Seq<char> {
    match d.release_date {
        Some(r) => r.date@,
        None => Seq::<char>::empty(),
    }
}

/// Reduces a store answer to the metadata kept: nothing where the store
/// reports failure or gives no details.
pub fn process_game_metadata(entry: &StoreAppResponse) -> (r: Option<ProcessedGameData>)
    ensures
        r is Some <==> entry.success && entry.data is Some,
        r is Some ==> {
            let d = entry.data->0;
            &&& r->0.genre@ == kept_genre(d)
            &&& r->0.description@ == text_or_empty(d.short_description)
            &&& r->0.release_date@ == kept_release(d)
        },
{
    if !entry.success {
        return None;
    }
    match &entry.data {
        None => None,
        Some(data) => {
            let genre = match &data.genres {
                Some(g) => if g.len() > 0 {
                    g[0].description.clone()
                } else {
                    DEFAULT_GENRE.to_owned()
                },
                None => DEFAULT_GENRE.to_owned(),
            };
            let description = match &data.short_description {
                Some(d) => d.clone(),
                None => String::new(),
            };
            let release_date = match &data.release_date {
                Some(rd) => rd.date.clone(),
                None => String::new(),
            };
            Some(ProcessedGameData { genre, description, release_date })
        },
    }
}

} // verus!
