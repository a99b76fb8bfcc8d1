//! Steam game titles: the store API request for an app id, and the title
//! read from its JSON answer. Fetching, and caching the titles, is the
//! caller's business.
use vstd::prelude::*;
use crate::text::{concat2, decimal, decimal_string};

verus! {

/// The text of a (possibly negative) integer, as `i64::to_string` writes it.
pub open spec fn signed_decimal(n: i64) -> Seq<char> {
    if n < 0 {
        seq!['-'] + decimal((-(n as int)) as nat)
    } else {
        decimal(n as nat)
    }
}

/// The key under which a Steam app id is looked up and cached: its decimal
/// text.
pub fn app_id_key(app_id: i64) -> (r: String)
    ensures
        r@ == signed_decimal(app_id),
{
    if app_id < 0 {
        let mag: u64 = if app_id == i64::MIN {
            9223372036854775808u64
        } else {
            (0 - app_id) as u64
        };
        let digits = decimal_string(mag);
        let r = concat2("-", digits.as_str());
        proof {
            reveal_strlit("-");
        }
        r
    } else {
        decimal_string(app_id as u64)
    }
}

/// The store API request for the basic details of app `id`.
pub open spec fn spec_details_url(id: Seq<char>) -> Seq<char> {
    "https://store.steampowered.com/api/appdetails?appids="@ + id + "&filters=basic"@
}

/// The URL that asks the Steam store for the basic details of app `id`.
pub fn details_url(id: &str) -> (r: String)
    ensures
        r@ == spec_details_url(id@),
{
    let head = concat2("https://store.steampowered.com/api/appdetails?appids=", id);
    concat2(head.as_str(), "&filters=basic")
}

/// The text found in the JSON document `body` by following the object
/// members named by `keys` in turn (`serde_json::from_str::<Value>`, then
/// `Value::get` per key, then `Value::as_str`); `None` when `body` is not
/// JSON, a member is missing, or the value found is not a string.
pub uninterp spec fn spec_json_text_at(body: Seq<char>, keys: Seq<Seq<char>>) -> Option<Seq<char>>;

/// Parses `body` as JSON (`serde_json::from_str::<Value>`), follows the
/// members `first`, `second` and `third` (`Value::get`) and reads the string
/// there (`Value::as_str`).
#[verifier::external_body]
fn json_text_at(body: &str, first: &str, second: &str, third: &str) -> (r: Option<String>)
    ensures
        r.deep_view() == spec_json_text_at(body@, seq![first@, second@, third@]),
{
    let doc = serde_json::from_str::<serde_json::Value>(body).ok()?;
    let found = doc.get(first)?.get(second)?.get(third)?;
    found.as_str().map(str::to_owned)
}

/// The game title in the store's answer `body` for app `id`: the text at
/// `<id>.data.name`, if the answer parses and has it.
pub fn app_name_from_answer(body: &str, id: &str) -> (r: Option<String>)
    ensures
        r.deep_view() == spec_json_text_at(body@, seq![id@, "data"@, "name"@]),
{
    json_text_at(body, id, "data", "name")
}

/// What the title lookup of an app learns next: the title cached in the
/// store (if any), or the body of the store API's answer (`None` when the
/// request failed).
pub enum LookupEvent {
    Cached(Option<String>),
    Fetched(Option<String>),
}

/// What the title lookup does next.
pub enum LookupAction {
    /// Ask the Steam store at this URL.
    Fetch(String),
    /// Cache this title in the store, then answer it.
    StoreAndAnswer(String),
    /// Answer the lookup with this (`None`: no title).
    Answer(Option<String>),
}

/// One step of resolving app `id` (its decimal key) to a game title: a
/// cached title is the answer; without one the store API is asked; a title
/// read from its answer is cached and answered; a failed request or an
/// answer without a title gives no title.
pub fn lookup_step(id: &str, ev: LookupEvent) -> (r: LookupAction)
    ensures
        ev matches LookupEvent::Cached(Some(n)) ==> r matches LookupAction::Answer(Some(a)) && a@
            == n@,
        ev matches LookupEvent::Cached(None) ==> r matches LookupAction::Fetch(u) && u@
            == spec_details_url(id@),
        ev matches LookupEvent::Fetched(None) ==> r matches LookupAction::Answer(None),
        ev matches LookupEvent::Fetched(Some(b)) ==> match spec_json_text_at(
            b@,
            seq![id@, "data"@, "name"@],
        ) {
            Some(n) => r matches LookupAction::StoreAndAnswer(t) && t@ == n,
            None => r matches LookupAction::Answer(None),
        },
{
    match ev {
        LookupEvent::Cached(Some(n)) => LookupAction::Answer(Some(n)),
        LookupEvent::Cached(None) => LookupAction::Fetch(details_url(id)),
        LookupEvent::Fetched(None) => LookupAction::Answer(None),
        LookupEvent::Fetched(Some(b)) => match app_name_from_answer(b.as_str(), id) {
            Some(n) => LookupAction::StoreAndAnswer(n),
            None => LookupAction::Answer(None),
        },
    }
}

} // verus!
