//! The exchange with the playlist-items API: what is asked, and how its
//! answer is read.
use vstd::prelude::*;
use vstd::string::*;
use crate::playlist_id::{effective_playlist_id, effective_playlist_id_spec};
use crate::reply::AdapterError;
use crate::shaping::{
    items_view, kept, shape_items, summaries_view, text_view, ItemFields, VideoSummary,
};

verus! {

#[verifier::external_type_specification]
#[verifier::external_body]
pub struct ExJsonValue(serde_json::Value);

/// The URL of the playlist-items request: the snippet part of the first five
/// items of `playlist_id`, with the credential `api_key`.
pub open spec fn upstream_url_spec(playlist_id: Seq<char>, api_key: Seq<char>) -> Seq<char> {
    "https://youtube.googleapis.com/youtube/v3/playlistItems?part=snippet&playlistId="@
        + playlist_id + "&key="@ + api_key + "&maxResults=5"@
}

/// The URL of the playlist-items request for `playlist_id`.
pub fn upstream_url(playlist_id: &str, api_key: &str) -> (r: String)
    ensures
        r@ == upstream_url_spec(playlist_id@, api_key@),
{
    let mut r = String::from_str(
        "https://youtube.googleapis.com/youtube/v3/playlistItems?part=snippet&playlistId=",
    );
    r.append(playlist_id);
    r.append("&key=");
    r.append(api_key);
    r.append("&maxResults=5");
    r
}

/// What is sent upstream for one request.
pub struct UpstreamRequest {
    /// The playlist whose items are asked for.
    pub playlist_id: String,
    pub url: String,
}

/// Prepares the upstream request for the path id `raw_id`, with the
/// configured credential if there is one.
pub fn prepare_request(raw_id: &str, api_key: Option<&str>) -> (r: Result<UpstreamRequest, AdapterError>)
    ensures
        match api_key {
            None => r matches Err(AdapterError::ConfigurationMissing),
            Some(key) => r matches Ok(q) && q.playlist_id@ == effective_playlist_id_spec(raw_id@)
                && q.url@ == upstream_url_spec(effective_playlist_id_spec(raw_id@), key@),
        },
{
    let playlist_id = effective_playlist_id(raw_id);
    match api_key {
        None => Err(AdapterError::ConfigurationMissing),
        Some(key) => {
            let url = upstream_url(playlist_id.as_str(), key);
            Ok(UpstreamRequest { playlist_id, url })
        },
    }
}

/// A JSON value as far as the relay reads it: numbers are not looked into.
pub enum JsonModel {
    Null,
    Bool(bool),
    Number,
    Str(Seq<char>),
    Array(Seq<JsonModel>),
    Object(Map<Seq<char>, JsonModel>),
}

/// The bytes form one JSON document.
pub uninterp spec fn json_parses(body: Seq<u8>) -> bool;

/// The document that the bytes hold, where they parse.
pub uninterp spec fn json_document(body: Seq<u8>) -> JsonModel;

/// What a parsed `serde_json::Value` holds.
pub uninterp spec fn json_model(v: serde_json::Value) -> JsonModel;

/// Relies on `serde_json::from_slice` into a `serde_json::Value`: whether it
/// succeeds, and the value it gives, depend on the bytes alone.
#[verifier::external_body]
fn parse_json(body: &[u8]) -> (r: Option<serde_json::Value>)
    ensures
        r is Some == json_parses(body@),
        r matches Some(v) ==> json_model(v) == json_document(body@),
{
    serde_json::from_slice(body).ok()
}

/// Relies on `serde_json::Value::get` with a `str` key: the member of that
/// name of an object, and nothing for any other value.
#[verifier::external_body]
fn json_member<'a>(v: &'a serde_json::Value, key: &str) -> (r: Option<&'a serde_json::Value>)
    ensures
        match json_model(*v) {
            JsonModel::Object(m) => if m.contains_key(key@) {
                r matches Some(x) && json_model(*x) == m[key@]
            } else {
                r is None
            },
            _ => r is None,
        },
{
    v.get(key)
}

/// Relies on `serde_json::Value::as_array`: the elements of an array, and
/// nothing for any other value.
#[verifier::external_body]
fn json_array(v: &serde_json::Value) -> (r: Option<&Vec<serde_json::Value>>)
    ensures
        match json_model(*v) {
            JsonModel::Array(a) => r matches Some(xs) && xs@.len() == a.len() && forall|i: int|
                0 <= i < a.len() ==> json_model(#[trigger] xs@[i]) == a[i],
            _ => r is None,
        },
{
    v.as_array()
}

/// Relies on `serde_json::Value::as_str`: the text of a string, and nothing
/// for any other value.
#[verifier::external_body]
fn json_text(v: &serde_json::Value) -> (r: Option<&str>)
    ensures
        match json_model(*v) {
            JsonModel::Str(s) => r matches Some(t) && t@ == s,
            _ => r is None,
        },
{
    v.as_str()
}

/// The member `key` of `j`, where `j` is an object that has one.
pub open spec fn member(j: Option<JsonModel>, key: Seq<char>) -> Option<JsonModel> {
    match j {
        Some(JsonModel::Object(m)) => if m.contains_key(key) {
            Some(m[key])
        } else {
            None
        },
        _ => None,
    }
}

/// The text of `j`, where it is a string.
pub open spec fn text_of(j: Option<JsonModel>) -> Option<Seq<char>> {
    match j {
        Some(JsonModel::Str(s)) => Some(s),
        _ => None,
    }
}

/// The two fields read from an item: `snippet.resourceId.videoId` and
/// `snippet.title`, each where it is a string.
pub open spec fn fields_of(item: JsonModel) -> (Option<Seq<char>>, Option<Seq<char>>) {
    let snippet = member(Some(item), "snippet"@);
    (
        text_of(member(member(snippet, "resourceId"@), "videoId"@)),
        text_of(member(snippet, "title"@)),
    )
}

/// The elements of the `items` array of a document, where it has one.
pub open spec fn items_of(doc: JsonModel) -> Option<Seq<JsonModel>> {
    match member(Some(doc), "items"@) {
        Some(JsonModel::Array(a)) => Some(a),
        _ => None,
    }
}

/// The string at `key` of the object `v`, if it is one.
fn text_member(v: &serde_json::Value, key: &str) -> (r: Option<String>)
    ensures
        text_view(r) == text_of(member(Some(json_model(*v)), key@)),
{
    match json_member(v, key) {
        Some(m) => match json_text(m) {
            Some(t) => Some(String::from_str(t)),
            None => None,
        },
        None => None,
    }
}

/// Reads `snippet.resourceId.videoId` and `snippet.title` of one item.
fn item_fields(item: &serde_json::Value) -> (r: ItemFields)
    ensures
        r@ == fields_of(json_model(*item)),
{
    match json_member(item, "snippet") {
        Some(snippet) => {
            let video_id = match json_member(snippet, "resourceId") {
                Some(resource) => text_member(resource, "videoId"),
                None => None,
            };
            ItemFields { video_id, title: text_member(snippet, "title") }
        },
        None => ItemFields { video_id: None, title: None },
    }
}

/// An upstream body as the relay reads it.
pub enum BodyShape {
    /// Not JSON.
    Malformed,
    /// JSON without an `items` array.
    NoItems,
    /// The fields of each element of `items`, in order.
    Items(Vec<ItemFields>),
}

/// Reads the body of a successful upstream response.
pub fn decode_body(body: &[u8]) -> (r: BodyShape)
    ensures
        r is Malformed == !json_parses(body@),
        json_parses(body@) ==> match items_of(json_document(body@)) {
            None => r is NoItems,
            Some(a) => r matches BodyShape::Items(f) && items_view(f@) == a.map_values(
                |it: JsonModel| fields_of(it),
            ),
        },
{
    let data = match parse_json(body) {
        Some(d) => d,
        None => return BodyShape::Malformed,
    };
    let items = match json_member(&data, "items") {
        Some(m) => match json_array(m) {
            Some(a) => a,
            None => return BodyShape::NoItems,
        },
        None => return BodyShape::NoItems,
    };
    let ghost a = items_of(json_document(body@))->Some_0;
    let mut fields: Vec<ItemFields> = Vec::new();
    let mut i: usize = 0;
    while i < items.len()
        invariant
            items_of(json_document(body@)) == Some(a),
            items@.len() == a.len(),
            forall|j: int| 0 <= j < a.len() ==> json_model(#[trigger] items@[j]) == a[j],
            i <= items@.len(),
            items_view(fields@) == a.subrange(0, i as int).map_values(|it: JsonModel| fields_of(it)),
        decreases items@.len() - i,
    {
        let f = item_fields(&items[i]);
        assert(f@ == fields_of(a[i as int]));
        let ghost before = fields@;
        fields.push(f);
        proof {
            assert(items_view(fields@) =~= items_view(before).push(f@));
            assert(a.subrange(0, i as int + 1) =~= a.subrange(0, i as int).push(a[i as int]));
            assert(items_view(fields@) =~= a.subrange(0, i as int + 1).map_values(
                |it: JsonModel| fields_of(it),
            ));
        }
        i += 1;
    }
    assert(a.subrange(0, a.len() as int) =~= a);
    BodyShape::Items(fields)
}

/// The outcome of a read body: the summaries of its complete items, or why
/// there are none to give.
pub fn shape_body(shape: BodyShape) -> (r: Result<Vec<VideoSummary>, AdapterError>)
    ensures
        match shape {
            BodyShape::Malformed => r matches Err(AdapterError::ParseFailed),
            BodyShape::NoItems => r matches Err(AdapterError::NoItemsFound),
            BodyShape::Items(items) => r matches Ok(v) && summaries_view(v@) == kept(
                items_view(items@),
            ),
        },
{
    match shape {
        BodyShape::Malformed => Err(AdapterError::ParseFailed),
        BodyShape::NoItems => Err(AdapterError::NoItemsFound),
        BodyShape::Items(items) => Ok(shape_items(&items)),
    }
}

/// What came back from the upstream call.
pub enum UpstreamReply {
    /// The call failed before a response arrived.
    TransportFailed,
    /// A response arrived.
    Answered {
        /// Its status is in 2xx.
        success: bool,
        /// Its status as text, such as `403 Forbidden`.
        status_text: String,
        body: Vec<u8>,
    },
}

/// The outcome of a request from what the upstream call gave back.
pub fn interpret_reply(reply: &UpstreamReply) -> (r: Result<Vec<VideoSummary>, AdapterError>)
    ensures
        match reply {
            UpstreamReply::TransportFailed => r matches Err(AdapterError::RequestFailed),
            UpstreamReply::Answered { success, status_text, body } => if !*success {
                r matches Err(AdapterError::UpstreamStatus(t)) && t@ == status_text@
            } else {
                &&& (r matches Err(AdapterError::ParseFailed)) == !json_parses(body@)
                &&& json_parses(body@) ==> match items_of(json_document(body@)) {
                    None => r matches Err(AdapterError::NoItemsFound),
                    Some(a) => r matches Ok(v) && summaries_view(v@) == kept(
                        a.map_values(|it: JsonModel| fields_of(it)),
                    ),
                }
            },
        },
{
    match reply {
        UpstreamReply::TransportFailed => Err(AdapterError::RequestFailed),
        UpstreamReply::Answered { success, status_text, body } => {
            if !*success {
                Err(AdapterError::UpstreamStatus(status_text.clone()))
            } else {
                shape_body(decode_body(body.as_slice()))
            }
        },
    }
}

} // verus!
