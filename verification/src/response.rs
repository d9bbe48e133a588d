//! Decoding of the service's responses.
//!
//! An upload answers with a JSON object whose `id` member is the
//! server-assigned identifier. A retrieval answers with a JSON array of
//! stored items; the client keeps the first item whose `id` equals the
//! requested one (the endpoint may return more than the single requested
//! item). What each response text denotes is fixed by spec functions over
//! the parsed document's [`JsonView`], and the outcome functions are proved
//! to return exactly that.

use vstd::prelude::*;

use crate::jsonval::{
    is_json_text, json_as_array, json_as_bool, json_as_str, json_as_u64, json_get, json_is_null,
    json_parse, json_view_of, view_of, JsonView,
};

verus! {

/// Everything that can go wrong with one upload or retrieval, after the
/// transport itself succeeded.
#[derive(Debug, Clone, Copy, PartialEq, Eq, Structural)]
pub enum ClientError {
    /// The service answered with a non-success HTTP status.
    Status(u16),
    /// The response body is not JSON of the expected shape.
    InvalidJson,
    /// An upload response without an `id` member.
    MissingId,
    /// An upload response whose `id` member is not a string.
    IdNotString,
    /// No stored item carries the requested identifier.
    NotFound,
}

/// One stored item as the retrieval endpoint describes it.
#[derive(Debug, Clone, PartialEq, Eq)]
pub struct StoredItem {
    /// The identifier the item is stored under.
    pub id: String,
    /// The stored text.
    pub data: String,
    /// Remaining time to live in seconds, if the service reports one.
    pub ttl: Option<u64>,
    /// The service's url flag, if it reports one.
    pub url: Option<bool>,
}

/// A stored item as plain mathematical data.
#[verifier::ext_equal]
pub struct StoredItemView {
    /// The identifier the item is stored under.
    pub id: Seq<char>,
    /// The stored text.
    pub data: Seq<char>,
    /// Remaining time to live in seconds, if the service reports one.
    pub ttl: Option<u64>,
    /// The service's url flag, if it reports one.
    pub url: Option<bool>,
}

impl View for StoredItem {
    type V = StoredItemView;

    open spec fn view(&self) -> StoredItemView {
        StoredItemView { id: self.id@, data: self.data@, ttl: self.ttl, url: self.url }
    }
}

/// The views of a run of stored items.
pub open spec fn views_of(items: Seq<StoredItem>) -> Seq<StoredItemView> {
    items.map_values(|it: StoredItem| it@)
}

/// An HTTP status code that counts as success.
pub open spec fn http_success(status: u16) -> bool {
    200 <= status < 300
}

/// What an upload response denotes: the server-assigned identifier when
/// the document is an object with a string-valued `id` member, and which
/// error is owed otherwise.
pub open spec fn upload_id_of(j: JsonView) -> Result<Seq<char>, ClientError> {
    match j {
        JsonView::Obj(o) => if o.contains_key("id"@) {
            match o["id"@] {
                JsonView::Str(s) => Ok(s),
                _ => Err(ClientError::IdNotString),
            }
        } else {
            Err(ClientError::MissingId)
        },
        _ => Err(ClientError::MissingId),
    }
}

/// An optional object member that must be an unsigned 64-bit number when
/// present and not null: the field's value when well-formed, `None` when
/// the member is there but of the wrong kind.
pub open spec fn optional_u64_member(o: Map<Seq<char>, JsonView>, key: Seq<char>) -> Option<
    Option<u64>,
> {
    if !o.contains_key(key) {
        Some(None)
    } else {
        match o[key] {
            JsonView::Null => Some(None),
            JsonView::Num(n) => match n {
                Some(v) => Some(Some(v)),
                None => None,
            },
            _ => None,
        }
    }
}

/// An optional object member that must be a boolean when present and not
/// null, in the same shape as [`optional_u64_member`].
pub open spec fn optional_bool_member(o: Map<Seq<char>, JsonView>, key: Seq<char>) -> Option<
    Option<bool>,
> {
    if !o.contains_key(key) {
        Some(None)
    } else {
        match o[key] {
            JsonView::Null => Some(None),
            JsonView::Bool(b) => Some(Some(b)),
            _ => None,
        }
    }
}

/// What one array element of a retrieval response denotes: a stored item
/// when it is an object with string `id` and `data` members and
/// well-formed optional `ttl` and `url` members, else malformed.
pub open spec fn item_view_of(j: JsonView) -> Option<StoredItemView> {
    match j {
        JsonView::Obj(o) => if !o.contains_key("id"@) || !o.contains_key("data"@) {
            None
        } else {
            match (o["id"@], o["data"@], optional_u64_member(o, "ttl"@), optional_bool_member(
                o,
                "url"@,
            )) {
                (JsonView::Str(id), JsonView::Str(data), Some(ttl), Some(url)) => Some(
                    (StoredItemView { id, data, ttl, url }),
                ),
                _ => None,
            }
        },
        _ => None,
    }
}

/// What a retrieval response denotes: the decoded listing when the
/// document is an array of well-formed items, else malformed.
pub open spec fn items_view_of(j: JsonView) -> Option<Seq<StoredItemView>> {
    match j {
        JsonView::Arr(a) => if forall|i: int|
            0 <= i < a.len() ==> item_view_of(#[trigger] a[i]) is Some {
            Some(a.map_values(|x: JsonView| item_view_of(x)->0))
        } else {
            None
        },
        _ => None,
    }
}

/// The data of the first item whose id equals the requested one.
pub open spec fn first_match(items: Seq<StoredItemView>, id: Seq<char>) -> Option<Seq<char>>
    decreases items.len(),
{
    if items.len() == 0 {
        None
    } else if items[0].id == id {
        Some(items[0].data)
    } else {
        first_match(items.drop_first(), id)
    }
}

/// Law: when some item carries the requested id, the result is the data of
/// the earliest such item - the first match wins, not the last.
pub proof fn lemma_first_match_earliest(items: Seq<StoredItemView>, id: Seq<char>, i: int)
    requires
        0 <= i < items.len(),
        items[i].id == id,
        forall|j: int| 0 <= j < i ==> items[j].id != id,
    ensures
        first_match(items, id) == Some(items[i].data),
    decreases i,
{
    if i > 0 {
        lemma_first_match_earliest(items.drop_first(), id, i - 1);
    }
}

/// Law: when no item carries the requested id, there is no match.
pub proof fn lemma_first_match_none(items: Seq<StoredItemView>, id: Seq<char>)
    requires
        forall|j: int| 0 <= j < items.len() ==> items[j].id != id,
    ensures
        first_match(items, id) is None,
    decreases items.len(),
{
    if items.len() > 0 {
        lemma_first_match_none(items.drop_first(), id);
    }
}

/// Find the first stored item whose id equals the requested one and hand
/// out its data.
pub fn find_first(items: &Vec<StoredItem>, id: &str) -> (r: Option<String>)
    ensures
        r matches Some(d) ==> first_match(views_of(items@), id@) == Some(d@),
        r is None ==> first_match(views_of(items@), id@) is None,
{
    let id_string = id.to_owned();
    proof {
        assert(views_of(items@).skip(0) =~= views_of(items@));
    }
    let mut i: usize = 0;
    while i < items.len()
        invariant
            i <= items@.len(),
            id_string@ == id@,
            first_match(views_of(items@), id@) == first_match(
                views_of(items@).skip(i as int),
                id@,
            ),
        decreases items@.len() - i,
    {
        let it = &items[i];
        proof {
            assert(views_of(items@).skip(i as int)[0] == views_of(items@)[i as int]);
            assert(views_of(items@).skip(i as int).drop_first() =~= views_of(items@).skip(i + 1));
        }
        if it.id == id_string {
            return Some(it.data.clone());
        }
        i = i + 1;
    }
    proof {
        assert(views_of(items@).skip(items@.len() as int) =~= Seq::<StoredItemView>::empty());
    }
    None
}

/// Extract the server-assigned identifier from a parsed upload response.
fn extract_id(v: &serde_json::Value) -> (r: Result<String, ClientError>)
    ensures
        (match upload_id_of(view_of(*v)) {
            Ok(s) => r matches Ok(x) && x@ == s,
            Err(e) => r matches Err(x) && x == e,
        }),
{
    match json_get(v, "id") {
        None => Err(ClientError::MissingId),
        Some(member) => match json_as_str(member) {
            None => Err(ClientError::IdNotString),
            Some(s) => Ok(s),
        },
    }
}

/// Decide the outcome of an upload from the HTTP status and response text:
/// exactly the server-assigned identifier on a success status with an
/// object body carrying a string `id`, and the owed error otherwise.
pub fn upload_outcome(status: u16, body: &str) -> (r: Result<String, ClientError>)
    ensures
        !http_success(status) ==> r == Err::<String, ClientError>(ClientError::Status(status)),
        http_success(status) ==> (match json_view_of(body@) {
            None => r == Err::<String, ClientError>(ClientError::InvalidJson),
            Some(j) => match upload_id_of(j) {
                Ok(s) => r matches Ok(x) && x@ == s,
                Err(e) => r matches Err(x) && x == e,
            },
        }),
{
    if !(status >= 200 && status < 300) {
        return Err(ClientError::Status(status));
    }
    match json_parse(body) {
        Err(_) => Err(ClientError::InvalidJson),
        Ok(v) => extract_id(&v),
    }
}

/// Decode one stored item from a parsed array element. The `id` and `data`
/// members must be strings; `ttl` and `url` may be absent or null.
fn decode_item(v: &serde_json::Value) -> (r: Result<StoredItem, ClientError>)
    ensures
        (match item_view_of(view_of(*v)) {
            Some(iv) => r matches Ok(it) && it@ == iv,
            None => r matches Err(e) && e == ClientError::InvalidJson,
        }),
{
    let id = match json_get(v, "id") {
        Some(member) => match json_as_str(member) {
            Some(s) => s,
            None => {
                return Err(ClientError::InvalidJson);
            },
        },
        None => {
            return Err(ClientError::InvalidJson);
        },
    };
    let data = match json_get(v, "data") {
        Some(member) => match json_as_str(member) {
            Some(s) => s,
            None => {
                return Err(ClientError::InvalidJson);
            },
        },
        None => {
            return Err(ClientError::InvalidJson);
        },
    };
    let ttl = match json_get(v, "ttl") {
        None => None,
        Some(member) => if json_is_null(member) {
            None
        } else {
            match json_as_u64(member) {
                Some(n) => Some(n),
                None => {
                    return Err(ClientError::InvalidJson);
                },
            }
        },
    };
    let url = match json_get(v, "url") {
        None => None,
        Some(member) => if json_is_null(member) {
            None
        } else {
            match json_as_bool(member) {
                Some(b) => Some(b),
                None => {
                    return Err(ClientError::InvalidJson);
                },
            }
        },
    };
    Ok(StoredItem { id, data, ttl, url })
}

/// Decide the outcome of a retrieval from the response text and the
/// requested identifier: exactly the data of the first matching item of
/// the decoded listing, the not-found error when no item matches, and the
/// invalid-json error when the text is no well-formed listing.
pub fn retrieve_outcome(body: &str, id: &str) -> (r: Result<String, ClientError>)
    ensures
        !is_json_text(body@) ==> r == Err::<String, ClientError>(ClientError::InvalidJson),
        is_json_text(body@) ==> (match items_view_of(json_view_of(body@)->0) {
            None => r == Err::<String, ClientError>(ClientError::InvalidJson),
            Some(listing) => match first_match(listing, id@) {
                Some(d) => r matches Ok(x) && x@ == d,
                None => r == Err::<String, ClientError>(ClientError::NotFound),
            },
        }),
{
    let parsed = match json_parse(body) {
        Ok(v) => v,
        Err(_) => {
            return Err(ClientError::InvalidJson);
        },
    };
    let ghost jv = view_of(parsed);
    let arr = match json_as_array(&parsed) {
        Some(a) => a,
        None => {
            return Err(ClientError::InvalidJson);
        },
    };
    let ghost elems = jv->Arr_0;
    let mut items: Vec<StoredItem> = Vec::new();
    let mut i: usize = 0;
    while i < arr.len()
        invariant
            i <= arr@.len(),
            is_json_text(body@),
            json_view_of(body@) == Some(jv),
            jv == JsonView::Arr(elems),
            arr@.len() == elems.len(),
            forall|k: int| 0 <= k < elems.len() ==> view_of(#[trigger] arr@[k]) == elems[k],
            items@.len() == i,
            forall|k: int| 0 <= k < i ==> item_view_of(#[trigger] elems[k]) is Some,
            forall|k: int| 0 <= k < i ==> items@[k]@ == item_view_of(#[trigger] elems[k])->0,
        decreases arr@.len() - i,
    {
        let element = &arr[i];
        match decode_item(element) {
            Ok(item) => items.push(item),
            Err(e) => {
                proof {
                    assert(item_view_of(elems[i as int]) is None);
                    assert(items_view_of(jv) is None);
                }
                return Err(e);
            },
        }
        i = i + 1;
    }
    proof {
        assert(items_view_of(jv) is Some);
        assert(views_of(items@) =~= items_view_of(jv)->0);
    }
    match find_first(&items, id) {
        Some(d) => Ok(d),
        None => Err(ClientError::NotFound),
    }
}

} // verus!
