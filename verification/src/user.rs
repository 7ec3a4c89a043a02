use vstd::prelude::*;

use crate::ApiError;

verus! {

/// The inbound wire shape of a create call: all three fields, password
/// included. It lives only for the duration of that call.
#[derive(Debug)]
pub struct CreateRequest {
    pub name: String,
    pub email: String,
    pub password: String,
}

/// The outbound wire shape: name and email only. The type has no password
/// field, so no code path can place a password in a response built from it.
#[derive(Debug)]
pub struct PublicView {
    pub name: String,
    pub email: String,
}

/// The persisted shape, stored verbatim under key = email.
#[derive(Debug)]
pub struct StoredRecord {
    pub name: String,
    pub email: String,
    pub password: String,
}

/// The mathematical shape of `PublicView`.
#[verifier::ext_equal]
pub struct PublicViewV {
    pub name: Seq<char>,
    pub email: Seq<char>,
}

/// The mathematical shape of `StoredRecord`.
#[verifier::ext_equal]
pub struct StoredRecordV {
    pub name: Seq<char>,
    pub email: Seq<char>,
    pub password: Seq<char>,
}

impl View for PublicView {
    type V = PublicViewV;

    open spec fn view(&self) -> PublicViewV {
        PublicViewV { name: self.name@, email: self.email@ }
    }
}

impl View for StoredRecord {
    type V = StoredRecordV;

    open spec fn view(&self) -> StoredRecordV {
        StoredRecordV { name: self.name@, email: self.email@, password: self.password@ }
    }
}

impl Clone for PublicView {
    fn clone(&self) -> (r: Self)
        ensures
            r == *self,
    {
        PublicView { name: self.name.clone(), email: self.email.clone() }
    }
}

impl Clone for StoredRecord {
    fn clone(&self) -> (r: Self)
        ensures
            r == *self,
    {
        StoredRecord {
            name: self.name.clone(),
            email: self.email.clone(),
            password: self.password.clone(),
        }
    }
}

/// The user fields a well-formed create body decodes to, `None` when the
/// body is malformed or a required field is missing: a function of the
/// characters of the body alone.
pub uninterp spec fn user_fields_of(s: Seq<char>) -> Option<(Seq<char>, Seq<char>, Seq<char>)>;

/// Relies on `serde_json::from_str` and `serde_json::Value::get` /
/// `Value::as_str`: reads a JSON object's string fields `name`, `email` and
/// `password`, `None` when the text is not JSON or a field is missing or
/// not a string. The result depends on the input characters alone.
#[verifier::external_body]
fn parse_user_fields(s: &str) -> (r: Option<(String, String, String)>)
    ensures
        match r {
            Some(t) => user_fields_of(s@) == Some((t.0@, t.1@, t.2@)),
            None => user_fields_of(s@) is None,
        },
{
    let v: serde_json::Value = serde_json::from_str(s).ok()?;
    let name = v.get("name")?.as_str()?.to_string();
    let email = v.get("email")?.as_str()?.to_string();
    let password = v.get("password")?.as_str()?.to_string();
    Some((name, email, password))
}

/// Decodes a create body into the inbound representation.
pub fn decode_create(body: &str) -> (r: Option<CreateRequest>)
    ensures
        match r {
            Some(c) => user_fields_of(body@) == Some((c.name@, c.email@, c.password@)),
            None => user_fields_of(body@) is None,
        },
{
    match parse_user_fields(body) {
        Some((name, email, password)) => Some(CreateRequest { name, email, password }),
        None => None,
    }
}

/// The in-memory key-value store: records under string keys, a later put of
/// the same key overwriting the earlier one. It stands in for the external
/// store collaborator wherever the service is exercised directly.
pub struct Store {
    entries: Vec<(String, StoredRecord)>,
}

/// The map a put history denotes: every put applied in order.
pub open spec fn store_map_of(entries: Seq<(String, StoredRecord)>) -> Map<Seq<char>, StoredRecordV>
    decreases entries.len(),
{
    if entries.len() == 0 {
        Map::empty()
    } else {
        store_map_of(entries.drop_last()).insert(entries.last().0@, entries.last().1@)
    }
}

impl View for Store {
    type V = Map<Seq<char>, StoredRecordV>;

    closed spec fn view(&self) -> Map<Seq<char>, StoredRecordV> {
        store_map_of(self.entries@)
    }
}

impl Store {
    /// An empty store.
    pub fn new() -> (r: Store)
        ensures
            r@ == Map::<Seq<char>, StoredRecordV>::empty(),
    {
        let r = Store { entries: Vec::new() };
        assert(r.entries@.len() == 0);
        r
    }

    /// Writes a record under a key, unconditionally overwriting any earlier
    /// record under the same key.
    pub fn put(&mut self, key: String, value: StoredRecord)
        ensures
            final(self)@ == old(self)@.insert(key@, value@),
    {
        let ghost prev = self.entries@;
        self.entries.push((key, value));
        proof {
            assert(self.entries@.drop_last() =~= prev);
        }
    }

    /// Looks a key up: the record the latest put under that key wrote, or
    /// `None` when no put ever wrote the key.
    pub fn get(&self, key: &String) -> (r: Option<&StoredRecord>)
        ensures
            match r {
                Some(v) => self@.contains_key(key@) && self@[key@] == v@,
                None => !self@.contains_key(key@),
            },
    {
        let ghost full = self.entries@;
        let mut i = self.entries.len();
        assert(full.take(i as int) =~= full);
        while i > 0
            invariant
                i <= self.entries.len(),
                full == self.entries@,
                self@.contains_key(key@) == store_map_of(full.take(i as int)).contains_key(key@),
                self@.contains_key(key@) ==> self@[key@] == store_map_of(full.take(i as int))[key@],
            decreases i,
        {
            let ghost sub = full.take(i as int);
            proof {
                assert(sub.last() == full[i as int - 1]);
                assert(sub.drop_last() =~= full.take(i as int - 1));
            }
            if self.entries[i - 1].0 == *key {
                return Some(&self.entries[i - 1].1);
            }
            i = i - 1;
        }
        assert(full.take(0).len() == 0);
        None
    }
}

/// What a create call does to the store and answers, given the fields its
/// body decoded to: a malformed body is refused before any write; a
/// well-formed one writes the full record under key = email and answers
/// with the public view, name and email only.
pub open spec fn spec_create(
    store: Map<Seq<char>, StoredRecordV>,
    fields: Option<(Seq<char>, Seq<char>, Seq<char>)>,
) -> (Map<Seq<char>, StoredRecordV>, Result<PublicViewV, ApiError>) {
    match fields {
        None => (store, Err(ApiError::BadRequest)),
        Some(f) => (
            store.insert(f.1, StoredRecordV { name: f.0, email: f.1, password: f.2 }),
            Ok(PublicViewV { name: f.0, email: f.1 }),
        ),
    }
}

/// What a fetch call answers: a missing path parameter is refused, a key
/// never written is absent, and a hit returns the stored record verbatim.
pub open spec fn spec_fetch(store: Map<Seq<char>, StoredRecordV>, id: Option<Seq<char>>) -> Result<
    StoredRecordV,
    ApiError,
> {
    match id {
        None => Err(ApiError::BadRequest),
        Some(k) => if store.contains_key(k) {
            Ok(store[k])
        } else {
            Err(ApiError::NotFound)
        },
    }
}

/// The view of a create call's answer.
pub open spec fn create_result_view(r: Result<PublicView, ApiError>) -> Result<
    PublicViewV,
    ApiError,
> {
    match r {
        Ok(v) => Ok(v@),
        Err(e) => Err(e),
    }
}

/// The view of a fetch call's answer.
pub open spec fn fetch_result_view(r: Result<StoredRecord, ApiError>) -> Result<
    StoredRecordV,
    ApiError,
> {
    match r {
        Ok(v) => Ok(v@),
        Err(e) => Err(e),
    }
}

/// The view of an optional path parameter.
pub open spec fn opt_str_view(id: Option<&String>) -> Option<Seq<char>> {
    match id {
        Some(s) => Some(s@),
        None => None,
    }
}

/// The create operation against the in-memory store: decode, then write,
/// then answer with the public view.
pub fn create_user(store: &mut Store, body: &str) -> (r: Result<PublicView, ApiError>)
    ensures
        ({
            let (s2, rv) = spec_create(old(store)@, user_fields_of(body@));
            final(store)@ == s2 && create_result_view(r) == rv
        }),
{
    match decode_create(body) {
        None => Err(ApiError::BadRequest),
        Some(req) => {
            let key = req.email.clone();
            let record = StoredRecord {
                name: req.name.clone(),
                email: req.email.clone(),
                password: req.password,
            };
            let view = PublicView { name: req.name, email: req.email };
            store.put(key, record);
            Ok(view)
        },
    }
}

/// The fetch operation against the in-memory store.
pub fn fetch_user(store: &Store, id: Option<&String>) -> (r: Result<StoredRecord, ApiError>)
    ensures
        fetch_result_view(r) == spec_fetch(store@, opt_str_view(id)),
{
    match id {
        None => Err(ApiError::BadRequest),
        Some(k) => match store.get(k) {
            Some(rec) => Ok(rec.clone()),
            None => Err(ApiError::NotFound),
        },
    }
}

/// What the create operation decides before the external store is written:
/// the key, the record to persist, and the response to send on success.
#[derive(Debug)]
pub struct CreatePlan {
    pub key: String,
    pub record: StoredRecord,
    pub response: PublicView,
}

/// The decode-and-translate half of a create call, for a caller that owns
/// the store write itself: the record copies all three decoded fields, the
/// key is the email, and the response carries name and email only.
pub fn create_plan(body: &str) -> (r: Result<CreatePlan, ApiError>)
    ensures
        match r {
            Ok(p) => {
                &&& user_fields_of(body@) == Some(
                    (p.record.name@, p.record.email@, p.record.password@),
                )
                &&& p.key@ == p.record.email@
                &&& p.response@ == (PublicViewV { name: p.record.name@, email: p.record.email@ })
            },
            Err(e) => e == ApiError::BadRequest && user_fields_of(body@) is None,
        },
{
    match decode_create(body) {
        None => Err(ApiError::BadRequest),
        Some(req) => {
            let key = req.email.clone();
            let record = StoredRecord {
                name: req.name.clone(),
                email: req.email.clone(),
                password: req.password,
            };
            let response = PublicView { name: req.name, email: req.email };
            Ok(CreatePlan { key, record, response })
        },
    }
}

/// The answer of a create call once the external store reported on the
/// write: the planned response when the write succeeded, a storage error
/// when it failed.
pub fn create_finish(response: PublicView, put_ok: bool) -> (r: Result<PublicView, ApiError>)
    ensures
        match r {
            Ok(v) => put_ok && v == response,
            Err(e) => !put_ok && e == ApiError::StorageError,
        },
{
    if put_ok {
        Ok(response)
    } else {
        Err(ApiError::StorageError)
    }
}

/// What an external store lookup handed back: the raw text of a hit, a
/// clean miss, or a collaborator failure.
pub enum GetOutcome {
    Found(String),
    Absent,
    Failed,
}

/// The answer of a fetch call once the external store reported: a miss is
/// absent, a failure or a hit that does not decode is a storage error, and
/// a decoded hit is the stored record.
pub fn fetch_finish(got: GetOutcome) -> (r: Result<StoredRecord, ApiError>)
    ensures
        match got {
            GetOutcome::Failed => r matches Err(e) && e == ApiError::StorageError,
            GetOutcome::Absent => r matches Err(e) && e == ApiError::NotFound,
            GetOutcome::Found(s) => match r {
                Ok(rec) => user_fields_of(s@) == Some((rec.name@, rec.email@, rec.password@)),
                Err(e) => e == ApiError::StorageError && user_fields_of(s@) is None,
            },
        },
{
    match got {
        GetOutcome::Failed => Err(ApiError::StorageError),
        GetOutcome::Absent => Err(ApiError::NotFound),
        GetOutcome::Found(s) => match decode_create(s.as_str()) {
            Some(req) => Ok(
                StoredRecord { name: req.name, email: req.email, password: req.password },
            ),
            None => Err(ApiError::StorageError),
        },
    }
}

/// Round trip: a create with decoded fields (name, email, password) answers
/// with exactly name and email — the response shape has no password field —
/// and a fetch of that email afterwards returns the full record verbatim.
pub proof fn lemma_create_then_fetch(
    store: Map<Seq<char>, StoredRecordV>,
    name: Seq<char>,
    email: Seq<char>,
    password: Seq<char>,
)
    ensures
        ({
            let (s2, r) = spec_create(store, Some((name, email, password)));
            &&& r == Ok::<PublicViewV, ApiError>(PublicViewV { name, email })
            &&& spec_fetch(s2, Some(email)) == Ok::<StoredRecordV, ApiError>(
                StoredRecordV { name, email, password },
            )
        }),
{
}

/// Two creates under the same email in order: the second overwrites the
/// first, and a fetch afterwards sees the second record only.
pub proof fn lemma_second_create_overwrites(
    store: Map<Seq<char>, StoredRecordV>,
    name1: Seq<char>,
    password1: Seq<char>,
    name2: Seq<char>,
    password2: Seq<char>,
    email: Seq<char>,
)
    ensures
        ({
            let s1 = spec_create(store, Some((name1, email, password1))).0;
            let s2 = spec_create(s1, Some((name2, email, password2))).0;
            spec_fetch(s2, Some(email)) == Ok::<StoredRecordV, ApiError>(
                StoredRecordV { name: name2, email, password: password2 },
            )
        }),
{
}

/// A fetch of a key never created answers absent, never a record.
pub proof fn lemma_fetch_never_created(store: Map<Seq<char>, StoredRecordV>, key: Seq<char>)
    requires
        !store.contains_key(key),
    ensures
        spec_fetch(store, Some(key)) == Err::<StoredRecordV, ApiError>(ApiError::NotFound),
{
}

/// A body that does not decode is refused and writes nothing: the store is
/// left exactly as it was, so every later fetch answers as before.
pub proof fn lemma_bad_body_writes_nothing(store: Map<Seq<char>, StoredRecordV>)
    ensures
        spec_create(store, None).0 == store,
        spec_create(store, None).1 == Err::<PublicViewV, ApiError>(ApiError::BadRequest),
        forall|k: Seq<char>|
            spec_fetch(spec_create(store, None).0, Some(k)) == spec_fetch(store, Some(k)),
{
}

} // verus!
