//! JSON values: their shape, how a member is found, and how they are read and written.
use crate::text::same;
use serde_json::Value;
use vstd::prelude::*;

verus! {

/// A JSON value.
pub enum Json {
    Null,
    Bool(bool),
    /// An integer that fits in 64 bits with a sign.
    Integer(i64),
    /// An integer above the greatest `i64`.
    Unsigned(u64),
    /// Any other number, as the decimal text of a double.
    Real(String),
    Text(String),
    Array(Vec<Json>),
    /// The members of an object.
    Object(Vec<(String, Json)>),
}

/// What a JSON value is.
pub enum JsonView {
    Null,
    Bool(bool),
    Integer(int),
    Unsigned(int),
    Real(Seq<char>),
    Text(Seq<char>),
    Array(Seq<JsonView>),
    Object(Seq<(Seq<char>, JsonView)>),
}

pub open spec fn json_view(json: Json) -> JsonView
    decreases json,
{
    match json {
        Json::Null => JsonView::Null,
        Json::Bool(b) => JsonView::Bool(b),
        Json::Integer(i) => JsonView::Integer(i as int),
        Json::Unsigned(u) => JsonView::Unsigned(u as int),
        Json::Real(s) => JsonView::Real(s@),
        Json::Text(s) => JsonView::Text(s@),
        Json::Array(v) => JsonView::Array(
            Seq::new(
                v@.len(),
                |i: int|
                    if 0 <= i < v@.len() {
                        json_view(v@[i])
                    } else {
                        JsonView::Null
                    },
            ),
        ),
        Json::Object(v) => JsonView::Object(
            Seq::new(
                v@.len(),
                |i: int|
                    if 0 <= i < v@.len() {
                        (v@[i].0@, json_view(v@[i].1))
                    } else {
                        (Seq::empty(), JsonView::Null)
                    },
            ),
        ),
    }
}

impl View for Json {
    type V = JsonView;

    open spec fn view(&self) -> JsonView {
        json_view(*self)
    }
}

impl DeepView for Json {
    type V = JsonView;

    open spec fn deep_view(&self) -> JsonView {
        json_view(*self)
    }
}

/// The views of the items of an array.
pub open spec fn items_view(items: Seq<Json>) -> Seq<JsonView> {
    Seq::new(items.len(), |i: int| items[i]@)
}

/// The views of the members of an object.
pub open spec fn members_view(members: Seq<(String, Json)>) -> Seq<(Seq<char>, JsonView)> {
    Seq::new(members.len(), |i: int| (members[i].0@, members[i].1@))
}

pub proof fn lemma_array_view(v: Vec<Json>)
    ensures
        Json::Array(v)@ == JsonView::Array(items_view(v@)),
{
    assert(Json::Array(v)@->Array_0 =~= items_view(v@));
}

pub proof fn lemma_object_view(v: Vec<(String, Json)>)
    ensures
        Json::Object(v)@ == JsonView::Object(members_view(v@)),
{
    assert(Json::Object(v)@->Object_0 =~= members_view(v@));
}

/// The value of the first member with a key.
pub open spec fn lookup(members: Seq<(Seq<char>, JsonView)>, key: Seq<char>) -> Option<JsonView>
    decreases members.len(),
{
    if members.len() == 0 {
        None
    } else if members[0].0 == key {
        Some(members[0].1)
    } else {
        lookup(members.drop_first(), key)
    }
}

/// A member is found where its key stands first.
pub proof fn lemma_lookup(members: Seq<(Seq<char>, JsonView)>, key: Seq<char>, k: int)
    requires
        0 <= k < members.len(),
        members[k].0 == key,
        forall|j: int| 0 <= j < k ==> (#[trigger] members[j]).0 != key,
    ensures
        lookup(members, key) == Some(members[k].1),
    decreases k,
{
    if k > 0 {
        assert(members[0].0 != key);
        let rest = members.drop_first();
        assert forall|j: int| 0 <= j < k - 1 implies (#[trigger] rest[j]).0 != key by {
            assert(rest[j] == members[j + 1]);
        }
        lemma_lookup(rest, key, k - 1);
    }
}

/// The member of a value with a key, where the value is an object and has one.
pub open spec fn field(json: JsonView, key: Seq<char>) -> Option<JsonView> {
    match json {
        JsonView::Object(members) => lookup(members, key),
        _ => None,
    }
}

/// The text of a member, where there is one and it is a text.
pub open spec fn text_field(json: JsonView, key: Seq<char>) -> Option<Seq<char>> {
    match field(json, key) {
        Some(JsonView::Text(s)) => Some(s),
        _ => None,
    }
}

/// The integer of a member, where there is one and it fits in 64 bits with a sign.
pub open spec fn integer_field(json: JsonView, key: Seq<char>) -> Option<int> {
    match field(json, key) {
        Some(JsonView::Integer(i)) => Some(i),
        _ => None,
    }
}

/// Whether a member is missing or null.
pub open spec fn absent(json: JsonView, key: Seq<char>) -> bool {
    match field(json, key) {
        None => true,
        Some(v) => v is Null,
    }
}

/// A value, or null where there is none.
pub open spec fn or_null(value: Option<JsonView>) -> JsonView {
    match value {
        Some(v) => v,
        None => JsonView::Null,
    }
}

impl Json {
    /// The member with a key.
    pub fn get(&self, key: &str) -> (r: Option<&Json>)
        ensures
            match r {
                Some(v) => field(self@, key@) == Some(v@),
                None => field(self@, key@) is None,
            },
    {
        match self {
            Json::Object(members) => {
                let mut i: usize = 0;
                let ghost all = members_view(members@);
                proof {
                    lemma_object_view(*members);
                    assert(all.skip(0) =~= all);
                }
                while i < members.len()
                    invariant
                        i <= members@.len(),
                        all == members_view(members@),
                        self@ == JsonView::Object(all),
                        lookup(all, key@) == lookup(all.skip(i as int), key@),
                    decreases members.len() - i,
                {
                    proof {
                        assert(all.skip(i as int).drop_first() =~= all.skip(i + 1));
                    }
                    if same(&members[i].0, key) {
                        return Some(&members[i].1);
                    }
                    i = i + 1;
                }
                None
            },
            _ => None,
        }
    }

    /// The text of the member with a key.
    pub fn text(&self, key: &str) -> (r: Option<&String>)
        ensures
            r.deep_view() == text_field(self@, key@),
    {
        match self.get(key) {
            Some(Json::Text(s)) => Some(s),
            _ => None,
        }
    }

    /// The integer of the member with a key.
    pub fn integer(&self, key: &str) -> (r: Option<i64>)
        ensures
            match r {
                Some(i) => integer_field(self@, key@) == Some(i as int),
                None => integer_field(self@, key@) is None,
            },
    {
        match self.get(key) {
            Some(Json::Integer(i)) => Some(*i),
            _ => None,
        }
    }

    /// Whether the value is null.
    pub fn is_null(&self) -> (r: bool)
        ensures
            r == (self@ is Null),
    {
        match self {
            Json::Null => true,
            _ => false,
        }
    }

    /// Whether the member with a key is missing or null.
    pub fn lacks(&self, key: &str) -> (r: bool)
        ensures
            r == absent(self@, key@),
    {
        match self.get(key) {
            Some(v) => v.is_null(),
            None => true,
        }
    }

    /// A copy of the value.
    pub fn copy(&self) -> (r: Json)
        ensures
            r@ == self@,
        decreases *self,
    {
        match self {
            Json::Null => Json::Null,
            Json::Bool(b) => Json::Bool(*b),
            Json::Integer(i) => Json::Integer(*i),
            Json::Unsigned(u) => Json::Unsigned(*u),
            Json::Real(s) => Json::Real(s.clone()),
            Json::Text(s) => Json::Text(s.clone()),
            Json::Array(items) => {
                let mut out: Vec<Json> = Vec::new();
                let mut i: usize = 0;
                while i < items.len()
                    invariant
                        self matches Json::Array(v) && v == items,
                        i <= items@.len(),
                        out@.len() == i,
                        forall|k: int| 0 <= k < i ==> (#[trigger] out@[k])@ == items@[k]@,
                    decreases items.len() - i,
                {
                    proof {
                        assert(decreases_to!(*self => items@[i as int]));
                    }
                    out.push(items[i].copy());
                    i = i + 1;
                }
                proof {
                    lemma_array_view(out);
                    lemma_array_view(*items);
                    assert(items_view(out@) =~= items_view(items@));
                }
                Json::Array(out)
            },
            Json::Object(members) => {
                let mut out: Vec<(String, Json)> = Vec::new();
                let mut i: usize = 0;
                while i < members.len()
                    invariant
                        self matches Json::Object(v) && v == members,
                        i <= members@.len(),
                        out@.len() == i,
                        forall|k: int|
                            0 <= k < i ==> (#[trigger] out@[k]).0@ == members@[k].0@
                                && out@[k].1@ == members@[k].1@,
                    decreases members.len() - i,
                {
                    proof {
                        assert(decreases_to!(*self => members@[i as int]));
                        assert(decreases_to!(members@[i as int] => members@[i as int].1));
                    }
                    let key = members[i].0.clone();
                    let value = members[i].1.copy();
                    out.push((key, value));
                    i = i + 1;
                }
                proof {
                    lemma_object_view(out);
                    lemma_object_view(*members);
                    assert(members_view(out@) =~= members_view(members@));
                }
                Json::Object(out)
            },
        }
    }
}

/// The members of an empty object.
pub open spec fn members() -> Seq<(Seq<char>, JsonView)> {
    Seq::empty()
}

/// No items yet.
pub fn none<T: DeepView>() -> (r: Vec<T>)
    ensures
        r.deep_view() == Seq::<T::V>::empty(),
{
    let r: Vec<T> = Vec::new();
    proof {
        assert(r.deep_view() =~= Seq::empty());
    }
    r
}

/// Adds an item behind the others.
pub fn put<T: DeepView>(list: &mut Vec<T>, item: T)
    ensures
        final(list).deep_view() == old(list).deep_view().push(item.deep_view()),
{
    let ghost before = list.deep_view();
    list.push(item);
    proof {
        assert(list.deep_view() =~= before.push(item.deep_view()));
    }
}

/// No members yet.
pub fn no_members() -> (r: Vec<(String, Json)>)
    ensures
        members_view(r@) == members(),
{
    let r: Vec<(String, Json)> = Vec::new();
    proof {
        assert(members_view(r@) =~= members());
    }
    r
}

/// Adds a member behind the others.
pub fn member(members: &mut Vec<(String, Json)>, key: &str, value: Json)
    ensures
        members_view(final(members)@) == members_view(old(members)@).push((key@, value@)),
{
    let ghost before = members_view(members@);
    members.push((key.to_owned(), value));
    proof {
        assert(members_view(members@) =~= before.push((key@, value@)));
    }
}

/// Adds members behind the others.
pub fn more_members(members: &mut Vec<(String, Json)>, more: Vec<(String, Json)>)
    ensures
        members_view(final(members)@) == members_view(old(members)@) + members_view(more@),
{
    let mut more = more;
    let ghost before = members@;
    let ghost behind = more@;
    members.append(&mut more);
    proof {
        assert(members_view(members@) =~= members_view(before) + members_view(behind));
    }
}

/// The object with the given members.
pub fn object(members: Vec<(String, Json)>) -> (r: Json)
    ensures
        r@ == JsonView::Object(members_view(members@)),
{
    proof {
        lemma_object_view(members);
    }
    Json::Object(members)
}

/// The array of the given items.
pub fn array(items: Vec<Json>) -> (r: Json)
    ensures
        r@ == JsonView::Array(items.deep_view()),
{
    proof {
        lemma_array_view(items);
        assert(items_view(items@) =~= items.deep_view());
    }
    Json::Array(items)
}

/// A text as a value.
pub fn text_value(s: &str) -> (r: Json)
    ensures
        r@ == JsonView::Text(s@),
{
    Json::Text(s.to_owned())
}

/// A value, or null where there is none.
pub fn null_if_none(value: Option<Json>) -> (r: Json)
    ensures
        r@ == or_null(value.deep_view()),
{
    match value {
        Some(v) => v,
        None => Json::Null,
    }
}

/// The object with one member.
pub fn single(key: &str, value: Json) -> (r: Json)
    ensures
        r@ == JsonView::Object(members().push((key@, value@))),
{
    let mut members = no_members();
    member(&mut members, key, value);
    object(members)
}

/// Whether the keys of an object stand in ascending order, each once.
pub open spec fn ascending(members: Seq<(Seq<char>, JsonView)>) -> bool {
    forall|i: int, j: int|
        0 <= i < j < members.len() ==> crate::text::precedes(
            #[trigger] members[i].0,
            #[trigger] members[j].0,
        )
}

/// The greatest depth of arrays and objects in one another that a document can have.
pub const DEEPEST: usize = 127;

/// Whether a value has the shape of a value read from a document: its keys ascend, its unsigned
/// integers are above the greatest `i64`, and it nests arrays and objects `depth` deep at most.
pub open spec fn document_shape(json: JsonView, depth: nat) -> bool
    decreases json,
{
    match json {
        JsonView::Integer(i) => i64::MIN <= i <= i64::MAX,
        JsonView::Unsigned(u) => i64::MAX < u <= u64::MAX,
        JsonView::Array(items) => depth > 0 && forall|i: int|
            0 <= i < items.len() ==> document_shape(#[trigger] items[i], (depth - 1) as nat),
        JsonView::Object(members) => depth > 0 && ascending(members) && forall|i: int|
            0 <= i < members.len() ==> document_shape(
                (#[trigger] members[i]).1,
                (depth - 1) as nat,
            ),
        _ => true,
    }
}

/// Whether a value holds no number but integers.
pub open spec fn real_free(json: JsonView) -> bool
    decreases json,
{
    match json {
        JsonView::Real(_) => false,
        JsonView::Array(items) => forall|i: int|
            0 <= i < items.len() ==> real_free(#[trigger] items[i]),
        JsonView::Object(members) => forall|i: int|
            0 <= i < members.len() ==> real_free((#[trigger] members[i]).1),
        _ => true,
    }
}

/// `serde_json::Value`, which stands between the bytes of a document and a [`Json`].
#[verifier::external_type_specification]
#[verifier::external_body]
pub struct ExSerdeValue(serde_json::Value);

/// The value that `serde_json::from_slice` reads from a document, `None` where it refuses it.
pub uninterp spec fn json_document(bytes: Seq<u8>) -> Option<JsonView>;

/// The text that `serde_json` writes for a value.
pub uninterp spec fn serde_text(json: JsonView) -> Seq<char>;

/// Whether JSON writes a text as it is between quotes: nothing in it is escaped.
pub open spec fn is_unescaped(s: Seq<char>) -> bool {
    forall|i: int|
        0 <= i < s.len() ==> (#[trigger] s[i]) as u32 >= 0x20 && s[i] != '"' && s[i] != '\\'
}

/// Whether a value is an object with one member, a text, in which nothing is escaped.
pub open spec fn is_single_text(json: JsonView) -> bool {
    match json {
        JsonView::Object(members) => members.len() == 1 && is_unescaped(members[0].0) && (
        match members[0].1 {
            JsonView::Text(s) => is_unescaped(s),
            _ => false,
        }),
        _ => false,
    }
}

/// The compact text of an object with one member, a text.
pub open spec fn single_text(key: Seq<char>, s: Seq<char>) -> Seq<char> {
    "{\""@ + key + "\":\""@ + s + "\"}"@
}

/// The compact text of a value.
pub open spec fn json_text(json: JsonView) -> Seq<char> {
    if is_single_text(json) {
        single_text((json->Object_0)[0].0, (json->Object_0)[0].1->Text_0)
    } else {
        serde_text(json)
    }
}

/// One `serde_json::Value` as a [`Json`], variant by variant. Nothing is claimed of it here: what
/// it hands to `document` is stated there.
#[verifier::external_body]
fn from_serde(value: Value) -> (r: Json) {
    match value {
        Value::Null => Json::Null,
        Value::Bool(b) => Json::Bool(b),
        Value::Number(n) => match (n.as_i64(), n.as_u64()) {
            (Some(i), _) => Json::Integer(i),
            (None, Some(u)) => Json::Unsigned(u),
            (None, None) => Json::Real(n.to_string()),
        },
        Value::String(s) => Json::Text(s),
        Value::Array(v) => Json::Array(v.into_iter().map(from_serde).collect()),
        Value::Object(m) => {
            Json::Object(m.into_iter().map(|(k, v)| (k, from_serde(v))).collect())
        },
    }
}

/// One [`Json`] as a `Value`, variant by variant; a real that no finite double
/// stands for becomes null. Nothing is claimed of it here: what it hands to `written` is stated
/// there.
#[verifier::external_body]
fn to_serde(json: &Json) -> (r: Value) {
    match json {
        Json::Null => Value::Null,
        Json::Bool(b) => Value::Bool(*b),
        Json::Integer(i) => Value::from(*i),
        Json::Unsigned(u) => Value::from(*u),
        Json::Real(s) => {
            let number = s.parse().ok().and_then(serde_json::Number::from_f64);
            number.map_or(Value::Null, Value::Number)
        },
        Json::Text(s) => Value::String(s.clone()),
        Json::Array(v) => Value::Array(v.iter().map(to_serde).collect()),
        Json::Object(m) => {
            Value::Object(m.iter().map(|(k, v)| (k.clone(), to_serde(v))).collect())
        },
    }
}

/// `serde_json::from_slice`: the value of a document, `None` where it is not valid JSON. Keys come
/// out in ascending order, and nesting is bounded.
#[verifier::external_body]
fn read_document(bytes: &[u8]) -> (r: Option<Json>)
    ensures
        r.deep_view() == json_document(bytes@),
        r is Some ==> document_shape((r->0)@, DEEPEST as nat),
{
    serde_json::from_slice::<serde_json::Value>(bytes).ok().map(from_serde)
}

/// `serde_json::Value::to_string`: the compact text of a value, which is spelled out for an object
/// with one plain text. A value of the shape of a document that holds no reals is read back from it
/// as it is.
#[verifier::external_body]
fn write_document(json: &Json) -> (r: String)
    ensures
        !is_single_text(json@) ==> r@ == serde_text(json@),
        is_single_text(json@) ==> r@ == single_text(
            (json@->Object_0)[0].0,
            (json@->Object_0)[0].1->Text_0,
        ),
        document_shape(json@, DEEPEST as nat) && real_free(json@) ==> json_document(
            vstd::utf8::encode_utf8(r@),
        ) == Some(json@),
{
    to_serde(json).to_string()
}

/// The value of a JSON document, `None` where the bytes are no such document.
pub fn document(bytes: &[u8]) -> (r: Option<Json>)
    ensures
        r.deep_view() == json_document(bytes@),
        r is Some ==> document_shape((r->0)@, DEEPEST as nat),
{
    read_document(bytes)
}

/// The compact text of a value.
pub fn written(json: &Json) -> (r: String)
    ensures
        r@ == json_text(json@),
        document_shape(json@, DEEPEST as nat) && real_free(json@) ==> json_document(
            vstd::utf8::encode_utf8(r@),
        ) == Some(json@),
{
    write_document(json)
}

/// The value of a stored document, or `fallback` where the text is no document.
pub open spec fn stored_value(raw: Seq<char>, fallback: JsonView) -> JsonView {
    match json_document(vstd::utf8::encode_utf8(raw)) {
        Some(v) => v,
        None => fallback,
    }
}

/// Reads a stored document.
pub fn stored(raw: &str, fallback: Json) -> (r: Json)
    ensures
        r@ == stored_value(raw@, fallback@),
{
    match document(raw.as_bytes()) {
        Some(v) => v,
        None => fallback,
    }
}

} // verus!
