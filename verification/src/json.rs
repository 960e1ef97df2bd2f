//! JSON values: the tree that the connector reads and passes on, and its text.

use crate::text::{lemma_split_joined, lemma_split_whole, same_text, split, split_text, texts};
use serde_json::Value;
use vstd::prelude::*;

verus! {

// ---------------------------------------------------------------------------
// Values
// ---------------------------------------------------------------------------

/// What a JSON value is. The members of an object have no order.
pub enum JsonView {
    Null,
    Bool(bool),
    Int(int),
    Float(Seq<char>),
    Str(Seq<char>),
    Arr(Seq<JsonView>),
    Obj(Map<Seq<char>, JsonView>),
}

/// The text of a JSON number that is no integer, in the form that `serde_json`
/// writes. Only a parsed document yields one.
#[derive(Debug)]
pub struct Decimal {
    text: String,
}

impl View for Decimal {
    type V = Seq<char>;

    closed spec fn view(&self) -> Seq<char> {
        self.text@
    }
}

/// One member of an object.
#[derive(Debug)]
pub struct Member {
    pub key: String,
    pub value: Json,
}

/// A JSON value. Where two members of an object share a key, the first counts.
#[derive(Debug)]
pub enum Json {
    Null,
    Bool(bool),
    PosInt(u64),
    NegInt(i64),
    Float(Decimal),
    Str(String),
    Arr(Vec<Json>),
    Obj(Vec<Member>),
}

impl View for Json {
    type V = JsonView;

    open spec fn view(&self) -> JsonView {
        json_view(*self)
    }
}

pub open spec fn json_view(j: Json) -> JsonView
    decreases j,
{
    match j {
        Json::Null => JsonView::Null,
        Json::Bool(b) => JsonView::Bool(b),
        Json::PosInt(n) => JsonView::Int(n as int),
        Json::NegInt(n) => JsonView::Int(n as int),
        Json::Float(d) => JsonView::Float(d@),
        Json::Str(s) => JsonView::Str(s@),
        Json::Arr(items) => JsonView::Arr(items_view(items@)),
        Json::Obj(members) => JsonView::Obj(members_view(members@)),
    }
}

pub open spec fn items_view(items: Seq<Json>) -> Seq<JsonView>
    decreases items,
{
    Seq::new(
        items.len(),
        |i: int|
            if 0 <= i < items.len() {
                json_view(items[i])
            } else {
                JsonView::Null
            },
    )
}

pub open spec fn members_view(members: Seq<Member>) -> Map<Seq<char>, JsonView>
    decreases members,
{
    if members.len() == 0 {
        Map::empty()
    } else {
        members_view(members.drop_first()).insert(members[0].key@, json_view(members[0].value))
    }
}

// ---------------------------------------------------------------------------
// Reading a value
// ---------------------------------------------------------------------------

/// The member `key` of an object; nothing where there is none, or where the
/// value is no object.
pub open spec fn field(v: JsonView, key: Seq<char>) -> Option<JsonView> {
    match v {
        JsonView::Obj(m) => if m.contains_key(key) {
            Some(m[key])
        } else {
            None
        },
        _ => None,
    }
}

pub open spec fn str_of(v: JsonView) -> Option<Seq<char>> {
    match v {
        JsonView::Str(s) => Some(s),
        _ => None,
    }
}

pub open spec fn bool_of(v: JsonView) -> Option<bool> {
    match v {
        JsonView::Bool(b) => Some(b),
        _ => None,
    }
}

/// The integer that a value is, where it is an `i64`.
pub open spec fn i64_of(v: JsonView) -> Option<i64> {
    match v {
        JsonView::Int(n) => if i64::MIN <= n <= i64::MAX {
            Some(n as i64)
        } else {
            None
        },
        _ => None,
    }
}

/// The integer that a value is, where it is a `u64`.
pub open spec fn u64_of(v: JsonView) -> Option<u64> {
    match v {
        JsonView::Int(n) => if 0 <= n <= u64::MAX {
            Some(n as u64)
        } else {
            None
        },
        _ => None,
    }
}

pub open spec fn items_of(v: JsonView) -> Option<Seq<JsonView>> {
    match v {
        JsonView::Arr(items) => Some(items),
        _ => None,
    }
}

/// The member `key`, where it is a string.
pub open spec fn field_str(v: JsonView, key: Seq<char>) -> Option<Seq<char>> {
    match field(v, key) {
        Some(f) => str_of(f),
        None => None,
    }
}

/// The member `key`, where it is an `i64`.
pub open spec fn field_i64(v: JsonView, key: Seq<char>) -> Option<i64> {
    match field(v, key) {
        Some(f) => i64_of(f),
        None => None,
    }
}

/// The member `key`, where it is a `u64`.
pub open spec fn field_u64(v: JsonView, key: Seq<char>) -> Option<u64> {
    match field(v, key) {
        Some(f) => u64_of(f),
        None => None,
    }
}

/// The member `key`, where it is a boolean.
pub open spec fn field_bool(v: JsonView, key: Seq<char>) -> Option<bool> {
    match field(v, key) {
        Some(f) => bool_of(f),
        None => None,
    }
}

/// The items of the member `key`; none where it is no array.
pub open spec fn field_items(v: JsonView, key: Seq<char>) -> Seq<JsonView> {
    match field(v, key) {
        Some(f) => match items_of(f) {
            Some(items) => items,
            None => seq![],
        },
        None => seq![],
    }
}

/// The characters of an optional text.
pub open spec fn opt_text(t: Option<String>) -> Option<Seq<char>> {
    match t {
        Some(s) => Some(s@),
        None => None,
    }
}

/// A copy of an optional text.
pub fn copy_text(text: &Option<String>) -> (copy: Option<String>)
    ensures
        opt_text(copy) == opt_text(*text),
{
    match text {
        Some(s) => Some(s.clone()),
        None => None,
    }
}

/// The tree of an optional value.
pub open spec fn opt_json(j: Option<Json>) -> Option<JsonView> {
    match j {
        Some(v) => Some(v@),
        None => None,
    }
}

/// What is left of a list from an index on.
pub open spec fn rest_from(list: Seq<JsonView>, at: int) -> Seq<JsonView> {
    if 0 <= at <= list.len() {
        list.skip(at)
    } else {
        seq![]
    }
}

/// The first member with the key `key` is the one that an object has under it.
proof fn lemma_first_member(members: Seq<Member>, key: Seq<char>, i: int)
    requires
        0 <= i <= members.len(),
        forall|k: int| 0 <= k < i ==> (#[trigger] members[k]).key@ != key,
        i < members.len() ==> members[i].key@ == key,
    ensures
        members_view(members).contains_key(key) <==> i < members.len(),
        i < members.len() ==> members_view(members)[key] == members[i].value@,
    decreases members.len(),
{
    if members.len() > 0 && i > 0 {
        let rest = members.drop_first();
        assert forall|k: int| 0 <= k < i - 1 implies (#[trigger] rest[k]).key@ != key by {
            assert(rest[k] == members[k + 1]);
        }
        assert(i < members.len() ==> rest[i - 1] == members[i]);
        lemma_first_member(rest, key, i - 1);
        assert(members[0].key@ != key);
    }
}

/// The object with one member.
pub proof fn lemma_one_member(members: Seq<Member>)
    requires
        members.len() == 1,
    ensures
        members_view(members) == Map::<Seq<char>, JsonView>::empty().insert(
            members[0].key@,
            members[0].value@,
        ),
{
    reveal_with_fuel(members_view, 2);
    assert(members.drop_first().len() == 0);
}

/// The index of the first member with the key `key`, or the number of members
/// where there is none.
fn member_index(members: &Vec<Member>, key: &String) -> (at: usize)
    ensures
        at <= members@.len(),
        forall|k: int| 0 <= k < at ==> (#[trigger] members@[k]).key@ != key@,
        at < members@.len() ==> members@[at as int].key@ == key@,
        members_view(members@).contains_key(key@) <==> at < members@.len(),
        at < members@.len() ==> members_view(members@)[key@] == members@[at as int].value@,
{
    let mut at: usize = 0;
    while at < members.len() && members[at].key != *key
        invariant
            at <= members@.len(),
            forall|k: int| 0 <= k < at ==> (#[trigger] members@[k]).key@ != key@,
        decreases members@.len() - at,
    {
        at = at + 1;
    }
    proof {
        lemma_first_member(members@, key@, at as int);
    }
    at
}

impl Json {
    /// The member `key` of an object.
    pub fn get(&self, key: &str) -> (found: Option<&Json>)
        ensures
            (match found {
                Some(j) => field(self@, key@) == Some(j@),
                None => field(self@, key@) is None,
            }),
    {
        match self {
            Json::Obj(members) => {
                let wanted: String = key.to_owned();
                let at: usize = member_index(members, &wanted);
                if at < members.len() {
                    Some(&members[at].value)
                } else {
                    None
                }
            },
            _ => None,
        }
    }

    /// The string that the value is.
    pub fn as_str(&self) -> (found: Option<&str>)
        ensures
            (match found {
                Some(s) => str_of(self@) == Some(s@),
                None => str_of(self@) is None,
            }),
    {
        match self {
            Json::Str(s) => Some(s.as_str()),
            _ => None,
        }
    }

    /// The boolean that the value is.
    pub fn as_bool(&self) -> (found: Option<bool>)
        ensures
            found == bool_of(self@),
    {
        match self {
            Json::Bool(b) => Some(*b),
            _ => None,
        }
    }

    /// The integer that the value is, where it is an `i64`.
    pub fn as_i64(&self) -> (found: Option<i64>)
        ensures
            found == i64_of(self@),
    {
        match self {
            Json::PosInt(n) => if *n <= 0x7fff_ffff_ffff_ffff {
                Some(*n as i64)
            } else {
                None
            },
            Json::NegInt(n) => Some(*n),
            _ => None,
        }
    }

    /// The integer that the value is, where it is a `u64`.
    pub fn as_u64(&self) -> (found: Option<u64>)
        ensures
            found == u64_of(self@),
    {
        match self {
            Json::PosInt(n) => Some(*n),
            Json::NegInt(n) => if *n >= 0 {
                Some(*n as u64)
            } else {
                None
            },
            _ => None,
        }
    }

    /// The member `key`, where it is a string.
    pub fn get_str(&self, key: &str) -> (found: Option<String>)
        ensures
            opt_text(found) == field_str(self@, key@),
    {
        match self.get(key) {
            Some(f) => match f.as_str() {
                Some(s) => Some(s.to_owned()),
                None => None,
            },
            None => None,
        }
    }

    /// The member `key`, where it is an `i64`.
    pub fn get_i64(&self, key: &str) -> (found: Option<i64>)
        ensures
            found == field_i64(self@, key@),
    {
        match self.get(key) {
            Some(f) => f.as_i64(),
            None => None,
        }
    }

    /// The member `key`, where it is a `u64`.
    pub fn get_u64(&self, key: &str) -> (found: Option<u64>)
        ensures
            found == field_u64(self@, key@),
    {
        match self.get(key) {
            Some(f) => f.as_u64(),
            None => None,
        }
    }

    /// The member `key`, where it is a boolean.
    pub fn get_bool(&self, key: &str) -> (found: Option<bool>)
        ensures
            found == field_bool(self@, key@),
    {
        match self.get(key) {
            Some(f) => f.as_bool(),
            None => None,
        }
    }

    /// A copy of the items of the member `key`; none where it is no array.
    pub fn get_items(&self, key: &str) -> (items: Vec<Json>)
        ensures
            items_view(items@) == field_items(self@, key@),
    {
        match self.get(key) {
            Some(Json::Arr(items)) => copy_items(items),
            _ => Vec::new(),
        }
    }

    /// A copy of the member `key`.
    pub fn get_copy(&self, key: &str) -> (found: Option<Json>)
        ensures
            opt_json(found) == field(self@, key@),
    {
        match self.get(key) {
            Some(f) => Some(f.clone()),
            None => None,
        }
    }
}

// ---------------------------------------------------------------------------
// Copies
// ---------------------------------------------------------------------------

impl Clone for Json {
    fn clone(&self) -> (copy: Self)
        ensures
            copy@ == self@,
    {
        copy_json(self)
    }
}

fn copy_json(json: &Json) -> (copy: Json)
    ensures
        copy@ == json@,
    decreases json,
{
    match json {
        Json::Null => Json::Null,
        Json::Bool(b) => Json::Bool(*b),
        Json::PosInt(n) => Json::PosInt(*n),
        Json::NegInt(n) => Json::NegInt(*n),
        Json::Float(d) => Json::Float(Decimal { text: d.text.clone() }),
        Json::Str(s) => Json::Str(s.clone()),
        Json::Arr(items) => Json::Arr(copy_items(items)),
        Json::Obj(members) => Json::Obj(copy_members(members)),
    }
}

/// A copy of a list of values.
pub fn copy_items(items: &Vec<Json>) -> (copy: Vec<Json>)
    ensures
        items_view(copy@) == items_view(items@),
    decreases items,
{
    let mut copy: Vec<Json> = Vec::new();
    let mut i: usize = 0;
    while i < items.len()
        invariant
            i <= items@.len(),
            copy@.len() == i,
            forall|k: int| 0 <= k < i ==> (#[trigger] copy@[k])@ == items@[k]@,
        decreases items@.len() - i,
    {
        copy.push(copy_json(&items[i]));
        i = i + 1;
    }
    assert(items_view(copy@) =~= items_view(items@));
    copy
}

/// Members with the same keys and the same trees make the same object.
proof fn lemma_members_view_of(a: Seq<Member>, b: Seq<Member>)
    requires
        a.len() == b.len(),
        forall|k: int|
            #![trigger a[k]]
            0 <= k < a.len() ==> a[k].key@ == b[k].key@ && a[k].value@ == b[k].value@,
    ensures
        members_view(a) == members_view(b),
    decreases a.len(),
{
    if a.len() > 0 {
        let ra = a.drop_first();
        let rb = b.drop_first();
        assert forall|k: int| #![trigger ra[k]] 0 <= k < ra.len() implies ra[k].key@ == rb[k].key@
            && ra[k].value@ == rb[k].value@ by {
            assert(ra[k] == a[k + 1] && rb[k] == b[k + 1]);
        }
        lemma_members_view_of(ra, rb);
        assert(a[0].key@ == b[0].key@);
    }
}

fn copy_members(members: &Vec<Member>) -> (copy: Vec<Member>)
    ensures
        members_view(copy@) == members_view(members@),
    decreases members,
{
    let mut copy: Vec<Member> = Vec::new();
    let mut i: usize = 0;
    while i < members.len()
        invariant
            i <= members@.len(),
            copy@.len() == i,
            forall|k: int|
                #![trigger copy@[k]]
                0 <= k < i ==> copy@[k].key@ == members@[k].key@ && copy@[k].value@
                    == members@[k].value@,
        decreases members@.len() - i,
    {
        let member: &Member = &members[i];
        copy.push(Member { key: member.key.clone(), value: copy_json(&member.value) });
        i = i + 1;
    }
    proof {
        lemma_members_view_of(copy@, members@);
    }
    copy
}

// ---------------------------------------------------------------------------
// Equality
// ---------------------------------------------------------------------------

/// The two texts of the floating-point zero, which are one number.
pub open spec fn is_zero_text(t: Seq<char>) -> bool {
    t == "0.0"@ || t == "-0.0"@
}

/// Two values are equal: the same kind, the same numbers, texts and items, and
/// for objects the same keys with equal values, in whatever order.
pub open spec fn same(a: JsonView, b: JsonView) -> bool
    decreases a,
{
    match (a, b) {
        (JsonView::Null, JsonView::Null) => true,
        (JsonView::Bool(x), JsonView::Bool(y)) => x == y,
        (JsonView::Int(x), JsonView::Int(y)) => x == y,
        (JsonView::Float(x), JsonView::Float(y)) => x == y || (is_zero_text(x) && is_zero_text(y)),
        (JsonView::Str(x), JsonView::Str(y)) => x == y,
        (JsonView::Arr(x), JsonView::Arr(y)) => {
            &&& x.len() == y.len()
            &&& forall|i: int| 0 <= i < x.len() ==> same(#[trigger] x[i], y[i])
        },
        (JsonView::Obj(x), JsonView::Obj(y)) => {
            &&& x.dom() == y.dom()
            &&& forall|k: Seq<char>| #[trigger] x.contains_key(k) ==> same(x[k], y[k])
        },
        _ => false,
    }
}

/// A key of an object belongs to a first member.
proof fn lemma_member_of(members: Seq<Member>, key: Seq<char>) -> (i: int)
    requires
        members_view(members).contains_key(key),
    ensures
        0 <= i < members.len(),
        members[i].key@ == key,
        forall|k: int| 0 <= k < i ==> (#[trigger] members[k]).key@ != key,
    decreases members.len(),
{
    if members[0].key@ == key {
        0
    } else {
        let rest = members.drop_first();
        let j = lemma_member_of(rest, key);
        assert forall|k: int| 0 <= k < j + 1 implies (#[trigger] members[k]).key@ != key by {
            if k > 0 {
                assert(rest[k - 1] == members[k]);
            }
        }
        j + 1
    }
}

impl Json {
    /// Whether two values are equal.
    pub fn equals(&self, other: &Json) -> (is: bool)
        ensures
            is == same(self@, other@),
    {
        same_json(self, other)
    }
}

fn is_zero(d: &Decimal) -> (is: bool)
    ensures
        is == is_zero_text(d@),
{
    same_text(d.text.as_str(), "0.0") || same_text(d.text.as_str(), "-0.0")
}

fn same_json(a: &Json, b: &Json) -> (is: bool)
    ensures
        is == same(a@, b@),
    decreases a,
{
    match (a, b) {
        (Json::Null, Json::Null) => true,
        (Json::Bool(x), Json::Bool(y)) => *x == *y,
        (Json::PosInt(x), Json::PosInt(y)) => *x == *y,
        (Json::NegInt(x), Json::NegInt(y)) => *x == *y,
        (Json::PosInt(x), Json::NegInt(y)) => *y >= 0 && *x == *y as u64,
        (Json::NegInt(x), Json::PosInt(y)) => *x >= 0 && *x as u64 == *y,
        (Json::Float(x), Json::Float(y)) => x.text == y.text || (is_zero(x) && is_zero(y)),
        (Json::Str(x), Json::Str(y)) => *x == *y,
        (Json::Arr(x), Json::Arr(y)) => same_items(x, y),
        (Json::Obj(x), Json::Obj(y)) => same_members(x, y),
        _ => false,
    }
}

fn same_items(a: &Vec<Json>, b: &Vec<Json>) -> (is: bool)
    ensures
        is == same(JsonView::Arr(items_view(a@)), JsonView::Arr(items_view(b@))),
    decreases a,
{
    if a.len() != b.len() {
        return false;
    }
    let ghost x = items_view(a@);
    let ghost y = items_view(b@);
    let mut i: usize = 0;
    while i < a.len()
        invariant
            i <= a@.len(),
            a@.len() == b@.len(),
            x == items_view(a@),
            y == items_view(b@),
            forall|k: int| 0 <= k < i ==> same(#[trigger] x[k], y[k]),
        decreases a@.len() - i,
    {
        if !same_json(&a[i], &b[i]) {
            assert(!same(x[i as int], y[i as int]));
            return false;
        }
        assert(same(x[i as int], y[i as int]));
        i = i + 1;
    }
    true
}

fn same_members(a: &Vec<Member>, b: &Vec<Member>) -> (is: bool)
    ensures
        is == same(JsonView::Obj(members_view(a@)), JsonView::Obj(members_view(b@))),
    decreases a,
{
    let ghost x = members_view(a@);
    let ghost y = members_view(b@);
    let mut i: usize = 0;
    while i < a.len()
        invariant
            i <= a@.len(),
            x == members_view(a@),
            y == members_view(b@),
            forall|k: int|
                #![trigger a@[k]]
                0 <= k < i ==> y.contains_key(a@[k].key@) && same(x[a@[k].key@], y[a@[k].key@]),
        decreases a@.len() - i,
    {
        let key: &String = &a[i].key;
        let first: usize = member_index(a, key);
        if first == i {
            let at: usize = member_index(b, key);
            if at == b.len() {
                assert(x.dom().contains(key@) && !y.dom().contains(key@));
                return false;
            }
            if !same_json(&a[i].value, &b[at].value) {
                assert(!same(x[key@], y[key@]));
                return false;
            }
        } else {
            assert(a@[first as int].key@ == key@);
        }
        i = i + 1;
    }
    let mut j: usize = 0;
    while j < b.len()
        invariant
            j <= b@.len(),
            x == members_view(a@),
            y == members_view(b@),
            forall|k: int| #![trigger b@[k]] 0 <= k < j ==> x.contains_key(b@[k].key@),
        decreases b@.len() - j,
    {
        let key: &String = &b[j].key;
        let at: usize = member_index(a, key);
        if at == a.len() {
            proof {
                lemma_has_key(b@, key@, j as int);
                assert(y.dom().contains(key@) && !x.dom().contains(key@));
            }
            return false;
        }
        j = j + 1;
    }
    proof {
        assert forall|k: Seq<char>| #[trigger] x.contains_key(k) implies y.contains_key(k) && same(
            x[k],
            y[k],
        ) by {
            let n = lemma_member_of(a@, k);
            assert(a@[n].key@ == k);
        }
        assert forall|k: Seq<char>| y.contains_key(k) implies x.contains_key(k) by {
            let n = lemma_member_of(b@, k);
            assert(b@[n].key@ == k);
        }
        assert forall|k: Seq<char>| x.dom().contains(k) == y.dom().contains(k) by {
            assert(x.contains_key(k) == y.contains_key(k));
        }
        assert(x.dom() =~= y.dom());
    }
    true
}

/// A key that some member has is a key of the object.
proof fn lemma_has_key(members: Seq<Member>, key: Seq<char>, i: int)
    requires
        0 <= i < members.len(),
        members[i].key@ == key,
    ensures
        members_view(members).contains_key(key),
    decreases members.len(),
{
    if members[0].key@ != key {
        let rest = members.drop_first();
        assert(rest[i - 1] == members[i]);
        lemma_has_key(rest, key, i - 1);
    }
}

// ---------------------------------------------------------------------------
// Dotted paths
// ---------------------------------------------------------------------------

/// The value that is reached from `v` by following `keys` one after the other.
pub open spec fn follow(v: JsonView, keys: Seq<Seq<char>>) -> Option<JsonView>
    decreases keys.len(),
{
    if keys.len() == 0 {
        Some(v)
    } else {
        match field(v, keys[0]) {
            Some(f) => follow(f, keys.skip(1)),
            None => None,
        }
    }
}

/// The value at a dotted path such as `slack.actor.email`.
pub open spec fn at_path(v: JsonView, path: Seq<char>) -> Option<JsonView> {
    follow(v, split(path, '.'))
}

proof fn lemma_follow_on(v: JsonView, a: Seq<Seq<char>>, b: Seq<Seq<char>>)
    ensures
        follow(v, a + b) == (match follow(v, a) {
            Some(w) => follow(w, b),
            None => None,
        }),
    decreases a.len(),
{
    if a.len() == 0 {
        assert(a + b =~= b);
    } else {
        assert((a + b)[0] == a[0]);
        assert((a + b).skip(1) =~= a.skip(1) + b);
        if let Some(f) = field(v, a[0]) {
            lemma_follow_on(f, a.skip(1), b);
        }
    }
}

/// A dotted path leads to where its parts lead one after the other.
pub proof fn law_paths_compose(v: JsonView, first: Seq<char>, second: Seq<char>)
    ensures
        at_path(v, first.push('.') + second) == (match at_path(v, first) {
            Some(w) => at_path(w, second),
            None => None,
        }),
{
    lemma_split_joined(first, '.', second);
    lemma_follow_on(v, split(first, '.'), split(second, '.'));
}

/// A path without a dot is a key.
pub proof fn law_plain_path_is_a_key(v: JsonView, key: Seq<char>)
    requires
        !key.contains('.'),
    ensures
        at_path(v, key) == field(v, key),
{
    lemma_split_whole(key, '.');
    reveal_with_fuel(follow, 2);
    assert(seq![key].skip(1) =~= Seq::<Seq<char>>::empty());
}

/// The value at the dotted path `path` below `v`.
pub fn lookup_dotted<'a>(v: &'a Json, path: &str) -> (found: Option<&'a Json>)
    ensures
        (match found {
            Some(j) => at_path(v@, path@) == Some(j@),
            None => at_path(v@, path@) is None,
        }),
{
    let parts: Vec<String> = split_text(path, '.');
    let ghost keys = texts(parts@);
    let mut cur: &'a Json = v;
    let mut i: usize = 0;
    assert(keys.skip(0) == keys);
    while i < parts.len()
        invariant
            i <= parts@.len(),
            keys == texts(parts@),
            keys == split(path@, '.'),
            follow(cur@, keys.skip(i as int)) == at_path(v@, path@),
        decreases parts@.len() - i,
    {
        assert(keys.skip(i as int)[0] == parts@[i as int]@);
        assert(keys.skip(i as int).skip(1) == keys.skip(i + 1));
        match cur.get(parts[i].as_str()) {
            Some(next) => {
                cur = next;
            },
            None => {
                return None;
            },
        }
        i = i + 1;
    }
    assert(keys.skip(i as int) == Seq::<Seq<char>>::empty());
    Some(cur)
}

// ---------------------------------------------------------------------------
// Text, read and written by `serde_json`
// ---------------------------------------------------------------------------

/// `serde_json::Value`, a JSON value.
#[verifier::external_type_specification]
#[verifier::external_body]
pub struct ExValue(Value);

/// `serde_json::Error`, why a text is no JSON document.
#[verifier::external_type_specification]
#[verifier::external_body]
pub struct ExJsonError(serde_json::Error);

/// The tree that a `serde_json::Value` holds.
pub uninterp spec fn value_tree(value: Value) -> JsonView;

/// The tree that `serde_json::from_str` reads in a text; nothing where the text
/// is no JSON document.
pub uninterp spec fn json_parse(text: Seq<char>) -> Option<JsonView>;

/// The compact text that `serde_json` writes for a tree.
pub uninterp spec fn json_text(tree: JsonView) -> Seq<char>;

/// `serde_json::from_str`: whether `text` is a JSON document, and the value in
/// it, depend on `text` alone.
#[verifier::external_body]
fn read_value(text: &str) -> (read: Result<Value, serde_json::Error>)
    ensures
        (match read {
            Ok(value) => json_parse(text@) == Some(value_tree(value)),
            Err(_) => json_parse(text@) is None,
        }),
{
    serde_json::from_str(text)
}

/// `serde_json::Value::to_string`: the compact text depends on the tree alone,
/// and every control character in it is escaped.
#[verifier::external_body]
fn value_text(value: &Value) -> (text: String)
    ensures
        text@ == json_text(value_tree(*value)),
        forall|i: int| 0 <= i < text@.len() ==> text@[i] >= ' ',
{
    value.to_string()
}

/// A `serde_json::Value` taken apart into the library's own values, one for one.
#[verifier::external_body]
fn from_value(value: Value) -> (json: Json)
    ensures
        json@ == value_tree(value),
{
    match value {
        Value::Null => Json::Null,
        Value::Bool(b) => Json::Bool(b),
        Value::Number(n) => match (n.as_u64(), n.as_i64()) {
            (Some(u), _) => Json::PosInt(u),
            (None, Some(i)) => Json::NegInt(i),
            (None, None) => Json::Float(Decimal { text: n.to_string() }),
        },
        Value::String(s) => Json::Str(s),
        Value::Array(a) => Json::Arr(a.into_iter().map(from_value).collect()),
        Value::Object(m) => Json::Obj(
            m.into_iter().map(|(key, value)| Member { key, value: from_value(value) }).collect(),
        ),
    }
}

/// The `serde_json::Value` with the tree of `json`, built one for one. A
/// `Decimal` holds the text of a finite number in `serde_json`'s own form, so
/// it reads back as that number. Later members are put first, so that the
/// first of two members with one key stays.
#[verifier::external_body]
fn to_value(json: &Json) -> (value: Value)
    ensures
        value_tree(value) == json@,
{
    match json {
        Json::Null => Value::Null,
        Json::Bool(b) => Value::Bool(*b),
        Json::PosInt(n) => Value::from(*n),
        Json::NegInt(n) => Value::from(*n),
        Json::Float(d) => serde_json::Number::from_f64(d.text.parse().unwrap()).unwrap().into(),
        Json::Str(s) => Value::String(s.clone()),
        Json::Arr(items) => Value::Array(items.iter().map(to_value).collect()),
        Json::Obj(members) => Value::Object(
            members.iter().rev().map(|m| (m.key.clone(), to_value(&m.value))).collect(),
        ),
    }
}

/// The text is no JSON document.
#[derive(Debug, Clone, Copy, PartialEq, Eq, Structural)]
pub struct InvalidJson;

/// The JSON value in `text`.
pub fn parse(text: &str) -> (read: Result<Json, InvalidJson>)
    ensures
        (match read {
            Ok(json) => json_parse(text@) == Some(json@),
            Err(InvalidJson) => json_parse(text@) is None,
        }),
{
    match read_value(text) {
        Ok(value) => Ok(from_value(value)),
        Err(_) => Err(InvalidJson),
    }
}

/// The JSON value in `text`, where there is one.
pub fn parse_document(text: &str) -> (read: Option<Json>)
    ensures
        opt_json(read) == json_parse(text@),
{
    match parse(text) {
        Ok(json) => Some(json),
        Err(_) => None,
    }
}

/// The compact text of `json`, on one line.
pub fn render(json: &Json) -> (text: String)
    ensures
        text@ == json_text(json@),
        forall|i: int| 0 <= i < text@.len() ==> text@[i] >= ' ',
{
    value_text(&to_value(json))
}

// ---------------------------------------------------------------------------
// Laws
// ---------------------------------------------------------------------------

/// The value is an object that has `x` under `key`.
pub open spec fn has_member(v: JsonView, key: Seq<char>, x: JsonView) -> bool {
    v matches JsonView::Obj(m) && m.contains_key(key) && m[key] == x
}

/// The value is an object that has the string `s` under `key`.
pub open spec fn has_text(v: JsonView, key: Seq<char>, s: Seq<char>) -> bool {
    v matches JsonView::Obj(m) && m.contains_key(key) && m[key] == JsonView::Str(s)
}

/// The value has nothing under `key`.
pub open spec fn lacks_member(v: JsonView, key: Seq<char>) -> bool {
    v matches JsonView::Obj(m) ==> !m.contains_key(key)
}

/// The value has no string under `key`.
pub open spec fn lacks_text(v: JsonView, key: Seq<char>) -> bool {
    v matches JsonView::Obj(m) ==> m.contains_key(key) ==> !(m[key] is Str)
}

/// A member is read exactly where an object has it.
pub proof fn law_members_are_read(v: JsonView, key: Seq<char>, x: JsonView)
    ensures
        field(v, key) == Some(x) <==> has_member(v, key, x),
        field(v, key) is None <==> lacks_member(v, key),
{
}

/// A string is read exactly where an object has it, as it stands.
pub proof fn law_texts_are_read(v: JsonView, key: Seq<char>, s: Seq<char>)
    ensures
        field_str(v, key) == Some(s) <==> has_text(v, key, s),
        field_str(v, key) is None <==> lacks_text(v, key),
{
}

/// An integer is read exactly where an object has it and the type can hold it.
pub proof fn law_numbers_are_read(v: JsonView, key: Seq<char>, n: i64, u: u64)
    ensures
        field_i64(v, key) == Some(n) <==> has_member(v, key, JsonView::Int(n as int)),
        field_u64(v, key) == Some(u) <==> has_member(v, key, JsonView::Int(u as int)),
        field_i64(v, key) is None <==> forall|k: i64|
            !#[trigger] has_member(v, key, JsonView::Int(k as int)),
        field_u64(v, key) is None <==> forall|k: u64|
            !#[trigger] has_member(v, key, JsonView::Int(k as int)),
{
    if let Some(k) = field_i64(v, key) {
        assert(has_member(v, key, JsonView::Int(k as int)));
    }
    if let Some(k) = field_u64(v, key) {
        assert(has_member(v, key, JsonView::Int(k as int)));
    }
}

/// A truth value is read exactly where an object has it.
pub proof fn law_truth_is_read(v: JsonView, key: Seq<char>, b: bool)
    ensures
        field_bool(v, key) == Some(b) <==> has_member(v, key, JsonView::Bool(b)),
        field_bool(v, key) is None <==> !has_member(v, key, JsonView::Bool(true)) && !has_member(
            v,
            key,
            JsonView::Bool(false),
        ),
{
}

/// The items of an array are read all of them and in their order; where there is
/// no array there are none.
pub proof fn law_items_are_read(v: JsonView, key: Seq<char>, items: Seq<JsonView>)
    ensures
        has_member(v, key, JsonView::Arr(items)) ==> field_items(v, key) == items,
        field_items(v, key).len() > 0 ==> has_member(v, key, JsonView::Arr(field_items(v, key))),
{
}

/// The tree of a list has the tree of every item in its place, and no other.
pub proof fn law_every_item_is_seen(items: Vec<Json>, i: int)
    requires
        0 <= i < items@.len(),
    ensures
        Json::Arr(items)@ matches JsonView::Arr(trees) && trees.len() == items@.len() && trees[i]
            == items@[i]@,
        items_view(items@).len() == items@.len(),
        items_view(items@)[i] == items@[i]@,
{
}

/// The tree of an object has under a key what the first member with that key
/// holds, and nothing where no member has the key.
pub proof fn law_every_member_is_seen(members: Vec<Member>, i: int, key: Seq<char>)
    requires
        0 <= i < members@.len(),
        forall|k: int| 0 <= k < i ==> (#[trigger] members@[k]).key@ != members@[i].key@,
    ensures
        has_member(Json::Obj(members)@, members@[i].key@, members@[i].value@),
        (forall|k: int| 0 <= k < members@.len() ==> (#[trigger] members@[k]).key@ != key)
            ==> lacks_member(Json::Obj(members)@, key),
{
    lemma_first_member(members@, members@[i].key@, i);
    if forall|k: int| 0 <= k < members@.len() ==> (#[trigger] members@[k]).key@ != key {
        lemma_first_member(members@, key, members@.len() as int);
    }
}

/// A value without parts is seen as what it is.
pub proof fn law_plain_values_are_seen(b: bool, u: u64, n: i64, s: String)
    ensures
        Json::Null@ == JsonView::Null,
        Json::Bool(b)@ == JsonView::Bool(b),
        Json::PosInt(u)@ == JsonView::Int(u as int),
        Json::NegInt(n)@ == JsonView::Int(n as int),
        Json::Str(s)@ == JsonView::Str(s@),
{
}

/// The tree holds no number that is no integer.
pub open spec fn no_float(v: JsonView) -> bool
    decreases v,
{
    match v {
        JsonView::Float(_) => false,
        JsonView::Arr(items) => forall|i: int| 0 <= i < items.len() ==> no_float(#[trigger] items[i]),
        JsonView::Obj(m) => forall|k: Seq<char>| #[trigger] m.contains_key(k) ==> no_float(m[k]),
        _ => true,
    }
}

/// Every value equals itself.
pub proof fn law_equal_to_itself(v: JsonView)
    ensures
        same(v, v),
    decreases v,
{
    match v {
        JsonView::Arr(items) => {
            assert forall|i: int| 0 <= i < items.len() implies same(#[trigger] items[i], items[i]) by {
                law_equal_to_itself(items[i]);
            }
        },
        JsonView::Obj(m) => {
            assert forall|k: Seq<char>| #[trigger] m.contains_key(k) implies same(m[k], m[k]) by {
                law_equal_to_itself(m[k]);
            }
        },
        _ => {},
    }
}

/// Which of two values is asked makes no difference.
pub proof fn law_equality_goes_both_ways(a: JsonView, b: JsonView)
    ensures
        same(a, b) <==> same(b, a),
    decreases a,
{
    match (a, b) {
        (JsonView::Arr(x), JsonView::Arr(y)) => {
            if x.len() == y.len() {
                assert forall|i: int| 0 <= i < x.len() implies (#[trigger] same(x[i], y[i]) <==> same(
                    y[i],
                    x[i],
                )) by {
                    law_equality_goes_both_ways(x[i], y[i]);
                }
                if same(a, b) {
                    assert forall|i: int| 0 <= i < y.len() implies same(#[trigger] y[i], x[i]) by {
                        assert(same(x[i], y[i]));
                    }
                }
                if same(b, a) {
                    assert forall|i: int| 0 <= i < x.len() implies same(#[trigger] x[i], y[i]) by {
                        assert(same(y[i], x[i]));
                    }
                }
            }
        },
        (JsonView::Obj(x), JsonView::Obj(y)) => {
            if x.dom() == y.dom() {
                assert forall|k: Seq<char>| #[trigger] x.contains_key(k) implies (same(x[k], y[k])
                    <==> same(y[k], x[k])) by {
                    law_equality_goes_both_ways(x[k], y[k]);
                }
                assert forall|k: Seq<char>| #[trigger] x.contains_key(k) == y.contains_key(k) by {
                    assert(x.dom().contains(k) == y.dom().contains(k));
                }
                if same(a, b) {
                    assert forall|k: Seq<char>| #[trigger] y.contains_key(k) implies same(
                        y[k],
                        x[k],
                    ) by {
                        assert(x.contains_key(k));
                    }
                }
                if same(b, a) {
                    assert forall|k: Seq<char>| #[trigger] x.contains_key(k) implies same(
                        x[k],
                        y[k],
                    ) by {
                        assert(y.contains_key(k));
                    }
                }
            }
        },
        _ => {},
    }
}

/// Values that hold integers only are equal exactly where they are one value. Two
/// other numbers are equal where their texts are one or both are zero, and an
/// integer equals no such number.
pub proof fn law_equality_tells_values_apart(a: JsonView, b: JsonView)
    ensures
        no_float(a) ==> (same(a, b) <==> a == b),
        a matches JsonView::Float(x) ==> (same(a, b) <==> (b matches JsonView::Float(y) && (x == y
            || (x == "0.0"@ || x == "-0.0"@) && (y == "0.0"@ || y == "-0.0"@)))),
    decreases a,
{
    law_equal_to_itself(a);
    match (a, b) {
        (JsonView::Arr(x), JsonView::Arr(y)) => {
            if no_float(a) && same(a, b) {
                assert forall|i: int| 0 <= i < x.len() implies #[trigger] x[i] == y[i] by {
                    law_equality_tells_values_apart(x[i], y[i]);
                }
                assert(x =~= y);
            }
        },
        (JsonView::Obj(x), JsonView::Obj(y)) => {
            if no_float(a) && same(a, b) {
                assert forall|k: Seq<char>| #[trigger] x.contains_key(k) implies x[k] == y[k] by {
                    law_equality_tells_values_apart(x[k], y[k]);
                }
                assert(x =~= y);
            }
        },
        _ => {},
    }
}

/// Lists are equal item by item, and objects member by member.
pub proof fn law_equality_goes_by_parts(
    x: Seq<JsonView>,
    y: Seq<JsonView>,
    m: Map<Seq<char>, JsonView>,
    n: Map<Seq<char>, JsonView>,
)
    ensures
        same(JsonView::Arr(x), JsonView::Arr(y)) <==> x.len() == y.len() && forall|i: int|
            0 <= i < x.len() ==> same(#[trigger] x[i], y[i]),
        same(JsonView::Obj(m), JsonView::Obj(n)) <==> m.dom() == n.dom() && forall|k: Seq<char>|
            #[trigger] m.contains_key(k) ==> same(m[k], n[k]),
{
}

/// An optional text and an optional value are seen exactly where they are there, and
/// what is left of a list from an index on is all that stands there.
pub proof fn law_optional_values_are_seen(s: String, j: Json, list: Seq<JsonView>, at: int, i: int)
    requires
        0 <= at <= i < list.len(),
    ensures
        opt_text(Some(s)) == Some(s@),
        opt_text(None) is None,
        opt_json(Some(j)) == Some(j@),
        opt_json(None) is None,
        rest_from(list, at).len() == list.len() - at,
        rest_from(list, at)[i - at] == list[i],
{
}

/// A number that is no integer is seen by its text.
pub proof fn law_other_numbers_are_seen(d: Decimal)
    ensures
        Json::Float(d)@ == JsonView::Float(d@),
{
}

}
