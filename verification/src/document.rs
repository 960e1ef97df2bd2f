//! Documents: JSON objects whose fields are written in a fixed order. One layout
//! yields both the tree that is looked up and the text that is sent.

use crate::json::{field, json_text, render, Json, JsonView, Member, members_view};
use vstd::prelude::*;

verus! {

/// A value, or fields in the order in which they are written.
pub enum DocView {
    Leaf(JsonView),
    Fields(Seq<(Seq<char>, DocView)>),
}

pub struct Field {
    pub key: String,
    pub doc: Doc,
}

pub enum Doc {
    Leaf(Json),
    Fields(Vec<Field>),
}

impl View for Doc {
    type V = DocView;

    open spec fn view(&self) -> DocView {
        doc_view(*self)
    }
}

pub open spec fn doc_view(d: Doc) -> DocView
    decreases d,
{
    match d {
        Doc::Leaf(v) => DocView::Leaf(v@),
        Doc::Fields(fields) => DocView::Fields(fields_view(fields@)),
    }
}

pub open spec fn fields_view(fields: Seq<Field>) -> Seq<(Seq<char>, DocView)>
    decreases fields,
{
    Seq::new(
        fields.len(),
        |i: int|
            if 0 <= i < fields.len() {
                (fields[i].key@, doc_view(fields[i].doc))
            } else {
                (seq![], DocView::Leaf(JsonView::Null))
            },
    )
}

/// The tree of a document. Where two fields share a key, the first counts.
pub open spec fn doc_json(d: DocView) -> JsonView
    decreases d,
{
    match d {
        DocView::Leaf(v) => v,
        DocView::Fields(fields) => JsonView::Obj(fields_json(fields)),
    }
}

pub open spec fn fields_json(fields: Seq<(Seq<char>, DocView)>) -> Map<Seq<char>, JsonView>
    decreases fields,
{
    if fields.len() == 0 {
        Map::empty()
    } else {
        fields_json(fields.drop_first()).insert(fields[0].0, doc_json(fields[0].1))
    }
}

/// The first field with its key is the one that the tree has under it.
pub proof fn lemma_field_at(fields: Seq<(Seq<char>, DocView)>, i: int)
    requires
        0 <= i < fields.len(),
        forall|k: int| 0 <= k < i ==> (#[trigger] fields[k]).0 != fields[i].0,
    ensures
        fields_json(fields).contains_key(fields[i].0),
        fields_json(fields)[fields[i].0] == doc_json(fields[i].1),
    decreases i,
{
    if i > 0 {
        let rest = fields.drop_first();
        assert forall|k: int| 0 <= k < i - 1 implies (#[trigger] rest[k]).0 != rest[i - 1].0 by {
            assert(rest[k] == fields[k + 1]);
        }
        lemma_field_at(rest, i - 1);
        assert(fields[0].0 != fields[i].0);
    }
}

/// A key that no field has is no key of the tree.
pub proof fn lemma_no_field(fields: Seq<(Seq<char>, DocView)>, key: Seq<char>)
    requires
        forall|k: int| 0 <= k < fields.len() ==> (#[trigger] fields[k]).0 != key,
    ensures
        !fields_json(fields).contains_key(key),
    decreases fields.len(),
{
    if fields.len() > 0 {
        let rest = fields.drop_first();
        assert forall|k: int| 0 <= k < rest.len() implies (#[trigger] rest[k]).0 != key by {
            assert(rest[k] == fields[k + 1]);
        }
        lemma_no_field(rest, key);
        assert(fields[0].0 != key);
    }
}

/// The text of a document: a value as `serde_json` writes it, fields between
/// braces in their order.
pub open spec fn doc_text(d: DocView) -> Seq<char>
    decreases d,
{
    match d {
        DocView::Leaf(v) => json_text(v),
        DocView::Fields(fields) => seq!['{'] + fields_text(fields) + seq!['}'],
    }
}

/// Each field as `"key":value`, separated by commas.
pub open spec fn fields_text(fields: Seq<(Seq<char>, DocView)>) -> Seq<char>
    decreases fields,
{
    if fields.len() == 0 {
        seq![]
    } else if fields.len() == 1 {
        field_text(fields[0].0, doc_text(fields[0].1))
    } else {
        fields_text(fields.drop_last()) + seq![','] + field_text(
            fields.last().0,
            doc_text(fields.last().1),
        )
    }
}

pub open spec fn field_text(key: Seq<char>, value: Seq<char>) -> Seq<char> {
    json_text(JsonView::Str(key)) + seq![':'] + value
}

/// No control character.
pub open spec fn printable(s: Seq<char>) -> bool {
    forall|i: int| 0 <= i < s.len() ==> s[i] >= ' '
}

impl Doc {
    /// The tree of the document.
    pub fn to_json(&self) -> (json: Json)
        ensures
            json@ == doc_json(self@),
        decreases self,
    {
        match self {
            Doc::Leaf(v) => v.clone(),
            Doc::Fields(fields) => Json::Obj(members_of(fields)),
        }
    }

    /// The text of the document, on one line.
    pub fn to_text(&self) -> (text: String)
        ensures
            text@ == doc_text(self@),
            printable(text@),
        decreases self,
    {
        match self {
            Doc::Leaf(v) => render(v),
            Doc::Fields(fields) => {
                let inner: String = text_of_fields(fields);
                let mut text: String = String::new();
                text.push('{');
                text.append(inner.as_str());
                text.push('}');
                assert(text@ == seq!['{'] + inner@ + seq!['}']);
                text
            },
        }
    }
}

proof fn lemma_members_are_fields(members: Seq<Member>, fields: Seq<Field>)
    requires
        members.len() == fields.len(),
        forall|k: int|
            #![trigger members[k]]
            0 <= k < members.len() ==> members[k].key@ == fields[k].key@ && members[k].value@
                == doc_json(fields[k].doc@),
    ensures
        members_view(members) == fields_json(fields_view(fields)),
    decreases members.len(),
{
    let pairs = fields_view(fields);
    if members.len() > 0 {
        let rm = members.drop_first();
        let rf = fields.drop_first();
        assert forall|k: int| #![trigger rm[k]] 0 <= k < rm.len() implies rm[k].key@ == rf[k].key@
            && rm[k].value@ == doc_json(rf[k].doc@) by {
            assert(rm[k] == members[k + 1] && rf[k] == fields[k + 1]);
        }
        lemma_members_are_fields(rm, rf);
        assert(fields_view(rf) =~= pairs.drop_first());
        assert(members[0].key@ == pairs[0].0);
    }
}

fn members_of(fields: &Vec<Field>) -> (members: Vec<Member>)
    ensures
        members_view(members@) == fields_json(fields_view(fields@)),
    decreases fields,
{
    let mut members: Vec<Member> = Vec::new();
    let mut i: usize = 0;
    while i < fields.len()
        invariant
            i <= fields@.len(),
            members@.len() == i,
            forall|k: int|
                #![trigger members@[k]]
                0 <= k < i ==> members@[k].key@ == fields@[k].key@ && members@[k].value@
                    == doc_json(fields@[k].doc@),
        decreases fields@.len() - i,
    {
        let field: &Field = &fields[i];
        members.push(Member { key: field.key.clone(), value: field.doc.to_json() });
        i = i + 1;
    }
    proof {
        lemma_members_are_fields(members@, fields@);
    }
    members
}

fn text_of_fields(fields: &Vec<Field>) -> (text: String)
    ensures
        text@ == fields_text(fields_view(fields@)),
        printable(text@),
    decreases fields,
{
    let ghost pairs = fields_view(fields@);
    let mut text: String = String::new();
    let mut i: usize = 0;
    while i < fields.len()
        invariant
            i <= fields@.len(),
            pairs == fields_view(fields@),
            text@ == fields_text(pairs.take(i as int)),
            printable(text@),
        decreases fields@.len() - i,
    {
        let field: &Field = &fields[i];
        let ghost done = text@;
        if i > 0 {
            text.push(',');
        }
        let key: String = render(&Json::Str(field.key.clone()));
        let value: String = field.doc.to_text();
        text.append(key.as_str());
        text.push(':');
        text.append(value.as_str());
        proof {
            let next = pairs.take(i + 1);
            assert(next.drop_last() == pairs.take(i as int));
            assert(next.last() == pairs[i as int]);
            let one = field_text(pairs[i as int].0, doc_text(pairs[i as int].1));
            assert(one == key@ + seq![':'] + value@);
            if i == 0 {
                assert(text@ == one);
            } else {
                assert(text@ == done + seq![','] + one);
            }
        }
        i = i + 1;
    }
    assert(pairs.take(i as int) == pairs);
    text
}

/// Fields that stand behind others count where the others lack their keys.
pub proof fn lemma_fields_add(
    a: Seq<(Seq<char>, DocView)>,
    b: Seq<(Seq<char>, DocView)>,
    key: Seq<char>,
)
    ensures
        field(JsonView::Obj(fields_json(a + b)), key) == (match field(
            JsonView::Obj(fields_json(a)),
            key,
        ) {
            Some(v) => Some(v),
            None => field(JsonView::Obj(fields_json(b)), key),
        }),
    decreases a.len(),
{
    if a.len() == 0 {
        assert(a + b =~= b);
    } else {
        assert((a + b).drop_first() =~= a.drop_first() + b);
        assert((a + b)[0] == a[0]);
        lemma_fields_add(a.drop_first(), b, key);
    }
}

/// A single field is found under its key and under no other.
pub proof fn lemma_one_field(key: Seq<char>, doc: DocView, other: Seq<char>)
    ensures
        field(JsonView::Obj(fields_json(seq![(key, doc)])), other) == (if other == key {
            Some(doc_json(doc))
        } else {
            None
        }),
        field(JsonView::Obj(fields_json(seq![])), other) is None,
{
    let one = seq![(key, doc)];
    reveal_with_fuel(fields_json, 2);
    assert(one.drop_first() =~= Seq::<(Seq<char>, DocView)>::empty());
}

/// Members in their order, each as a key and the text of its value, separated by
/// commas.
pub open spec fn joined(members: Seq<(Seq<char>, Seq<char>)>) -> Seq<char>
    decreases members.len(),
{
    if members.len() == 0 {
        seq![]
    } else {
        let last = json_text(JsonView::Str(members.last().0)) + seq![':'] + members.last().1;
        if members.len() == 1 {
            last
        } else {
            joined(members.drop_last()) + seq![','] + last
        }
    }
}

/// An object with these members, in their order.
pub open spec fn braced(members: Seq<(Seq<char>, Seq<char>)>) -> Seq<char> {
    seq!['{'] + joined(members) + seq!['}']
}

/// A document is written as what it is: a value as its JSON text, and fields
/// between braces, every one of them, once and in their order.
pub proof fn law_document_text_holds_every_field(
    fields: Seq<(Seq<char>, DocView)>,
    members: Seq<(Seq<char>, Seq<char>)>,
    v: JsonView,
)
    requires
        members.len() == fields.len(),
        forall|i: int|
            0 <= i < fields.len() ==> (#[trigger] members[i]).0 == fields[i].0 && members[i].1
                == doc_text(fields[i].1),
    ensures
        doc_text(DocView::Fields(fields)) == braced(members),
        doc_text(DocView::Leaf(v)) == json_text(v),
{
    lemma_fields_are_joined(fields, members);
}

proof fn lemma_fields_are_joined(
    fields: Seq<(Seq<char>, DocView)>,
    members: Seq<(Seq<char>, Seq<char>)>,
)
    requires
        members.len() == fields.len(),
        forall|i: int|
            0 <= i < fields.len() ==> (#[trigger] members[i]).0 == fields[i].0 && members[i].1
                == doc_text(fields[i].1),
    ensures
        fields_text(fields) == joined(members),
    decreases fields.len(),
{
    if fields.len() > 0 {
        let n = fields.len() - 1;
        assert(members[n].0 == fields[n].0);
        if fields.len() > 1 {
            let rest = members.drop_last();
            assert forall|i: int| 0 <= i < rest.len() implies (#[trigger] rest[i]).0
                == fields.drop_last()[i].0 && rest[i].1 == doc_text(fields.drop_last()[i].1) by {
                assert(rest[i] == members[i]);
            }
            lemma_fields_are_joined(fields.drop_last(), rest);
        }
    }
}

/// The tree and the layout of a document have every field in its place.
pub proof fn law_every_field_is_seen(fields: Vec<Field>, i: int)
    requires
        0 <= i < fields@.len(),
    ensures
        Doc::Fields(fields)@ matches DocView::Fields(list) && list.len() == fields@.len()
            && list[i].0 == fields@[i].key@ && list[i].1 == fields@[i].doc@,
{
}

}
