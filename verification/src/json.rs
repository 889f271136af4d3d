//! Reading JSON text far enough for what the crate decides on: whether a text
//! is JSON at all, and the strings and flags an object holds directly.

use serde_json::Value;
use vstd::prelude::*;
use crate::text;

verus! {

/// The value of a member of a JSON object.
#[derive(Clone, Debug)]
pub enum Member {
    /// `null`.
    Null,
    /// `true` or `false`.
    Flag(bool),
    /// A number.
    Number,
    /// A string.
    Text(String),
    /// An array.
    Array,
    /// An object.
    Object,
}

/// A JSON document.
#[derive(Clone, Debug)]
pub enum Document {
    /// `null`.
    Null,
    /// `true` or `false`.
    Flag,
    /// A number.
    Number,
    /// A string.
    Text,
    /// An array.
    Array,
    /// An object, with its members.
    Object(Vec<(String, Member)>),
}

/// The value of a member, as text.
pub enum MemberView {
    /// `null`.
    Null,
    /// `true` or `false`.
    Flag(bool),
    /// A number.
    Number,
    /// A string.
    Text(Seq<char>),
    /// An array.
    Array,
    /// An object.
    Object,
}

/// A document, as text.
pub enum DocumentView {
    /// `null`.
    Null,
    /// `true` or `false`.
    Flag,
    /// A number.
    Number,
    /// A string.
    Text,
    /// An array.
    Array,
    /// An object, with its members.
    Object(Seq<(Seq<char>, MemberView)>),
}

impl View for Member {
    type V = MemberView;

    open spec fn view(&self) -> MemberView {
        match self {
            Member::Null => MemberView::Null,
            Member::Flag(flag) => MemberView::Flag(*flag),
            Member::Number => MemberView::Number,
            Member::Text(text) => MemberView::Text(text@),
            Member::Array => MemberView::Array,
            Member::Object => MemberView::Object,
        }
    }
}

/// The views of a list of members.
pub open spec fn member_views(members: Seq<(String, Member)>) -> Seq<(Seq<char>, MemberView)> {
    members.map_values(|member: (String, Member)| (member.0@, member.1@))
}

impl View for Document {
    type V = DocumentView;

    open spec fn view(&self) -> DocumentView {
        match self {
            Document::Null => DocumentView::Null,
            Document::Flag => DocumentView::Flag,
            Document::Number => DocumentView::Number,
            Document::Text => DocumentView::Text,
            Document::Array => DocumentView::Array,
            Document::Object(members) => DocumentView::Object(member_views(members@)),
        }
    }
}

/// What `serde_json` makes of a text: the document, or why it is not JSON.
pub uninterp spec fn reading(text: Seq<u8>) -> Result<DocumentView, Seq<char>>;

/// `serde_json::from_slice` into `serde_json::Value`: the document the bytes
/// hold, down to the members of an object with their strings and flags, or the
/// text of the parse error.
///
/// The JSON grammar is not restated; the result is named [`reading`] and
/// depends on the bytes alone.
#[verifier::external_body]
pub(crate) fn parse(text: &[u8]) -> (document: Result<Document, String>)
    ensures
        match document {
            Ok(read) => reading(text@) == Ok::<DocumentView, Seq<char>>(read@),
            Err(problem) => reading(text@) == Err::<DocumentView, Seq<char>>(problem@),
        },
{
    let value: Value = serde_json::from_slice(text).map_err(|problem| problem.to_string())?;
    Ok(match value {
        Value::Null => Document::Null,
        Value::Bool(_) => Document::Flag,
        Value::Number(_) => Document::Number,
        Value::String(_) => Document::Text,
        Value::Array(_) => Document::Array,
        Value::Object(members) => Document::Object(members.into_iter().map(|(name, value)| (name, match value {
            Value::Null => Member::Null, Value::Bool(flag) => Member::Flag(flag),
            Value::Number(_) => Member::Number, Value::String(text) => Member::Text(text),
            Value::Array(_) => Member::Array, Value::Object(_) => Member::Object,
        })).collect()),
    })
}

/// The first member called `name`, if the object has one.
pub open spec fn find(members: Seq<(Seq<char>, MemberView)>, name: Seq<char>) -> Option<MemberView>
    decreases members.len(),
{
    if members.len() == 0 {
        None
    } else if members[0].0 == name {
        Some(members[0].1)
    } else {
        find(members.drop_first(), name)
    }
}

/// A member is found just when it is the first one of its name.
pub proof fn the_first_member_is_found(
    members: Seq<(Seq<char>, MemberView)>,
    name: Seq<char>,
    value: MemberView,
)
    ensures
        find(members, name) == Some(value) <==> exists|i: int|
            0 <= i < members.len() && #[trigger] members[i] == (name, value) && forall|j: int|
                0 <= j < i ==> (#[trigger] members[j]).0 != name,
        find(members, name) is None <==> forall|i: int|
            0 <= i < members.len() ==> (#[trigger] members[i]).0 != name,
    decreases members.len(),
{
    if members.len() > 0 {
        let rest = members.drop_first();
        the_first_member_is_found(rest, name, value);
        assert(forall|i: int| 0 <= i < rest.len() ==> #[trigger] rest[i] == members[i + 1]);
        assert(forall|i: int| 0 < i < members.len() ==> #[trigger] members[i] == rest[i - 1]);
        if members[0].0 == name {
            if members[0].1 == value {
                assert(members[0] == (name, value));
            }
        } else {
            if find(members, name) == Some(value) {
                let i = choose|i: int|
                    0 <= i < rest.len() && #[trigger] rest[i] == (name, value) && forall|j: int|
                        0 <= j < i ==> (#[trigger] rest[j]).0 != name;
                assert(members[i + 1] == (name, value));
                assert forall|j: int| 0 <= j < i + 1 implies (#[trigger] members[j]).0 != name by {
                    if j > 0 {
                        assert(rest[j - 1].0 != name);
                    }
                }
            }
            if exists|i: int|
                0 <= i < members.len() && #[trigger] members[i] == (name, value) && forall|j: int|
                    0 <= j < i ==> (#[trigger] members[j]).0 != name {
                let i = choose|i: int|
                    0 <= i < members.len() && #[trigger] members[i] == (name, value) && forall|
                        j: int,
                    | 0 <= j < i ==> (#[trigger] members[j]).0 != name;
                assert(rest[i - 1] == (name, value));
                assert forall|j: int| 0 <= j < i - 1 implies (#[trigger] rest[j]).0 != name by {
                    assert(members[j + 1].0 != name);
                }
            }
        }
    }
}

/// The string member of a document called `name`, if it has one.
pub open spec fn string_member(document: DocumentView, name: Seq<char>) -> Option<Seq<char>> {
    match document {
        DocumentView::Object(members) => match find(members, name) {
            Some(MemberView::Text(text)) => Some(text),
            _ => None,
        },
        _ => None,
    }
}

/// The string member of `document` called `name`, if it has one.
pub fn string_of_member(document: &Document, name: &str) -> (text: Option<String>)
    ensures
        match text {
            Some(found) => string_member(document@, name@) == Some(found@),
            None => string_member(document@, name@) is None,
        },
{
    match document {
        Document::Object(members) => {
            let mut i: usize = 0;
            let ghost all = member_views(members@);
            assert(all.skip(0) =~= all);
            while i < members.len()
                invariant
                    document@ == DocumentView::Object(all),
                    all == member_views(members@),
                    0 <= i <= members@.len(),
                    find(all, name@) == find(all.skip(i as int), name@),
                decreases members@.len() - i,
            {
                assert(all.skip(i as int)[0] == (members@[i as int].0@, members@[i as int].1@));
                assert(all.skip(i as int).drop_first() =~= all.skip(i + 1));
                if text::same(members[i].0.as_str(), name) {
                    return match &members[i].1 {
                        Member::Text(text) => Some(text.clone()),
                        _ => None,
                    };
                }
                i = i + 1;
            }
            None
        },
        _ => None,
    }
}

/// A text is found under a name just when the document is an object and the
/// first of its members with that name is that text.
pub proof fn texts_are_found_by_name(document: DocumentView, name: Seq<char>, at: int)
    ensures
        document !is Object ==> string_member(document, name) is None,
        document matches DocumentView::Object(members) ==> {
            &&& 0 <= at < members.len() && members[at].0 == name && (forall|i: int|
                0 <= i < at ==> (#[trigger] members[i]).0 != name) ==> string_member(document, name)
                == match members[at].1 {
                MemberView::Text(text) => Some(text),
                _ => None,
            }
            &&& (forall|i: int| 0 <= i < members.len() ==> (#[trigger] members[i]).0 != name)
                ==> string_member(document, name) is None
        },
{
    if let DocumentView::Object(members) = document {
        the_first_member_is_found(members, name, members[at].1);
        assert(members[at] == (members[at].0, members[at].1));
    }
}

} // verus!
