//! JSON objects, as far as the gateway protocol reads and writes them.

use vstd::prelude::*;
use vstd::string::to_string_from_display_ensures;

use crate::listing::lists;
use crate::text::same_text;

verus! {

/// The members of a JSON object: under each name the text that stands there,
/// or `None` where something else than a string does.
pub type Members = Map<Seq<char>, Option<Seq<char>>>;

/// No members.
pub open spec fn no_members() -> Members {
    Map::empty()
}

/// The text under `name`, if a string stands there.
pub open spec fn member_text(members: Members, name: Seq<char>) -> Option<Seq<char>> {
    if members.contains_key(name) {
        members[name]
    } else {
        None
    }
}

/// What `serde_json::from_str` makes of `text`: the members where it is an
/// object, no members where it is another value, and what the error says where
/// it is not JSON.
pub uninterp spec fn json_members(text: Seq<char>) -> Result<
    Map<Seq<char>, Option<Seq<char>>>,
    Seq<char>,
>;

/// `serde_json::Error`: why a text is not JSON.
#[verifier::external_type_specification]
#[verifier::external_body]
pub struct ExJsonError(serde_json::Error);

/// `outcome` is a failure, and `error` says why.
pub open spec fn explains(error: serde_json::Error, outcome: Result<Members, Seq<char>>) -> bool {
    &&& outcome is Err
    &&& forall|reason: String| #[trigger]
        to_string_from_display_ensures(&error, reason) ==> outcome->Err_0 == reason@
}

/// `serde_json::from_str`: parses a JSON value. Of an object each member is
/// listed once, with its text where it is a string. What the error says of a text
/// that is not JSON depends on the text alone.
#[verifier::external_body]
fn parse(text: &str) -> (res: Result<Option<Vec<(String, Option<String>)>>, serde_json::Error>)
    ensures
        match res {
            Err(error) => explains(error, json_members(text@)),
            Ok(None) => json_members(text@) is Ok && json_members(text@)->Ok_0 == no_members(),
            Ok(Some(members)) => json_members(text@) is Ok && lists(
                members.deep_view(),
                json_members(text@)->Ok_0,
            ),
        },
{
    let value: serde_json::Value = serde_json::from_str(text)?;
    Ok(value.as_object().map(|object| object.iter().map(
        |(name, member)| (name.clone(), member.as_str().map(String::from))
    ).collect()))
}

/// A JSON value, of which only the string members of an object are kept.
pub struct JsonMembers {
    members: Vec<(String, Option<String>)>,
}

impl JsonMembers {
    /// The value has these members.
    pub closed spec fn holds(&self, members: Members) -> bool {
        lists(self.members.deep_view(), members)
    }

    /// Reads a JSON text, or says why it is not one.
    pub fn read(text: &str) -> (res: Result<JsonMembers, String>)
        ensures
            match res {
                Ok(value) => json_members(text@) is Ok && value.holds(json_members(text@)->Ok_0),
                Err(reason) => json_members(text@) is Err && json_members(text@)->Err_0 == reason@,
            },
    {
        match parse(text) {
            Ok(Some(members)) => Ok(JsonMembers { members }),
            Ok(None) => {
                let members: Vec<(String, Option<String>)> = Vec::new();
                assert(lists(members.deep_view(), no_members()));
                Ok(JsonMembers { members })
            },
            Err(error) => Err(error.to_string()),
        }
    }

    /// The text of the member `name`, if it is there and is a string.
    pub fn text(&self, name: &str) -> (res: Option<String>)
        ensures
            forall|members: Members| #[trigger]
                self.holds(members) ==> res.deep_view() == member_text(members, name@),
    {
        let ghost entries = self.members.deep_view();
        let mut i: usize = 0;
        while i < self.members.len()
            invariant
                i <= self.members.len(),
                entries == self.members.deep_view(),
                forall|j: int| 0 <= j < i ==> (#[trigger] entries[j]).0 != name@,
            decreases self.members.len() - i,
        {
            assert(entries[i as int] == self.members[i as int].deep_view());
            if same_text(self.members[i].0.as_str(), name) {
                let res = self.members[i].1.clone();
                return res;
            }
            i = i + 1;
        }
        None
    }
}

/// The text that `serde_json` gives an object with the string members `texts`,
/// the number members `numbers` and the empty objects `objects`.
pub uninterp spec fn object_text(
    texts: Seq<(Seq<char>, Seq<char>)>,
    numbers: Seq<(Seq<char>, u64)>,
    objects: Seq<Seq<char>>,
) -> Seq<char>;

/// The members of an object with the string members `texts`, the number members
/// `numbers` and the empty objects `objects`, as they are read back.
pub open spec fn members_of(
    texts: Seq<(Seq<char>, Seq<char>)>,
    numbers: Seq<(Seq<char>, u64)>,
    objects: Seq<Seq<char>>,
) -> Seq<(Seq<char>, Option<Seq<char>>)> {
    texts.map_values(|member: (Seq<char>, Seq<char>)| (member.0, Some(member.1)))
        + numbers.map_values(|member: (Seq<char>, u64)| (member.0, None::<Seq<char>>))
        + objects.map_values(|name: Seq<char>| (name, None::<Seq<char>>))
}

/// No two members have one name.
pub open spec fn distinct(entries: Seq<(Seq<char>, Option<Seq<char>>)>) -> bool {
    forall|i: int, j: int|
        0 <= i < j < entries.len() ==> (#[trigger] entries[i]).0 != (#[trigger] entries[j]).0
}

/// `serde_json::Value::to_string`: the text of an object with these members. It
/// depends on nothing else, and `serde_json::from_str` reads the members back
/// from it if no two have one name.
#[verifier::external_body]
pub(crate) fn write_object(
    texts: &Vec<(String, String)>,
    numbers: &Vec<(String, u64)>,
    objects: &Vec<String>,
) -> (res: String)
    ensures
        res@ == object_text(texts.deep_view(), numbers.deep_view(), objects.deep_view()),
        distinct(members_of(texts.deep_view(), numbers.deep_view(), objects.deep_view())) ==> (
        json_members(res@) is Ok && lists(
            members_of(texts.deep_view(), numbers.deep_view(), objects.deep_view()),
            json_members(res@)->Ok_0,
        )),
{
    let mut object = serde_json::Map::new();
    object.extend(texts.iter().map(|(name, text)| (name.clone(), text.clone().into())));
    object.extend(numbers.iter().map(|(name, number)| (name.clone(), (*number).into())));
    object.extend(objects.iter().map(|name| (name.clone(), serde_json::Map::new().into())));
    serde_json::Value::Object(object).to_string()
}

/// A member is found under its name, if a text stands there.
pub proof fn law_member_is_found(members: Members, name: Seq<char>, text: Seq<char>)
    ensures
        member_text(members, name) == Some(text) <==> members.contains_pair(name, Some(text)),
{
}

} // verus!
