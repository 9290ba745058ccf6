//! Display names of the players of a session, by summoner identifier.

use vstd::prelude::*;
use crate::decimal::{decimal, lemma_decimal_injective, signed_decimal};
use crate::error::LookupError;
use crate::json::{
    json_text, lemma_lookup_at, lemma_object_view, lookup, parse_json, parsed_json, render_json,
    Json, JsonValue,
};

verus! {

/// Whether no summoner identifier occurs twice among the entries.
pub open spec fn distinct_ids(entries: Seq<(i64, Seq<char>)>) -> bool {
    forall|i: int, j: int|
        0 <= i < j < entries.len() ==> (#[trigger] entries[i]).0 != (#[trigger] entries[j]).0
}

/// Whether the entries are those of a name map: the first one gives the name
/// `Bot` to the identifier zero, and no identifier occurs twice.
pub open spec fn is_name_map(entries: Seq<(i64, Seq<char>)>) -> bool {
    &&& entries.len() >= 1
    &&& entries[0] == (0i64, "Bot"@)
    &&& distinct_ids(entries)
}

/// The place of an identifier among the entries, where it has one.
pub open spec fn position(entries: Seq<(i64, Seq<char>)>, summoner_id: i64) -> Option<int> {
    if exists|i: int| 0 <= i < entries.len() && (#[trigger] entries[i]).0 == summoner_id {
        Some(choose|i: int| 0 <= i < entries.len() && (#[trigger] entries[i]).0 == summoner_id)
    } else {
        None
    }
}

/// The name that the entries give to an identifier.
pub open spec fn name_of(entries: Seq<(i64, Seq<char>)>, summoner_id: i64) -> Option<Seq<char>> {
    match position(entries, summoner_id) {
        Some(i) => Some(entries[i].1),
        None => None,
    }
}

/// The entries after a name has been recorded. The identifier zero keeps the
/// name it has; for any other identifier the name replaces an earlier one, or
/// is added at the end.
pub open spec fn inserted(
    entries: Seq<(i64, Seq<char>)>,
    summoner_id: i64,
    name: Seq<char>,
) -> Seq<(i64, Seq<char>)> {
    if summoner_id == 0 {
        entries
    } else {
        match position(entries, summoner_id) {
            Some(i) => entries.update(i, (summoner_id, name)),
            None => entries.push((summoner_id, name)),
        }
    }
}

/// The JSON object that a name map is written as: one field for each entry,
/// the identifier in decimal as its key and the name as its value.
pub open spec fn names_json(entries: Seq<(i64, Seq<char>)>) -> JsonValue {
    JsonValue::Object(
        Seq::new(
            entries.len(),
            |i: int| (decimal(entries[i].0 as int), JsonValue::Text(entries[i].1)),
        ),
    )
}

/// Recording a name leaves a name map a name map: the identifier zero still
/// has the name `Bot`.
pub proof fn law_insert_keeps_bot(entries: Seq<(i64, Seq<char>)>, summoner_id: i64, name: Seq<char>)
    requires
        is_name_map(entries),
    ensures
        is_name_map(inserted(entries, summoner_id, name)),
        name_of(inserted(entries, summoner_id, name), 0) == Some("Bot"@),
{
    let after = inserted(entries, summoner_id, name);
    assert(after[0] == (0i64, "Bot"@));
    lemma_position(after, 0);
}

/// In a name map, an identifier is found at the place where it stands.
pub proof fn lemma_position(entries: Seq<(i64, Seq<char>)>, i: int)
    requires
        distinct_ids(entries),
        0 <= i < entries.len(),
    ensures
        position(entries, entries[i].0) == Some(i),
        name_of(entries, entries[i].0) == Some(entries[i].1),
{
    let found = choose|k: int| 0 <= k < entries.len() && (#[trigger] entries[k]).0 == entries[i].0;
    assert(found == i);
}

/// The last name recorded for an identifier is the one it has, and recording
/// it changes the name of no other identifier.
pub proof fn law_insert_last_write_wins(
    entries: Seq<(i64, Seq<char>)>,
    summoner_id: i64,
    name: Seq<char>,
    other: i64,
)
    requires
        is_name_map(entries),
        summoner_id != 0,
        other != summoner_id,
    ensures
        name_of(inserted(entries, summoner_id, name), summoner_id) == Some(name),
        name_of(inserted(entries, summoner_id, name), other) == name_of(entries, other),
{
    let after = inserted(entries, summoner_id, name);
    law_insert_keeps_bot(entries, summoner_id, name);
    let at = match position(entries, summoner_id) {
        Some(i) => i,
        None => entries.len() as int,
    };
    assert(after[at] == (summoner_id, name));
    lemma_position(after, at);
    match position(entries, other) {
        Some(k) => {
            assert(after[k] == entries[k]);
            lemma_position(after, k);
        },
        None => {
            if position(after, other) is Some {
                let k = position(after, other).unwrap();
                assert(entries[k].0 == other);
            }
        },
    }
}

/// A written name map gives each identifier's key its name: two identifiers
/// never share a key. The key `0` has the name `Bot`.
pub proof fn law_written_names(entries: Seq<(i64, Seq<char>)>, i: int)
    requires
        is_name_map(entries),
        0 <= i < entries.len(),
    ensures
        names_json(entries).text_field(decimal(entries[i].0 as int)) == Some(entries[i].1),
        names_json(entries).text_field("0"@) == Some("Bot"@),
{
    let fields = names_json(entries)->Object_0;
    assert forall|at: int| 0 <= at < entries.len() implies lookup(
        fields,
        decimal(entries[at].0 as int),
    ) == Some(JsonValue::Text(entries[at].1)) by {
        let key = decimal(entries[at].0 as int);
        assert forall|k: int| at < k < fields.len() implies (#[trigger] fields[k]).0 != key by {
            if fields[k].0 == key {
                lemma_decimal_injective(entries[k].0 as int, entries[at].0 as int);
                assert(entries[at].0 != entries[k].0);
            }
        }
        lemma_lookup_at(fields, key, at);
    }
    assert(lookup(fields, decimal(entries[0].0 as int)) == Some(JsonValue::Text(entries[0].1)));
    assert(decimal(0) =~= "0"@) by {
        reveal_strlit("0");
    }
}

/// The display names of a session's players, by summoner identifier, in the
/// order in which they were recorded. The identifier zero stands for a slot
/// that no human holds and always has the name `Bot`.
#[derive(Debug, PartialEq, Eq)]
pub struct NameMap {
    entries: Vec<(i64, String)>,
}

impl View for NameMap {
    type V = Seq<(i64, Seq<char>)>;

    closed spec fn view(&self) -> Seq<(i64, Seq<char>)> {
        Seq::new(self.entries@.len(), |i: int| (self.entries@[i].0, self.entries@[i].1@))
    }
}

impl NameMap {
    #[verifier::type_invariant]
    spec fn wf(self) -> bool {
        is_name_map(self@)
    }

    /// The map that holds the name of the identifier zero and no other.
    pub fn seeded() -> (r: NameMap)
        ensures
            r@ == seq![(0i64, "Bot"@)],
            is_name_map(r@),
    {
        let mut entries: Vec<(i64, String)> = Vec::new();
        entries.push((0, String::from_str("Bot")));
        let names = NameMap { entries };
        assert(names@ =~= seq![(0i64, "Bot"@)]);
        names
    }

    /// The place of an identifier among the entries.
    fn find(&self, summoner_id: i64) -> (r: Option<usize>)
        ensures
            r matches Some(i) ==> position(self@, summoner_id) == Some(i as int) && i
                < self.entries@.len(),
            r is None ==> position(self@, summoner_id) is None,
    {
        proof {
            use_type_invariant(self);
        }
        let mut i: usize = 0;
        while i < self.entries.len()
            invariant
                i <= self.entries@.len(),
                is_name_map(self@),
                self@.len() == self.entries@.len(),
                forall|k: int| 0 <= k < self@.len() ==> (#[trigger] self@[k]).0 == self.entries@[k].0,
                forall|k: int| 0 <= k < i ==> (#[trigger] self@[k]).0 != summoner_id,
            decreases self.entries@.len() - i,
        {
            if self.entries[i].0 == summoner_id {
                proof {
                    assert(self@[i as int].0 == summoner_id);
                    lemma_position(self@, i as int);
                }
                return Some(i);
            }
            i = i + 1;
        }
        None
    }

    /// Records the name of a summoner. The identifier zero keeps the name
    /// `Bot`; for any other identifier the name replaces the one recorded
    /// before, if there was one.
    pub fn insert(self, summoner_id: i64, name: String) -> (r: NameMap)
        ensures
            r@ == inserted(self@, summoner_id, name@),
            is_name_map(self@),
            is_name_map(r@),
    {
        proof {
            use_type_invariant(&self);
            law_insert_keeps_bot(self@, summoner_id, name@);
        }
        if summoner_id == 0 {
            return self;
        }
        let found = self.find(summoner_id);
        let ghost before = self@;
        let mut entries = self.entries;
        match found {
            Some(i) => {
                entries.set(i, (summoner_id, name));
            },
            None => {
                entries.push((summoner_id, name));
            },
        }
        let ghost after = Seq::new(entries@.len(), |i: int| (entries@[i].0, entries@[i].1@));
        proof {
            assert(after =~= inserted(before, summoner_id, name@));
        }
        let names = NameMap { entries };
        assert(names@ =~= after);
        names
    }

    /// The name recorded for a summoner.
    pub fn get(&self, summoner_id: i64) -> (r: Option<&String>)
        ensures
            r is Some <==> name_of(self@, summoner_id) is Some,
            r matches Some(name) ==> name_of(self@, summoner_id) == Some(name@),
    {
        match self.find(summoner_id) {
            Some(i) => Some(&self.entries[i].1),
            None => None,
        }
    }

    /// The number of entries.
    pub fn len(&self) -> (r: usize)
        ensures
            r == self@.len(),
            is_name_map(self@),
    {
        proof {
            use_type_invariant(self);
        }
        self.entries.len()
    }

    /// Writes the map as a JSON object whose keys are the identifiers in
    /// decimal.
    pub fn to_json(&self) -> (r: Json)
        ensures
            r@ == names_json(self@),
    {
        let mut fields: Vec<(String, Json)> = Vec::new();
        let mut i: usize = 0;
        while i < self.entries.len()
            invariant
                i <= self.entries@.len(),
                fields@.len() == i,
                forall|k: int|
                    0 <= k < i ==> (#[trigger] fields@[k]).0@ == decimal(
                        self.entries@[k].0 as int,
                    ) && fields@[k].1@ == JsonValue::Text(self.entries@[k].1@),
            decreases self.entries@.len() - i,
        {
            let key = signed_decimal(self.entries[i].0);
            let name = self.entries[i].1.clone();
            fields.push((key, Json::Text(name)));
            i = i + 1;
        }
        let doc = Json::Object(fields);
        proof {
            lemma_object_view(doc);
            assert(doc@->Object_0 =~= names_json(self@)->Object_0);
        }
        doc
    }

    /// The body with which the map is forwarded: its JSON object as compact
    /// text.
    pub fn body(&self) -> (r: String)
        ensures
            r@ == json_text(names_json(self@)),
    {
        let doc = self.to_json();
        render_json(&doc)
    }
}

/// The display name that the answer to a lookup carries: the field
/// `displayName` of the answer, which has to be a string.
pub open spec fn display_name_of(answer: JsonValue) -> Result<Seq<char>, LookupError> {
    match answer.text_field("displayName"@) {
        Some(name) => Ok(name),
        None => Err(LookupError::NoDisplayName),
    }
}

/// The display name that the text of an answer carries.
pub open spec fn answered_name(body: Seq<char>) -> Result<Seq<char>, LookupError> {
    match parsed_json(body) {
        Some(answer) => display_name_of(answer),
        None => Err(LookupError::NotJson),
    }
}

/// Takes the display name from the answer to a lookup.
pub fn display_name(answer: &Json) -> (r: Result<String, LookupError>)
    ensures
        r is Ok <==> display_name_of(answer@) is Ok,
        r matches Ok(name) ==> display_name_of(answer@) == Ok::<Seq<char>, LookupError>(name@),
        r matches Err(e) ==> display_name_of(answer@) == Err::<Seq<char>, LookupError>(e),
{
    match answer.text_field("displayName") {
        Some(name) => Ok(name),
        None => Err(LookupError::NoDisplayName),
    }
}

/// Reads the text of an answer to a lookup and takes the display name from
/// it.
pub fn read_answer(body: &str) -> (r: Result<String, LookupError>)
    ensures
        r is Ok <==> answered_name(body@) is Ok,
        r matches Ok(name) ==> answered_name(body@) == Ok::<Seq<char>, LookupError>(name@),
        r matches Err(e) ==> answered_name(body@) == Err::<Seq<char>, LookupError>(e),
{
    match parse_json(body) {
        Some(answer) => display_name(&answer),
        None => Err(LookupError::NotJson),
    }
}

} // verus!
