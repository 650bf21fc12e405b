//! Records and their identities.

use vstd::prelude::*;
use vstd::string::*;

verus! {

/// The identifier under which a record is tracked. Two identifiers are the
/// same when their texts are the same, character for character.
#[derive(Debug, PartialEq, Eq)]
pub struct RecordId {
    text: String,
}

impl View for RecordId {
    type V = Seq<char>;

    closed spec fn view(&self) -> Seq<char> {
        self.text@
    }
}

impl DeepView for RecordId {
    type V = Seq<char>;

    open spec fn deep_view(&self) -> Seq<char> {
        self@
    }
}

impl RecordId {
    /// The identifier with the given text.
    pub fn new(text: String) -> (id: RecordId)
        ensures
            id@ == text@,
    {
        RecordId { text }
    }

    /// The identifier's text.
    pub fn as_str(&self) -> (text: &str)
        ensures
            text@ == self@,
    {
        self.text.as_str()
    }

    /// Whether the identifier is the empty text, which identifies nothing.
    pub fn is_blank(&self) -> (blank: bool)
        ensures
            blank == (self@.len() == 0),
    {
        self.text.as_str().is_empty()
    }

    /// Whether `self` and `other` are the same identifier.
    pub fn same(&self, other: &RecordId) -> (same: bool)
        ensures
            same == (self@ == other@),
    {
        self.text == other.text
    }
}

impl Clone for RecordId {
    fn clone(&self) -> (copy: RecordId)
        ensures
            copy == *self,
    {
        RecordId { text: self.text.clone() }
    }
}

/// What a record is, as plain text: the model that contracts speak of.
pub struct RecordView {
    pub id: Seq<char>,
    pub name: Seq<char>,
    pub category: Seq<char>,
    pub age: Seq<char>,
    pub url: Seq<char>,
}

/// The detail link of the record `id` under the base address `base`.
pub open spec fn detail_link(base: Seq<char>, id: Seq<char>) -> Seq<char> {
    base + id + seq!['/']
}

/// The lines that `Record::to_text` writes for a record.
pub open spec fn record_text(record: RecordView) -> Seq<char> {
    record.name + seq!['\n'] + record.category + seq!['\n'] + record.age + seq!['\n']
        + record.url + seq!['\n']
}

/// One tracked entity of the listing. It does not change once it is made.
#[derive(Debug, PartialEq, Eq)]
pub struct Record {
    id: RecordId,
    name: String,
    category: String,
    age: String,
    url: String,
}

impl View for Record {
    type V = RecordView;

    closed spec fn view(&self) -> RecordView {
        RecordView {
            id: self.id@,
            name: self.name@,
            category: self.category@,
            age: self.age@,
            url: self.url@,
        }
    }
}

impl DeepView for Record {
    type V = RecordView;

    open spec fn deep_view(&self) -> RecordView {
        self@
    }
}

impl Record {
    /// A record with the given attributes, whose detail link is derived from
    /// its identifier and `detail_base`.
    pub fn new(
        id: RecordId,
        name: String,
        category: String,
        age: String,
        detail_base: &str,
    ) -> (record: Record)
        ensures
            record@ == (RecordView {
                id: id@,
                name: name@,
                category: category@,
                age: age@,
                url: detail_link(detail_base@, id@),
            }),
    {
        let mut url = detail_base.to_owned();
        url.append(id.as_str());
        url.append("/");
        proof {
            reveal_strlit("/");
            assert("/"@ =~= seq!['/']);
        }
        Record { id, name, category, age, url }
    }

    /// The record's identifier.
    pub fn id(&self) -> (id: &RecordId)
        ensures
            id@ == self@.id,
    {
        &self.id
    }

    /// The record's display name.
    pub fn name(&self) -> (name: &str)
        ensures
            name@ == self@.name,
    {
        self.name.as_str()
    }

    /// The record's category label.
    pub fn category(&self) -> (category: &str)
        ensures
            category@ == self@.category,
    {
        self.category.as_str()
    }

    /// The record's age descriptor.
    pub fn age(&self) -> (age: &str)
        ensures
            age@ == self@.age,
    {
        self.age.as_str()
    }

    /// The record's detail link.
    pub fn url(&self) -> (url: &str)
        ensures
            url@ == self@.url,
    {
        self.url.as_str()
    }

    /// The record as four lines of text: name, category, age and detail
    /// link, each followed by a line break.
    pub fn to_text(&self) -> (text: String)
        ensures
            text@ == record_text(self@),
    {
        let mut text = self.name.clone();
        text.append("\n");
        text.append(self.category.as_str());
        text.append("\n");
        text.append(self.age.as_str());
        text.append("\n");
        text.append(self.url.as_str());
        text.append("\n");
        proof {
            reveal_strlit("\n");
            assert("\n"@ =~= seq!['\n']);
        }
        text
    }
}

impl Clone for Record {
    fn clone(&self) -> (copy: Record)
        ensures
            copy == *self,
    {
        Record {
            id: self.id.clone(),
            name: self.name.clone(),
            category: self.category.clone(),
            age: self.age.clone(),
            url: self.url.clone(),
        }
    }
}

} // verus!
