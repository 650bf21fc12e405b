//! The record extractor: from the markup of a listing page to its records.
//! The page holds one group of labelled fields for each record.

use vstd::prelude::*;
use vstd::string::*;
use vstd::utf8::encode_utf8;
use crate::record::{detail_link, Record, RecordId, RecordView};

verus! {

/// The selector of the groups of a page: one group for each record.
pub const GROUP_SELECTOR: &'static str = "div[data-ohssb-type=\"dog\"]";

/// The selector of the fields within a group.
pub const FIELD_SELECTOR: &'static str = "span";

/// The attribute that labels a field.
pub const LABEL_ATTRIBUTE: &'static str = "class";

/// The label of the field that holds a record's identifier.
pub const ID_LABEL: &'static str = "id";

/// The label of the field that holds a record's display name.
pub const NAME_LABEL: &'static str = "name";

/// The label of the field that holds a record's category.
pub const CATEGORY_LABEL: &'static str = "breed";

/// The label of the field that holds a record's age descriptor.
pub const AGE_LABEL: &'static str = "age";

/// The longest page, in bytes, that is looked into: a third of 2^30. The
/// parser holds text in buffers that it grows to powers of two and cannot
/// grow beyond 2^31 bytes, and a byte of the page can take three in them;
/// under this limit no buffer passes 2^30 bytes.
pub const PAGE_LIMIT: usize = 357_913_941;

/// Whether a page is short enough to be looked into.
pub open spec fn fits(page: Seq<char>) -> bool {
    encode_utf8(page).len() <= PAGE_LIMIT
}

/// A field of a group: its label, if it has one, and its content.
pub type Field = (Option<String>, String);

/// A field, as plain values.
pub type FieldView = (Option<Seq<char>>, Seq<char>);

/// What `scraper` finds in `page`: for each element that it selects by
/// `groups`, the descendants that it selects by `fields`, each as the value
/// of its attribute `attribute` and its inner markup, all in the order in
/// which `scraper` yields them. `None` where `scraper` takes `groups` or
/// `fields` for no selector.
pub uninterp spec fn selected_fields(
    page: Seq<char>,
    groups: Seq<char>,
    fields: Seq<char>,
    attribute: Seq<char>,
) -> Option<Seq<Seq<(Option<Seq<char>>, Seq<char>)>>>;

/// The content of the last field of `fields` that is labelled `label`, or
/// the empty text if there is none.
pub open spec fn field_value(fields: Seq<FieldView>, label: Seq<char>) -> Seq<char>
    decreases fields.len(),
{
    if fields.len() == 0 {
        Seq::empty()
    } else if fields.last().0 == Some(label) {
        fields.last().1
    } else {
        field_value(fields.drop_last(), label)
    }
}

/// The record that a group of fields describes.
pub open spec fn record_from(fields: Seq<FieldView>, detail_base: Seq<char>) -> RecordView {
    RecordView {
        id: field_value(fields, ID_LABEL@),
        name: field_value(fields, NAME_LABEL@),
        category: field_value(fields, CATEGORY_LABEL@),
        age: field_value(fields, AGE_LABEL@),
        url: detail_link(detail_base, field_value(fields, ID_LABEL@)),
    }
}

/// The records that the groups describe, one for each group, in order.
pub open spec fn records_from(groups: Seq<Seq<FieldView>>, detail_base: Seq<char>) -> Seq<
    RecordView,
> {
    Seq::new(groups.len(), |i: int| record_from(groups[i], detail_base))
}

/// The records of a page in which `found` was found: none where nothing
/// could be looked for.
pub open spec fn extracted(found: Option<Seq<Seq<FieldView>>>, detail_base: Seq<char>) -> Seq<
    RecordView,
> {
    match found {
        Some(groups) => records_from(groups, detail_base),
        None => Seq::empty(),
    }
}

/// The records of the page `page` with their detail links under
/// `detail_base`: those that the groups found in it describe, and none
/// where the page is too long to be looked into.
pub open spec fn page_records(page: Seq<char>, detail_base: Seq<char>) -> Seq<RecordView> {
    if fits(page) {
        extracted(
            selected_fields(page, GROUP_SELECTOR@, FIELD_SELECTOR@, LABEL_ATTRIBUTE@),
            detail_base,
        )
    } else {
        Seq::empty()
    }
}

/// Calls `scraper`: `Selector::parse` on `groups` and on `fields`,
/// `Html::parse_fragment` on `page`, `Html::select` for the groups,
/// `ElementRef::select` for the fields of each, and for each field
/// `Element::attr` with `attribute` and `ElementRef::inner_html`. The
/// contract names what comes back; it claims no more than that the same
/// four texts always give the same result. The parser stops the program
/// where one of its text buffers would have to grow beyond 2^31 bytes, so
/// the page has to be short enough to keep them below that.
#[verifier::external_body]
fn select_fields(page: &str, groups: &str, fields: &str, attribute: &str) -> (found: Option<
    Vec<Vec<Field>>,
>)
    requires
        fits(page@),
    ensures
        found.deep_view() == selected_fields(page@, groups@, fields@, attribute@),
{
    let groups = scraper::Selector::parse(groups).ok()?;
    let fields = scraper::Selector::parse(fields).ok()?;
    let html = scraper::Html::parse_fragment(page);
    let found = html.select(&groups).map(
        |group|
            group.select(&fields).map(
                |field| (field.value().attr(attribute).map(String::from), field.inner_html()),
            ).collect(),
    ).collect();
    Some(found)
}

/// The content of the last field of `fields` that is labelled `label`, or
/// the empty text if there is none.
pub fn value_of(fields: &Vec<Field>, label: &str) -> (value: String)
    ensures
        value@ == field_value(fields.deep_view(), label@),
{
    let wanted = label.to_owned();
    let ghost all = fields.deep_view();
    let mut n: usize = fields.len();
    assert(all.take(n as int) =~= all);
    while n > 0
        invariant
            n <= fields.len(),
            all == fields.deep_view(),
            wanted@ == label@,
            field_value(all, label@) == field_value(all.take(n as int), label@),
        decreases n,
    {
        let field = &fields[n - 1];
        proof {
            assert(all.take(n as int).last() == all[n - 1]);
            assert(all[n - 1] == field.deep_view());
            assert(all.take(n as int).drop_last() =~= all.take(n - 1));
        }
        match &field.0 {
            Some(found) => {
                if *found == wanted {
                    return field.1.clone();
                }
            },
            None => {},
        }
        n = n - 1;
    }
    String::new()
}

/// The record that a group of fields describes, with its detail link under
/// `detail_base`.
pub fn record_of(fields: &Vec<Field>, detail_base: &str) -> (record: Record)
    ensures
        record@ == record_from(fields.deep_view(), detail_base@),
{
    Record::new(
        RecordId::new(value_of(fields, ID_LABEL)),
        value_of(fields, NAME_LABEL),
        value_of(fields, CATEGORY_LABEL),
        value_of(fields, AGE_LABEL),
        detail_base,
    )
}

/// The records that the groups describe, one for each group, in order.
pub fn records_of(groups: &Vec<Vec<Field>>, detail_base: &str) -> (records: Vec<Record>)
    ensures
        records.deep_view() == records_from(groups.deep_view(), detail_base@),
{
    let mut records: Vec<Record> = Vec::new();
    let mut i: usize = 0;
    while i < groups.len()
        invariant
            i <= groups.len(),
            records.len() == i,
            forall|j: int|
                0 <= j < i ==> (#[trigger] records@[j])@ == record_from(
                    groups@[j].deep_view(),
                    detail_base@,
                ),
        decreases groups.len() - i,
    {
        records.push(record_of(&groups[i], detail_base));
        i = i + 1;
    }
    assert(records.deep_view() =~= records_from(groups.deep_view(), detail_base@));
    records
}

/// The records of the listing page `page`, in the page's order, with their
/// detail links under `detail_base`. Markup that holds no group gives no
/// record, and neither does a page of more than `PAGE_LIMIT` bytes, which
/// is not looked into.
pub fn extract(page: &str, detail_base: &str) -> (records: Vec<Record>)
    ensures
        records.deep_view() == page_records(page@, detail_base@),
{
    let found = if page.as_bytes().len() <= PAGE_LIMIT {
        select_fields(page, GROUP_SELECTOR, FIELD_SELECTOR, LABEL_ATTRIBUTE)
    } else {
        None
    };
    match found {
        Some(groups) => records_of(&groups, detail_base),
        None => {
            let nothing: Vec<Record> = Vec::new();
            assert(nothing.deep_view() =~= Seq::<RecordView>::empty());
            nothing
        },
    }
}

} // verus!
