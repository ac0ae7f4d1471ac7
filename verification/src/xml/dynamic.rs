//! Decoded values, before they are given their Rust types.

use vstd::prelude::*;

verus! {

/// One occurrence of an attribute field of a struct.
#[derive(Debug)]
pub struct AttrEntry {
    /// The place of the field in the struct's list of fields.
    pub field: usize,
    pub value: String,
}

pub struct AttrEntryModel {
    pub field: int,
    pub value: Seq<char>,
}

impl View for AttrEntry {
    type V = AttrEntryModel;

    open spec fn view(&self) -> AttrEntryModel {
        AttrEntryModel { field: self.field as int, value: self.value@ }
    }
}

/// The views of a list of attribute entries.
pub open spec fn attr_views(entries: Seq<AttrEntry>) -> Seq<AttrEntryModel> {
    entries.map_values(|e: AttrEntry| e@)
}

/// One occurrence of a child or of character content in a struct.
#[derive(Debug)]
pub struct Entry {
    /// The place of the field in the struct's list of fields.
    pub field: usize,
    pub value: XmlValue,
}

/// A decoded struct: the element's own local name, its attributes in
/// document order, and its children and text in document order.
#[derive(Debug)]
pub struct StructValue {
    pub name: String,
    pub attributes: Vec<AttrEntry>,
    pub content: Vec<Entry>,
}

/// A decoded value.
#[derive(Debug)]
pub enum XmlValue {
    /// The content of a text-only element, or a run of character content.
    Text(String),
    /// The content of an element that was passed over.
    Nothing,
    Struct(StructValue),
    /// An enum: the place of the variant, and the variant's element.
    Variant(usize, Box<XmlValue>),
}

pub struct EntryModel {
    pub field: int,
    pub value: ValueModel,
}

pub enum ValueModel {
    Text(Seq<char>),
    Nothing,
    Struct { name: Seq<char>, attributes: Seq<AttrEntryModel>, content: Seq<EntryModel> },
    Variant(int, Box<ValueModel>),
}

impl XmlValue {
    pub open spec fn model(&self) -> ValueModel
        decreases self,
    {
        match self {
            XmlValue::Text(s) => ValueModel::Text(s@),
            XmlValue::Nothing => ValueModel::Nothing,
            XmlValue::Struct(s) => ValueModel::Struct {
                name: s.name@,
                attributes: attr_views(s.attributes@),
                content: Self::models(s.content@),
            },
            XmlValue::Variant(i, payload) => ValueModel::Variant(
                *i as int,
                Box::new(payload.model()),
            ),
        }
    }

    /// The models of a list of entries.
    pub open spec fn models(entries: Seq<Entry>) -> Seq<EntryModel>
        decreases entries,
    {
        if entries.len() == 0 {
            seq![]
        } else {
            Self::models(entries.drop_last()).push(
                EntryModel {
                    field: entries.last().field as int,
                    value: entries.last().value.model(),
                },
            )
        }
    }

    /// The models of a list are the models of its entries, one for one.
    pub proof fn lemma_models(entries: Seq<Entry>)
        ensures
            Self::models(entries).len() == entries.len(),
            forall|i: int|
                0 <= i < entries.len() ==> (#[trigger] Self::models(entries)[i]) == (EntryModel {
                    field: entries[i].field as int,
                    value: entries[i].value.model(),
                }),
        decreases entries.len(),
    {
        if entries.len() > 0 {
            Self::lemma_models(entries.drop_last());
        }
    }

    /// The models of a list with one more entry.
    pub proof fn lemma_models_push(entries: Seq<Entry>, entry: Entry)
        ensures
            Self::models(entries.push(entry)) == Self::models(entries).push(
                EntryModel { field: entry.field as int, value: entry.value.model() },
            ),
    {
        assert(entries.push(entry).drop_last() =~= entries);
    }

    /// A text.
    pub fn text(text: String) -> (value: XmlValue)
        ensures
            value@ == ValueModel::Text(text@),
    {
        XmlValue::Text(text)
    }

    /// A variant of an enum.
    pub fn variant(place: usize, payload: XmlValue) -> (value: XmlValue)
        ensures
            value@ == ValueModel::Variant(place as int, Box::new(payload@)),
    {
        XmlValue::Variant(place, Box::new(payload))
    }

    /// A struct.
    pub fn structure(name: String, attributes: Vec<AttrEntry>, content: Vec<Entry>) -> (value:
        XmlValue)
        ensures
            value@ == (ValueModel::Struct {
                name: name@,
                attributes: attr_views(attributes@),
                content: XmlValue::models(content@),
            }),
    {
        XmlValue::Struct(StructValue { name, attributes, content })
    }

    /// A copy of the value.
    pub fn duplicate(&self) -> (copy: XmlValue)
        ensures
            copy@ == self@,
        decreases self,
    {
        match self {
            XmlValue::Text(text) => XmlValue::Text(text.clone()),
            XmlValue::Nothing => XmlValue::Nothing,
            XmlValue::Struct(s) => {
                let mut attributes: Vec<AttrEntry> = Vec::new();
                let mut k: usize = 0;
                while k < s.attributes.len()
                    invariant
                        k <= s.attributes.len(),
                        attributes.len() == k,
                        forall|j: int| 0 <= j < k ==> (#[trigger] attributes[j])@ == s.attributes[j]@,
                    decreases s.attributes.len() - k,
                {
                    attributes.push(
                        AttrEntry {
                            field: s.attributes[k].field,
                            value: s.attributes[k].value.clone(),
                        },
                    );
                    k = k + 1;
                }
                assert(attr_views(attributes@) =~= attr_views(s.attributes@));
                let mut copies: Vec<Entry> = Vec::new();
                let mut i: usize = 0;
                while i < s.content.len()
                    invariant
                        i <= s.content.len(),
                        *self == XmlValue::Struct(*s),
                        copies.len() == i,
                        forall|k: int| 0 <= k < i ==> (#[trigger] copies[k])@ == s.content[k]@,
                    decreases s.content.len() - i,
                {
                    proof {
                        vstd::std_specs::vec::axiom_vec_index_decreases(s.content, i as int);
                        assert(self->Struct_0 == *s);
                        assert(decreases_to!(*self => self->Struct_0));
                        assert(decreases_to!(*s => s.content));
                        assert(decreases_to!(s.content => s.content[i as int]));
                        assert(decreases_to!(s.content[i as int] => s.content[i as int].value));
                    }
                    let value = s.content[i].value.duplicate();
                    copies.push(Entry { field: s.content[i].field, value });
                    i = i + 1;
                }
                proof {
                    Self::lemma_models(s.content@);
                    Self::lemma_models(copies@);
                    assert(Self::models(copies@) =~= Self::models(s.content@));
                }
                XmlValue::Struct(StructValue { name: s.name.clone(), attributes, content: copies })
            },
            XmlValue::Variant(place, payload) => XmlValue::Variant(
                *place,
                Box::new(payload.duplicate()),
            ),
        }
    }
}

impl View for XmlValue {
    type V = ValueModel;

    open spec fn view(&self) -> ValueModel {
        self.model()
    }
}

impl View for Entry {
    type V = EntryModel;

    open spec fn view(&self) -> EntryModel {
        EntryModel { field: self.field as int, value: self.value.model() }
    }
}

impl ValueModel {
    /// The content of a struct; nothing for any other value.
    pub open spec fn content(self) -> Seq<EntryModel> {
        match self {
            ValueModel::Struct { content, .. } => content,
            _ => seq![],
        }
    }

    /// The attributes of a struct; nothing for any other value.
    pub open spec fn attributes(self) -> Seq<AttrEntryModel> {
        match self {
            ValueModel::Struct { attributes, .. } => attributes,
            _ => seq![],
        }
    }

    /// The last occurrence of a field in the content of a struct.
    pub open spec fn last(self, field: int) -> Option<ValueModel> {
        last_of(self.content(), field, self.content().len())
    }

    /// The occurrences of a field in the content of a struct, in order.
    pub open spec fn all(self, field: int) -> Seq<ValueModel> {
        all_of(self.content(), field, self.content().len())
    }

    /// The last occurrence of an attribute field of a struct.
    pub open spec fn attribute(self, field: int) -> Option<Seq<char>> {
        last_attr(self.attributes(), field, self.attributes().len())
    }
}

/// The last occurrence of a field among the first `n` entries.
pub open spec fn last_of(entries: Seq<EntryModel>, field: int, n: nat) -> Option<ValueModel>
    decreases n,
{
    if n == 0 {
        None
    } else if entries[n - 1].field == field {
        Some(entries[n - 1].value)
    } else {
        last_of(entries, field, (n - 1) as nat)
    }
}

/// The last occurrence of a field among the first `n` attribute entries.
pub open spec fn last_attr(entries: Seq<AttrEntryModel>, field: int, n: nat) -> Option<Seq<char>>
    decreases n,
{
    if n == 0 {
        None
    } else if entries[n - 1].field == field {
        Some(entries[n - 1].value)
    } else {
        last_attr(entries, field, (n - 1) as nat)
    }
}

/// The occurrences of a field among the first `n` entries, in order.
pub open spec fn all_of(entries: Seq<EntryModel>, field: int, n: nat) -> Seq<ValueModel>
    decreases n,
{
    if n == 0 {
        seq![]
    } else {
        let before = all_of(entries, field, (n - 1) as nat);
        if entries[n - 1].field == field {
            before.push(entries[n - 1].value)
        } else {
            before
        }
    }
}

impl XmlValue {
    /// The last occurrence of a field in the content of a struct.
    pub fn last(&self, field: usize) -> (found: Option<&XmlValue>)
        ensures
            match self@.last(field as int) {
                Some(v) => found matches Some(x) && x@ == v,
                None => found is None,
            },
    {
        let entries = match self {
            XmlValue::Struct(s) => &s.content,
            _ => {
                return None;
            },
        };
        proof {
            XmlValue::lemma_models(entries@);
        }
        let ghost models = XmlValue::models(entries@);
        let mut i: usize = entries.len();
        while i > 0
            invariant
                i <= entries.len(),
                models == XmlValue::models(entries@),
                models == self@.content(),
                models.len() == entries.len(),
                forall|k: int| 0 <= k < entries.len() ==> (#[trigger] models[k]) == entries[k]@,
                last_of(models, field as int, entries.len() as nat) == last_of(
                    models,
                    field as int,
                    i as nat,
                ),
            decreases i,
        {
            i = i - 1;
            if entries[i].field == field {
                return Some(&entries[i].value);
            }
        }
        None
    }

    /// The occurrences of a field in the content of a struct, in order.
    pub fn all(&self, field: usize) -> (found: Vec<&XmlValue>)
        ensures
            found@.map_values(|x: &XmlValue| x@) == self@.all(field as int),
    {
        let mut found: Vec<&XmlValue> = Vec::new();
        assert(found@.map_values(|x: &XmlValue| x@) =~= seq![]);
        let entries = match self {
            XmlValue::Struct(s) => &s.content,
            _ => {
                return found;
            },
        };
        proof {
            XmlValue::lemma_models(entries@);
        }
        let ghost models = XmlValue::models(entries@);
        let mut i: usize = 0;
        while i < entries.len()
            invariant
                i <= entries.len(),
                models == XmlValue::models(entries@),
                models == self@.content(),
                models.len() == entries.len(),
                forall|k: int| 0 <= k < entries.len() ==> (#[trigger] models[k]) == entries[k]@,
                found@.map_values(|x: &XmlValue| x@) == all_of(models, field as int, i as nat),
            decreases entries.len() - i,
        {
            let ghost before = found@.map_values(|x: &XmlValue| x@);
            if entries[i].field == field {
                found.push(&entries[i].value);
                assert(found@.map_values(|x: &XmlValue| x@) =~= before.push(
                    entries[i as int].value@,
                ));
            }
            i = i + 1;
        }
        found
    }

    /// The last occurrence of an attribute field of a struct.
    pub fn attribute(&self, field: usize) -> (found: Option<&String>)
        ensures
            match self@.attribute(field as int) {
                Some(v) => found matches Some(x) && x@ == v,
                None => found is None,
            },
    {
        let entries = match self {
            XmlValue::Struct(s) => &s.attributes,
            _ => {
                return None;
            },
        };
        let ghost models = attr_views(entries@);
        let mut i: usize = entries.len();
        while i > 0
            invariant
                i <= entries.len(),
                models == attr_views(entries@),
                models == self@.attributes(),
                last_attr(models, field as int, entries.len() as nat) == last_attr(
                    models,
                    field as int,
                    i as nat,
                ),
            decreases i,
        {
            i = i - 1;
            assert(models[i as int] == entries[i as int]@);
            if entries[i].field == field {
                return Some(&entries[i].value);
            }
        }
        None
    }

    /// The element name of a struct.
    pub fn name(&self) -> (name: Option<&String>)
        ensures
            match self@ {
                ValueModel::Struct { name: n, .. } => name matches Some(x) && x@ == n,
                _ => name is None,
            },
    {
        match self {
            XmlValue::Struct(s) => Some(&s.name),
            _ => None,
        }
    }
}

} // verus!
