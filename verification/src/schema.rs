//! Checking a dictionary against the rules that emission relies on.

use crate::dictionary::Component;
use crate::dictionary::FieldDef;
use crate::dictionary::FixSpec;
use crate::dictionary::Message;
use crate::dictionary::Reference;
use crate::dictionary::SchemaError;
use crate::generator::fields_allowed;
use vstd::prelude::*;
use vstd::string::*;

verus! {

/// The names of the fields, in order.
pub open spec fn field_names(fields: Seq<FieldDef>) -> Seq<Seq<char>> {
    Seq::new(fields.len(), |i: int| fields[i].name@)
}

/// The names of the components, in order.
pub open spec fn component_names(components: Seq<Component>) -> Seq<Seq<char>> {
    Seq::new(components.len(), |i: int| components[i].name@)
}

/// Whether no two fields have one tag.
pub open spec fn unique_tags(fields: Seq<FieldDef>) -> bool {
    forall|i: int, j: int| 0 <= i < j < fields.len() ==> fields[i].number != fields[j].number
}

/// Whether no two fields have one name.
pub open spec fn unique_names(fields: Seq<FieldDef>) -> bool {
    forall|i: int, j: int| 0 <= i < j < fields.len() ==> fields[i].name@ != fields[j].name@
}

/// Whether a reference, and every reference below it, names an item that
/// is defined: a field or a group a field, a component a component.
pub open spec fn resolved(item: Reference, fields: Seq<Seq<char>>, components: Seq<Seq<char>>) -> bool
    decreases item,
{
    match item {
        Reference::FieldRef(f) => fields.contains(f.name@),
        Reference::ComponentRef(c) => components.contains(c.name@),
        Reference::GroupRef(g) => fields.contains(g.name@) && forall|i: int|
            0 <= i < g.refs@.len() ==> resolved(#[trigger] g.refs@[i], fields, components),
    }
}

/// Whether every reference of the list is resolved.
pub open spec fn all_resolved(
    refs: Seq<Reference>,
    fields: Seq<Seq<char>>,
    components: Seq<Seq<char>>,
) -> bool {
    forall|i: int| 0 <= i < refs.len() ==> resolved(#[trigger] refs[i], fields, components)
}

/// Whether the references of every component are resolved.
pub open spec fn components_resolved(
    items: Seq<Component>,
    fields: Seq<Seq<char>>,
    components: Seq<Seq<char>>,
) -> bool {
    forall|i: int|
        0 <= i < items.len() ==> all_resolved((#[trigger] items[i]).refs@, fields, components)
}

/// Whether the references of every message are resolved.
pub open spec fn messages_resolved(
    items: Seq<Message>,
    fields: Seq<Seq<char>>,
    components: Seq<Seq<char>>,
) -> bool {
    forall|i: int|
        0 <= i < items.len() ==> all_resolved((#[trigger] items[i]).refs@, fields, components)
}

/// Tells whether no two fields have one tag.
pub fn has_unique_tags(fields: &Vec<FieldDef>) -> (b: bool)
    ensures
        b == unique_tags(fields@),
{
    let mut j: usize = 0;
    while j < fields.len()
        invariant
            j <= fields@.len(),
            forall|a: int, b: int| 0 <= a < b < j ==> fields@[a].number != fields@[b].number,
        decreases fields@.len() - j,
    {
        let mut i: usize = 0;
        while i < j
            invariant
                i <= j < fields@.len(),
                forall|a: int| 0 <= a < i ==> fields@[a].number != fields@[j as int].number,
            decreases j - i,
        {
            if fields[i].number == fields[j].number {
                return false;
            }
            i += 1;
        }
        j += 1;
    }
    true
}

/// Tells whether no two fields have one name.
pub fn has_unique_names(fields: &Vec<FieldDef>) -> (b: bool)
    ensures
        b == unique_names(fields@),
{
    let mut j: usize = 0;
    while j < fields.len()
        invariant
            j <= fields@.len(),
            forall|a: int, b: int| 0 <= a < b < j ==> fields@[a].name@ != fields@[b].name@,
        decreases fields@.len() - j,
    {
        let mut i: usize = 0;
        while i < j
            invariant
                i <= j < fields@.len(),
                forall|a: int| 0 <= a < i ==> fields@[a].name@ != fields@[j as int].name@,
            decreases j - i,
        {
            if fields[i].name == fields[j].name {
                return false;
            }
            i += 1;
        }
        j += 1;
    }
    true
}

/// Tells whether a field of that name is defined.
pub fn has_field(fields: &Vec<FieldDef>, name: &String) -> (b: bool)
    ensures
        b == field_names(fields@).contains(name@),
{
    let mut i: usize = 0;
    while i < fields.len()
        invariant
            i <= fields@.len(),
            forall|k: int| 0 <= k < i ==> field_names(fields@)[k] != name@,
        decreases fields@.len() - i,
    {
        if fields[i].name == *name {
            assert(field_names(fields@)[i as int] == name@);
            return true;
        }
        i += 1;
    }
    false
}

/// Tells whether a component of that name is defined.
pub fn has_component(components: &Vec<Component>, name: &String) -> (b: bool)
    ensures
        b == component_names(components@).contains(name@),
{
    let mut i: usize = 0;
    while i < components.len()
        invariant
            i <= components@.len(),
            forall|k: int| 0 <= k < i ==> component_names(components@)[k] != name@,
        decreases components@.len() - i,
    {
        if components[i].name == *name {
            assert(component_names(components@)[i as int] == name@);
            return true;
        }
        i += 1;
    }
    false
}

/// Tells whether a reference, and every reference below it, is resolved.
pub fn is_resolved(item: &Reference, fields: &Vec<FieldDef>, components: &Vec<Component>) -> (b:
    bool)
    ensures
        b == resolved(*item, field_names(fields@), component_names(components@)),
    decreases item,
{
    match item {
        Reference::FieldRef(f) => has_field(fields, &f.name),
        Reference::ComponentRef(c) => has_component(components, &c.name),
        Reference::GroupRef(g) => has_field(fields, &g.name) && are_resolved(
            &g.refs,
            fields,
            components,
        ),
    }
}

/// Tells whether every reference of the list is resolved.
pub fn are_resolved(refs: &Vec<Reference>, fields: &Vec<FieldDef>, components: &Vec<Component>) -> (b:
    bool)
    ensures
        b == all_resolved(refs@, field_names(fields@), component_names(components@)),
    decreases refs,
{
    let mut i: usize = 0;
    while i < refs.len()
        invariant
            i <= refs@.len(),
            forall|k: int|
                0 <= k < i ==> resolved(
                    #[trigger] refs@[k],
                    field_names(fields@),
                    component_names(components@),
                ),
        decreases refs@.len() - i,
    {
        proof {
            vstd::std_specs::vec::axiom_vec_index_decreases(*refs, i as int);
        }
        if !is_resolved(&refs[i], fields, components) {
            return false;
        }
        i += 1;
    }
    true
}

/// Whether every field has a positive tag.
pub open spec fn positive_tags(fields: Seq<FieldDef>) -> bool {
    forall|i: int| 0 <= i < fields.len() ==> (#[trigger] fields[i]).number > 0
}

/// Whether no two references of the list name the same item.
pub open spec fn distinct_names(refs: Seq<Reference>) -> bool {
    forall|i: int, j: int|
        0 <= i < j < refs.len() ==> refs[i].type_value() != refs[j].type_value()
}

/// Whether below a reference no group names an item twice among its
/// members.
pub open spec fn distinct_below(item: Reference) -> bool
    decreases item,
{
    match item {
        Reference::FieldRef(_) => true,
        Reference::ComponentRef(_) => true,
        Reference::GroupRef(g) => distinct_names(g.refs@) && forall|i: int|
            0 <= i < g.refs@.len() ==> distinct_below(#[trigger] g.refs@[i]),
    }
}

/// Whether neither the list nor any group below it names an item twice.
pub open spec fn all_distinct(refs: Seq<Reference>) -> bool {
    distinct_names(refs) && forall|i: int|
        0 <= i < refs.len() ==> distinct_below(#[trigger] refs[i])
}

/// Whether no component names an item twice in one list.
pub open spec fn components_distinct(items: Seq<Component>) -> bool {
    forall|i: int| 0 <= i < items.len() ==> all_distinct((#[trigger] items[i]).refs@)
}

/// Whether no message names an item twice in one list.
pub open spec fn messages_distinct(items: Seq<Message>) -> bool {
    forall|i: int| 0 <= i < items.len() ==> all_distinct((#[trigger] items[i]).refs@)
}

/// Tells whether every field has a positive tag.
pub fn has_positive_tags(fields: &Vec<FieldDef>) -> (b: bool)
    ensures
        b == positive_tags(fields@),
{
    let mut i: usize = 0;
    while i < fields.len()
        invariant
            i <= fields@.len(),
            forall|k: int| 0 <= k < i ==> (#[trigger] fields@[k]).number > 0,
        decreases fields@.len() - i,
    {
        if fields[i].number == 0 {
            return false;
        }
        i += 1;
    }
    true
}

/// Tells whether no two references of the list name the same item.
pub fn has_distinct_names(refs: &Vec<Reference>) -> (b: bool)
    ensures
        b == distinct_names(refs@),
{
    let mut j: usize = 0;
    while j < refs.len()
        invariant
            j <= refs@.len(),
            forall|a: int, b: int|
                0 <= a < b < j ==> refs@[a].type_value() != refs@[b].type_value(),
        decreases refs@.len() - j,
    {
        let mut i: usize = 0;
        while i < j
            invariant
                i <= j < refs@.len(),
                forall|a: int|
                    0 <= a < i ==> refs@[a].type_value() != refs@[j as int].type_value(),
            decreases j - i,
        {
            if *ref_name(&refs[i]) == *ref_name(&refs[j]) {
                return false;
            }
            i += 1;
        }
        j += 1;
    }
    true
}

/// The name that a reference holds.
fn ref_name(item: &Reference) -> (r: &String)
    ensures
        r@ == item.type_value(),
{
    match item {
        Reference::FieldRef(x) => &x.name,
        Reference::ComponentRef(x) => &x.name,
        Reference::GroupRef(x) => &x.name,
    }
}

/// Tells whether below a reference no group names an item twice.
pub fn is_distinct_below(item: &Reference) -> (b: bool)
    ensures
        b == distinct_below(*item),
    decreases item,
{
    match item {
        Reference::FieldRef(_) => true,
        Reference::ComponentRef(_) => true,
        Reference::GroupRef(g) => are_distinct(&g.refs),
    }
}

/// Tells whether neither the list nor any group below it names an item
/// twice.
pub fn are_distinct(refs: &Vec<Reference>) -> (b: bool)
    ensures
        b == all_distinct(refs@),
    decreases refs,
{
    if !has_distinct_names(refs) {
        return false;
    }
    let mut i: usize = 0;
    while i < refs.len()
        invariant
            i <= refs@.len(),
            distinct_names(refs@),
            forall|k: int| 0 <= k < i ==> distinct_below(#[trigger] refs@[k]),
        decreases refs@.len() - i,
    {
        proof {
            vstd::std_specs::vec::axiom_vec_index_decreases(*refs, i as int);
        }
        if !is_distinct_below(&refs[i]) {
            return false;
        }
        i += 1;
    }
    true
}

/// Tells whether every field is scalar or of a wire type that can be
/// enumerated.
pub fn are_allowed(fields: &Vec<FieldDef>) -> (b: bool)
    ensures
        b == fields_allowed(fields@),
{
    let mut i: usize = 0;
    while i < fields.len()
        invariant
            i <= fields@.len(),
            forall|k: int| 0 <= k < i ==> (#[trigger] fields@[k]).enum_allowed(),
        decreases fields@.len() - i,
    {
        if fields[i].values.len() != 0 && !fields[i].field_type.can_enumerate() {
            assert(!fields@[i as int].enum_allowed());
            return false;
        }
        i += 1;
    }
    true
}

impl FixSpec {
    /// The names of the components of the dictionary; none where it has
    /// no list of components.
    pub open spec fn component_names(&self) -> Seq<Seq<char>> {
        match self.component {
            Some(c) => component_names(c.items@),
            None => Seq::empty(),
        }
    }

    /// Whether every reference of the header, of the trailer, of the
    /// components and of the messages is resolved.
    pub open spec fn references_resolved(&self) -> bool {
        let fields = field_names(self.field.items@);
        let components = self.component_names();
        &&& self.header matches Some(h) ==> all_resolved(h.refs@, fields, components)
        &&& self.trailer matches Some(t) ==> all_resolved(t.refs@, fields, components)
        &&& self.component matches Some(c) ==> components_resolved(c.items@, fields, components)
        &&& messages_resolved(self.message.items@, fields, components)
    }

    /// Whether neither the header, nor the trailer, nor a component, nor
    /// a message, nor a group of theirs names an item twice in one list.
    pub open spec fn references_distinct(&self) -> bool {
        &&& self.header matches Some(h) ==> all_distinct(h.refs@)
        &&& self.trailer matches Some(t) ==> all_distinct(t.refs@)
        &&& self.component matches Some(c) ==> components_distinct(c.items@)
        &&& messages_distinct(self.message.items@)
    }

    /// What is wrong with the dictionary, if anything: the first of a name
    /// outside ASCII, a tag that is zero, two fields with one tag, two
    /// fields with one name, values on a wire type that cannot be
    /// enumerated, a reference to what is not defined, and an item named
    /// twice in one list.
    pub open spec fn fault(&self) -> Option<SchemaError> {
        if !self.ascii_names() {
            Some(SchemaError::NonAsciiName)
        } else if !positive_tags(self.field.items@) {
            Some(SchemaError::ZeroTag)
        } else if !unique_tags(self.field.items@) {
            Some(SchemaError::DuplicateTag)
        } else if !unique_names(self.field.items@) {
            Some(SchemaError::DuplicateName)
        } else if !fields_allowed(self.field.items@) {
            Some(SchemaError::EnumOnScalarType)
        } else if !self.references_resolved() {
            Some(SchemaError::UnknownReference)
        } else if !self.references_distinct() {
            Some(SchemaError::DuplicateReference)
        } else {
            None
        }
    }

    /// Whether the dictionary keeps every rule: it has no fault.
    pub open spec fn wf(&self) -> bool {
        &&& self.ascii_names()
        &&& positive_tags(self.field.items@)
        &&& unique_tags(self.field.items@)
        &&& unique_names(self.field.items@)
        &&& fields_allowed(self.field.items@)
        &&& self.references_resolved()
        &&& self.references_distinct()
    }

    /// Tells whether no list of the dictionary names an item twice.
    pub fn has_distinct_references(&self) -> (b: bool)
        ensures
            b == self.references_distinct(),
    {
        if let Some(h) = &self.header {
            if !are_distinct(&h.refs) {
                return false;
            }
        }
        if let Some(t) = &self.trailer {
            if !are_distinct(&t.refs) {
                return false;
            }
        }
        if let Some(c) = &self.component {
            let mut j: usize = 0;
            while j < c.items.len()
                invariant
                    j <= c.items@.len(),
                    self.component == Some(*c),
                    forall|k: int| 0 <= k < j ==> all_distinct((#[trigger] c.items@[k]).refs@),
                decreases c.items@.len() - j,
            {
                if !are_distinct(&c.items[j].refs) {
                    assert(!all_distinct(c.items@[j as int].refs@));
                    return false;
                }
                j += 1;
            }
        }
        let mut m: usize = 0;
        while m < self.message.items.len()
            invariant
                m <= self.message.items@.len(),
                forall|k: int|
                    0 <= k < m ==> all_distinct((#[trigger] self.message.items@[k]).refs@),
            decreases self.message.items@.len() - m,
        {
            if !are_distinct(&self.message.items[m].refs) {
                assert(!all_distinct(self.message.items@[m as int].refs@));
                return false;
            }
            m += 1;
        }
        true
    }

    /// Tells whether every reference of the dictionary is resolved.
    pub fn has_resolved_references(&self) -> (b: bool)
        ensures
            b == self.references_resolved(),
    {
        let none: Vec<Component> = Vec::new();
        let components = match &self.component {
            Some(c) => &c.items,
            None => &none,
        };
        assert(component_names(components@) =~= self.component_names());
        let fields = &self.field.items;
        if let Some(h) = &self.header {
            if !are_resolved(&h.refs, fields, components) {
                return false;
            }
        }
        if let Some(t) = &self.trailer {
            if !are_resolved(&t.refs, fields, components) {
                return false;
            }
        }
        if let Some(c) = &self.component {
            let mut j: usize = 0;
            while j < c.items.len()
                invariant
                    j <= c.items@.len(),
                    self.component == Some(*c),
                    fields == &self.field.items,
                    component_names(components@) == self.component_names(),
                    forall|k: int|
                        0 <= k < j ==> all_resolved(
                            (#[trigger] c.items@[k]).refs@,
                            field_names(fields@),
                            component_names(components@),
                        ),
                decreases c.items@.len() - j,
            {
                if !are_resolved(&c.items[j].refs, fields, components) {
                    assert(!all_resolved(
                        c.items@[j as int].refs@,
                        field_names(fields@),
                        component_names(components@),
                    ));
                    return false;
                }
                j += 1;
            }
        }
        let mut m: usize = 0;
        while m < self.message.items.len()
            invariant
                m <= self.message.items@.len(),
                fields == &self.field.items,
                component_names(components@) == self.component_names(),
                forall|k: int|
                    0 <= k < m ==> all_resolved(
                        (#[trigger] self.message.items@[k]).refs@,
                        field_names(fields@),
                        component_names(components@),
                    ),
            decreases self.message.items@.len() - m,
        {
            if !are_resolved(&self.message.items[m].refs, fields, components) {
                assert(!all_resolved(
                    self.message.items@[m as int].refs@,
                    field_names(fields@),
                    component_names(components@),
                ));
                return false;
            }
            m += 1;
        }
        true
    }

    /// Checks the dictionary against every rule, and reports the first
    /// that it breaks.
    pub fn check(&self) -> (r: Result<(), SchemaError>)
        ensures
            r is Ok <==> self.wf(),
            r == match self.fault() {
                Some(e) => Err::<(), SchemaError>(e),
                None => Ok::<(), SchemaError>(()),
            },
    {
        if !self.has_ascii_names() {
            Err(SchemaError::NonAsciiName)
        } else if !has_positive_tags(&self.field.items) {
            Err(SchemaError::ZeroTag)
        } else if !has_unique_tags(&self.field.items) {
            Err(SchemaError::DuplicateTag)
        } else if !has_unique_names(&self.field.items) {
            Err(SchemaError::DuplicateName)
        } else if !are_allowed(&self.field.items) {
            Err(SchemaError::EnumOnScalarType)
        } else if !self.has_resolved_references() {
            Err(SchemaError::UnknownReference)
        } else if !self.has_distinct_references() {
            Err(SchemaError::DuplicateReference)
        } else {
            Ok(())
        }
    }
}

} // verus!
