use vstd::prelude::*;

use crate::class_attrs::{PropertyInfo, PropertyView};
use crate::fields::{Fields, FieldsView};

verus! {

/// One assignment of the generated default constructor.
#[derive(Debug)]
pub struct FieldInit {
    pub field: String,
    /// The field receives the engine-supplied base handle, not its default value.
    pub from_base: bool,
}

impl View for FieldInit {
    type V = (Seq<char>, bool);

    open spec fn view(&self) -> (Seq<char>, bool) {
        (self.field@, self.from_base)
    }
}

/// The generated default constructor: its assignments, in emission order.
#[derive(Debug)]
pub struct InitImpl {
    pub assignments: Vec<FieldInit>,
}

impl View for InitImpl {
    type V = Seq<(Seq<char>, bool)>;

    open spec fn view(&self) -> Seq<(Seq<char>, bool)> {
        self.assignments@.map_values(|a: FieldInit| a@)
    }
}

/// The generated property registration: one call per descriptor, in order.
#[derive(Debug)]
pub struct PropertiesImpl {
    pub registrations: Vec<PropertyInfo>,
}

impl View for PropertiesImpl {
    type V = Seq<PropertyView>;

    open spec fn view(&self) -> Seq<PropertyView> {
        self.registrations@.map_values(|p: PropertyInfo| p@)
    }
}

/// The generated read and write delegation to the base field.
#[derive(Debug)]
pub struct DerefImpl {
    pub base_field: String,
}

/// The assignments of the default constructor: every plain field gets its
/// default value, in classification order, and then the base field, if there
/// is one, gets the base handle.
pub open spec fn init_assignments(f: FieldsView) -> Seq<(Seq<char>, bool)> {
    f.plain.map_values(|n: Seq<char>| (n, false)) + match f.base {
        Some(b) => seq![(b.name, true)],
        None => Seq::empty(),
    }
}

/// The name of the base field, if there is one.
pub open spec fn base_name(f: FieldsView) -> Option<Seq<char>> {
    match f.base {
        Some(b) => Some(b.name),
        None => None,
    }
}

/// Plans the default constructor for the classified fields.
pub fn make_godot_init_impl(fields: Fields) -> (r: InitImpl)
    ensures
        r@ == init_assignments(fields@),
{
    let ghost fv = fields@;
    let mut assignments: Vec<FieldInit> = Vec::new();
    let mut i: usize = 0;
    while i < fields.all_field_names.len()
        invariant
            i <= fields.all_field_names.len(),
            fv == fields@,
            assignments@.len() == i,
            forall|k: int|
                0 <= k < i ==> #[trigger] assignments@[k]@ == (fields.all_field_names@[k]@, false),
        decreases fields.all_field_names.len() - i,
    {
        assignments.push(FieldInit { field: fields.all_field_names[i].clone(), from_base: false });
        i = i + 1;
    }
    let ghost plain_part = assignments@;
    if let Some(b) = &fields.base_field {
        assignments.push(FieldInit { field: b.name.clone(), from_base: true });
    }
    let r = InitImpl { assignments };
    assert(r@ =~= init_assignments(fv)) by {
        let pl = fv.plain.map_values(|n: Seq<char>| (n, false));
        assert forall|k: int| 0 <= k < pl.len() implies #[trigger] r@[k] == pl[k] by {
            assert(r.assignments@[k] == plain_part[k]);
        }
    }
    r
}

/// Plans the property registration: none where no descriptor was given.
pub fn make_godot_properties_impl(properties: Vec<PropertyInfo>) -> (r: Option<PropertiesImpl>)
    ensures
        properties@.len() == 0 ==> r is None,
        properties@.len() > 0 ==> (r matches Some(p) && p@ == properties@.map_values(
            |q: PropertyInfo| q@,
        )),
{
    if properties.len() == 0 {
        None
    } else {
        Some(PropertiesImpl { registrations: properties })
    }
}

/// Plans the delegation to the base field: none where there is no base field.
pub fn make_deref_impl(fields: &Fields) -> (r: Option<DerefImpl>)
    ensures
        match base_name(fields@) {
            Some(n) => r matches Some(d) && d.base_field@ == n,
            None => r is None,
        },
{
    match &fields.base_field {
        Some(b) => Some(DerefImpl { base_field: b.name.clone() }),
        None => None,
    }
}

} // verus!
