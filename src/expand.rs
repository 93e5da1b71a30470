use vstd::prelude::*;

use crate::class_attrs::{
    parse_struct_attributes, struct_attributes, ClassAttributesView, PropertyInfo, PropertyView,
};
use crate::emit::{
    base_name, init_assignments, make_deref_impl, make_godot_init_impl, make_godot_properties_impl,
    DerefImpl, InitImpl, PropertiesImpl,
};
use crate::error::ParseError;
use crate::fields::{parse_fields, struct_fields, FieldsView};
use crate::syntax::Declaration;

verus! {

/// The record appended to the engine's plugin registry. The destructor
/// reference is always present; the constructor reference only where a
/// default constructor is generated.
#[derive(Debug)]
pub struct PluginRecord {
    pub class_name: String,
    pub base_class_name: String,
    pub has_create_fn: bool,
}

/// Everything that one declaration expands into.
#[derive(Debug)]
pub struct ClassExpansion {
    /// The class-identity descriptor: the class name ...
    pub class_name: String,
    /// ... and its base type.
    pub base_ty: String,
    pub init_impl: Option<InitImpl>,
    pub properties_impl: Option<PropertiesImpl>,
    pub deref_impl: Option<DerefImpl>,
    pub plugin: PluginRecord,
    /// The per-base-type facility that records the chain of base types.
    pub inherits_macro: String,
}

pub struct ExpansionView {
    pub class_name: Seq<char>,
    pub base_ty: Seq<char>,
    pub init: Option<Seq<(Seq<char>, bool)>>,
    pub properties: Option<Seq<PropertyView>>,
    pub deref: Option<Seq<char>>,
    pub plugin_class_name: Seq<char>,
    pub plugin_base_class_name: Seq<char>,
    pub plugin_has_create_fn: bool,
    pub inherits_macro: Seq<char>,
}

impl View for ClassExpansion {
    type V = ExpansionView;

    open spec fn view(&self) -> ExpansionView {
        ExpansionView {
            class_name: self.class_name@,
            base_ty: self.base_ty@,
            init: match self.init_impl {
                Some(i) => Some(i@),
                None => None,
            },
            properties: match self.properties_impl {
                Some(p) => Some(p@),
                None => None,
            },
            deref: match self.deref_impl {
                Some(d) => Some(d.base_field@),
                None => None,
            },
            plugin_class_name: self.plugin.class_name@,
            plugin_base_class_name: self.plugin.base_class_name@,
            plugin_has_create_fn: self.plugin.has_create_fn,
            inherits_macro: self.inherits_macro@,
        }
    }
}

/// The name of the chain-registration facility for a base type.
pub open spec fn inherits_macro_name(base: Seq<char>) -> Seq<char> {
    "inherits_transitive_"@ + base
}

/// What a class named `name`, with configuration `c` and fields `f`, expands into.
pub open spec fn expansion_of(name: Seq<char>, c: ClassAttributesView, f: FieldsView) -> ExpansionView {
    ExpansionView {
        class_name: name,
        base_ty: c.base_ty,
        init: if c.has_generated_init {
            Some(init_assignments(f))
        } else {
            None
        },
        properties: if c.properties.len() > 0 {
            Some(c.properties)
        } else {
            None
        },
        deref: base_name(f),
        plugin_class_name: name,
        plugin_base_class_name: c.base_ty,
        plugin_has_create_fn: c.has_generated_init,
        inherits_macro: inherits_macro_name(c.base_ty),
    }
}

/// What a declaration expands into, or the first error: the declaration must
/// be a structure; its tags are read before its fields.
pub open spec fn expansion(decl: Declaration) -> Result<ExpansionView, ParseError> {
    match decl {
        Declaration::Other => Err(ParseError::NotAStruct),
        Declaration::Struct(s) => match struct_attributes(s.attributes@) {
            Err(e) => Err(e),
            Ok(c) => match struct_fields(s.fields) {
                Err(e) => Err(e),
                Ok(f) => Ok(expansion_of(s.name@, c, f)),
            },
        },
    }
}

/// Expands an annotated declaration into the pieces that register it as an
/// engine class.
pub fn transform(decl: &Declaration) -> (r: Result<ClassExpansion, ParseError>)
    ensures
        match expansion(*decl) {
            Ok(v) => r matches Ok(x) && x@ == v,
            Err(e) => r matches Err(f) && f == e,
        },
{
    let class = match decl {
        Declaration::Struct(s) => s,
        Declaration::Other => {
            return Err(ParseError::NotAStruct);
        },
    };
    let struct_cfg = parse_struct_attributes(&class.attributes)?;
    let fields = parse_fields(class)?;
    let ghost cv = struct_cfg@;
    let ghost fv = fields@;

    let base_ty = struct_cfg.base_ty;
    let inherits_macro = String::from_str("inherits_transitive_").concat(base_ty.as_str());
    let deref_impl = make_deref_impl(&fields);
    let init_impl = if struct_cfg.has_generated_init {
        Some(make_godot_init_impl(fields))
    } else {
        None
    };
    let properties: Vec<PropertyInfo> = struct_cfg.properties;
    let properties_impl = make_godot_properties_impl(properties);
    let plugin = PluginRecord {
        class_name: class.name.clone(),
        base_class_name: base_ty.clone(),
        has_create_fn: struct_cfg.has_generated_init,
    };
    let r = ClassExpansion {
        class_name: class.name.clone(),
        base_ty,
        init_impl,
        properties_impl,
        deref_impl,
        plugin,
        inherits_macro,
    };
    assert(r@ == expansion_of(class.name@, cv, fv));
    Ok(r)
}

} // verus!
