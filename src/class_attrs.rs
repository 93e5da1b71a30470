use vstd::prelude::*;

use crate::error::{key_text, ParseError, PropertyKey};
use crate::syntax::{
    all_keys_known, find_unknown_key, first_unknown, is_tag, kv_find, kv_lookup, tag_is, Attribute,
    KvEntry, KvValue,
};

verus! {

/// A property descriptor: an engine-visible property bound to a getter and a setter.
#[derive(Debug)]
pub struct PropertyInfo {
    pub name: String,
    /// The variant-type tag; kept as written, not yet used by the registration.
    pub variant_type: String,
    pub getter: String,
    pub setter: String,
}

pub struct PropertyView {
    pub name: Seq<char>,
    pub variant_type: Seq<char>,
    pub getter: Seq<char>,
    pub setter: Seq<char>,
}

impl View for PropertyInfo {
    type V = PropertyView;

    open spec fn view(&self) -> PropertyView {
        PropertyView {
            name: self.name@,
            variant_type: self.variant_type@,
            getter: self.getter@,
            setter: self.setter@,
        }
    }
}

/// The configuration that the tags of one declaration give.
#[derive(Debug)]
pub struct ClassAttributes {
    pub base_ty: String,
    pub has_generated_init: bool,
    pub properties: Vec<PropertyInfo>,
}

pub struct ClassAttributesView {
    pub base_ty: Seq<char>,
    pub has_generated_init: bool,
    pub properties: Seq<PropertyView>,
}

impl View for ClassAttributes {
    type V = ClassAttributesView;

    open spec fn view(&self) -> ClassAttributesView {
        ClassAttributesView {
            base_ty: self.base_ty@,
            has_generated_init: self.has_generated_init,
            properties: self.properties@.map_values(|p: PropertyInfo| p@),
        }
    }
}

/// The engine's root type, the base when no class tag names one.
pub open spec fn default_base() -> Seq<char> {
    "RefCounted"@
}

pub open spec fn class_keys() -> Seq<Seq<char>> {
    seq!["base"@, "init"@]
}

pub open spec fn property_keys() -> Seq<Seq<char>> {
    seq!["name"@, "variant_type"@, "getter"@, "setter"@]
}

/// Scans the first `n` tags for class-configuration tags: the index of the
/// only one, or an error at the second.
pub open spec fn class_tag_scan(attrs: Seq<Attribute>, n: int) -> Result<Option<int>, ParseError>
    decreases n,
{
    if n <= 0 {
        Ok(None)
    } else {
        match class_tag_scan(attrs, n - 1) {
            Err(e) => Err(e),
            Ok(prev) => if is_tag(attrs[n - 1], "class"@) {
                if prev is Some {
                    Err(ParseError::DuplicateClassTag { attr_index: (n - 1) as usize })
                } else if !attrs[n - 1].well_formed {
                    Err(ParseError::MalformedTag { attr_index: (n - 1) as usize })
                } else {
                    Ok(Some(n - 1))
                }
            } else {
                Ok(prev)
            },
        }
    }
}

/// The base type and the initializer flag that the tags give.
pub open spec fn class_config(attrs: Seq<Attribute>) -> Result<(Seq<char>, bool), ParseError> {
    match class_tag_scan(attrs, attrs.len() as int) {
        Err(e) => Err(e),
        Ok(None) => Ok((default_base(), false)),
        Ok(Some(i)) => {
            let args = attrs[i].args@;
            let base = kv_lookup(args, "base"@);
            let init = kv_lookup(args, "init"@);
            if base matches Some(v) && !(v is Ident) {
                Err(ParseError::InvalidBaseValue { attr_index: i as usize })
            } else if init matches Some(v) && !(v is Flag) {
                Err(ParseError::InitHasValue { attr_index: i as usize })
            } else if !all_keys_known(args, class_keys()) {
                Err(
                    ParseError::UnknownKey {
                        attr_index: i as usize,
                        key: args[first_unknown(args, class_keys())].key,
                    },
                )
            } else {
                Ok(
                    (
                        match base {
                            Some(KvValue::Ident(b)) => b@,
                            _ => default_base(),
                        },
                        init is Some,
                    ),
                )
            }
        },
    }
}

/// What is wrong with the key `k` of a property tag, if anything.
pub open spec fn lit_problem(args: Seq<KvEntry>, k: PropertyKey, attr_index: int) -> Option<
    ParseError,
> {
    match kv_lookup(args, key_text(k)) {
        None => Some(ParseError::MissingPropertyKey { attr_index: attr_index as usize, which: k }),
        Some(KvValue::Lit(_)) => None,
        Some(_) => Some(
            ParseError::PropertyKeyNotLiteral { attr_index: attr_index as usize, which: k },
        ),
    }
}

/// The literal bound to the key `k` of a property tag.
pub open spec fn lit_value(args: Seq<KvEntry>, k: PropertyKey) -> Seq<char> {
    match kv_lookup(args, key_text(k)) {
        Some(KvValue::Lit(s)) => s@,
        _ => Seq::empty(),
    }
}

/// The descriptor that the property tag `a`, the tag at `attr_index`, gives;
/// its keys are checked in the order name, variant type, getter, setter.
pub open spec fn property_outcome(a: Attribute, attr_index: int) -> Result<PropertyView, ParseError> {
    let args = a.args@;
    if !a.well_formed {
        Err(ParseError::MalformedTag { attr_index: attr_index as usize })
    } else if lit_problem(args, PropertyKey::Name, attr_index) is Some {
        Err(lit_problem(args, PropertyKey::Name, attr_index)->Some_0)
    } else if lit_problem(args, PropertyKey::VariantType, attr_index) is Some {
        Err(lit_problem(args, PropertyKey::VariantType, attr_index)->Some_0)
    } else if lit_problem(args, PropertyKey::Getter, attr_index) is Some {
        Err(lit_problem(args, PropertyKey::Getter, attr_index)->Some_0)
    } else if lit_problem(args, PropertyKey::Setter, attr_index) is Some {
        Err(lit_problem(args, PropertyKey::Setter, attr_index)->Some_0)
    } else if !all_keys_known(args, property_keys()) {
        Err(
            ParseError::UnknownKey {
                attr_index: attr_index as usize,
                key: args[first_unknown(args, property_keys())].key,
            },
        )
    } else {
        Ok(
            PropertyView {
                name: lit_value(args, PropertyKey::Name),
                variant_type: lit_value(args, PropertyKey::VariantType),
                getter: lit_value(args, PropertyKey::Getter),
                setter: lit_value(args, PropertyKey::Setter),
            },
        )
    }
}

/// The descriptors of the property tags among the first `n` tags, in order,
/// or the first error among them.
pub open spec fn properties_scan(attrs: Seq<Attribute>, n: int) -> Result<Seq<PropertyView>, ParseError>
    decreases n,
{
    if n <= 0 {
        Ok(Seq::empty())
    } else {
        match properties_scan(attrs, n - 1) {
            Err(e) => Err(e),
            Ok(ps) => if is_tag(attrs[n - 1], "property"@) {
                match property_outcome(attrs[n - 1], n - 1) {
                    Err(e) => Err(e),
                    Ok(p) => Ok(ps.push(p)),
                }
            } else {
                Ok(ps)
            },
        }
    }
}

/// What the tags of a declaration configure: the class tag is read first,
/// then the property tags.
pub open spec fn struct_attributes(attrs: Seq<Attribute>) -> Result<ClassAttributesView, ParseError> {
    match class_config(attrs) {
        Err(e) => Err(e),
        Ok((base, init)) => match properties_scan(attrs, attrs.len() as int) {
            Err(e) => Err(e),
            Ok(ps) => Ok(
                ClassAttributesView { base_ty: base, has_generated_init: init, properties: ps },
            ),
        },
    }
}

/// Once the scan for class tags has failed, a longer scan fails the same way;
/// a tag it finds lies in the part scanned.
pub proof fn lemma_class_tag_scan_prefix(attrs: Seq<Attribute>, n: int, m: int)
    requires
        0 <= n <= m,
    ensures
        class_tag_scan(attrs, n) is Err ==> class_tag_scan(attrs, m) == class_tag_scan(attrs, n),
        class_tag_scan(attrs, n) matches Ok(Some(k)) ==> 0 <= k < n,
    decreases m - n, n,
{
    if n < m {
        lemma_class_tag_scan_prefix(attrs, n, m - 1);
    } else if n > 0 {
        lemma_class_tag_scan_prefix(attrs, n - 1, n - 1);
    }
}

/// Once the scan for property tags has failed, a longer scan fails the same way.
pub proof fn lemma_properties_scan_prefix(attrs: Seq<Attribute>, n: int, m: int)
    requires
        0 <= n <= m,
    ensures
        properties_scan(attrs, n) is Err ==> properties_scan(attrs, m) == properties_scan(attrs, n),
    decreases m - n,
{
    if n < m {
        lemma_properties_scan_prefix(attrs, n, m - 1);
    }
}

/// Finds the class-configuration tag among a declaration's tags; more than
/// one is an error.
pub fn parse_class_attr(attributes: &Vec<Attribute>) -> (r: Result<Option<usize>, ParseError>)
    ensures
        match class_tag_scan(attributes@, attributes@.len() as int) {
            Ok(None) => r matches Ok(None),
            Ok(Some(i)) => r matches Ok(Some(j)) && j == i && j < attributes@.len(),
            Err(e) => r matches Err(f) && f == e,
        },
{
    let class = String::from_str("class");
    let mut found: Option<usize> = None;
    let mut i: usize = 0;
    while i < attributes.len()
        invariant
            i <= attributes.len(),
            class@ == "class"@,
            match class_tag_scan(attributes@, i as int) {
                Ok(None) => found is None,
                Ok(Some(k)) => found matches Some(j) && j == k,
                Err(_) => false,
            },
        decreases attributes.len() - i,
    {
        proof {
            lemma_class_tag_scan_prefix(attributes@, i as int, i as int);
            lemma_class_tag_scan_prefix(attributes@, i + 1, attributes@.len() as int);
        }
        if tag_is(&attributes[i], &class) {
            if found.is_some() {
                return Err(ParseError::DuplicateClassTag { attr_index: i });
            }
            if !attributes[i].well_formed {
                return Err(ParseError::MalformedTag { attr_index: i });
            }
            found = Some(i);
        }
        i = i + 1;
    }
    proof {
        lemma_class_tag_scan_prefix(attributes@, i as int, i as int);
    }
    Ok(found)
}

/// Takes the string literal bound to the key `k` of a property tag.
fn take_lit(args: &Vec<KvEntry>, k: PropertyKey, attr_index: usize) -> (r: Result<String, ParseError>)
    ensures
        match lit_problem(args@, k, attr_index as int) {
            Some(e) => r matches Err(f) && f == e,
            None => r matches Ok(s) && s@ == lit_value(args@, k),
        },
{
    let key = k.text();
    match kv_find(args, &key) {
        None => Err(ParseError::MissingPropertyKey { attr_index, which: k }),
        Some(i) => match &args[i].value {
            KvValue::Lit(s) => Ok(s.clone()),
            _ => Err(ParseError::PropertyKeyNotLiteral { attr_index, which: k }),
        },
    }
}

/// Reads one property-descriptor tag.
pub fn parse_property_attr(attr: &Attribute, attr_index: usize) -> (r: Result<PropertyInfo, ParseError>)
    ensures
        match property_outcome(*attr, attr_index as int) {
            Ok(p) => r matches Ok(q) && q@ == p,
            Err(e) => r matches Err(f) && f == e,
        },
{
    if !attr.well_formed {
        return Err(ParseError::MalformedTag { attr_index });
    }
    let name = take_lit(&attr.args, PropertyKey::Name, attr_index)?;
    let variant_type = take_lit(&attr.args, PropertyKey::VariantType, attr_index)?;
    let getter = take_lit(&attr.args, PropertyKey::Getter, attr_index)?;
    let setter = take_lit(&attr.args, PropertyKey::Setter, attr_index)?;
    let allowed = vec![
        String::from_str("name"),
        String::from_str("variant_type"),
        String::from_str("getter"),
        String::from_str("setter"),
    ];
    assert(allowed@.map_values(|s: String| s@) =~= property_keys());
    if let Some(k) = find_unknown_key(&attr.args, &allowed) {
        return Err(ParseError::UnknownKey { attr_index, key: attr.args[k].key.clone() });
    }
    Ok(PropertyInfo { name, variant_type, getter, setter })
}

/// Reads every property-descriptor tag of a declaration, in order.
pub fn parse_property_attrs(attributes: &Vec<Attribute>) -> (r: Result<Vec<PropertyInfo>, ParseError>)
    ensures
        match properties_scan(attributes@, attributes@.len() as int) {
            Ok(ps) => r matches Ok(v) && v@.map_values(|p: PropertyInfo| p@) == ps,
            Err(e) => r matches Err(f) && f == e,
        },
{
    let property = String::from_str("property");
    let mut out: Vec<PropertyInfo> = Vec::new();
    let mut i: usize = 0;
    while i < attributes.len()
        invariant
            i <= attributes.len(),
            property@ == "property"@,
            properties_scan(attributes@, i as int) matches Ok(ps) && out@.map_values(
                |p: PropertyInfo| p@,
            ) == ps,
        decreases attributes.len() - i,
    {
        proof {
            lemma_properties_scan_prefix(attributes@, i + 1, attributes@.len() as int);
        }
        if tag_is(&attributes[i], &property) {
            let p = parse_property_attr(&attributes[i], i)?;
            out.push(p);
        }
        i = i + 1;
        proof {
            let ps = properties_scan(attributes@, i as int);
            assert(ps matches Ok(s) && out@.map_values(|p: PropertyInfo| p@) =~= s);
        }
    }
    Ok(out)
}

/// Reads the configuration that a declaration's tags give: the base type
/// (the engine's root type by default), the initializer flag, and the
/// property descriptors.
pub fn parse_struct_attributes(attributes: &Vec<Attribute>) -> (r: Result<ClassAttributes, ParseError>)
    ensures
        match struct_attributes(attributes@) {
            Ok(c) => r matches Ok(d) && d@ == c,
            Err(e) => r matches Err(f) && f == e,
        },
{
    let mut base = String::from_str("RefCounted");
    let mut has_generated_init = false;
    if let Some(i) = parse_class_attr(attributes)? {
        let args = &attributes[i].args;
        let base_key = String::from_str("base");
        let init_key = String::from_str("init");
        if let Some(k) = kv_find(args, &base_key) {
            match &args[k].value {
                KvValue::Ident(b) => {
                    base = b.clone();
                },
                _ => {
                    return Err(ParseError::InvalidBaseValue { attr_index: i });
                },
            }
        }
        if let Some(k) = kv_find(args, &init_key) {
            match &args[k].value {
                KvValue::Flag => {
                    has_generated_init = true;
                },
                _ => {
                    return Err(ParseError::InitHasValue { attr_index: i });
                },
            }
        }
        let allowed = vec![base_key, init_key];
        assert(allowed@.map_values(|s: String| s@) =~= class_keys());
        if let Some(k) = find_unknown_key(args, &allowed) {
            return Err(ParseError::UnknownKey { attr_index: i, key: args[k].key.clone() });
        }
    }
    let properties = parse_property_attrs(attributes)?;
    Ok(ClassAttributes { base_ty: base, has_generated_init, properties })
}

} // verus!
