use vstd::prelude::*;

use crate::class_attrs::{
    class_config, class_keys, class_tag_scan, properties_scan, property_keys, property_outcome,
    struct_attributes, PropertyView,
};
use crate::emit::init_assignments;
use crate::error::{key_text, ParseError, PropertyKey};
use crate::expand::{expansion, ExpansionView};
use crate::fields::{classify, fields_scan, has_base_marker, marker_scan};
use crate::syntax::{
    all_keys_known, first_unknown, is_tag, kv_lookup, Attribute, Declaration, KvEntry, NamedField,
    StructDecl,
};

verus! {

/// The field `f` has a base marker among its first `n` tags.
pub open spec fn base_marker_before(f: NamedField, n: int) -> bool {
    exists|k: int| 0 <= k < n && is_tag(#[trigger] f.attributes@[k], "base"@)
}

/// How the marker scan of one field treats the base role.
pub proof fn lemma_marker_scan_base(
    fields: Seq<NamedField>,
    b: Option<usize>,
    ex: Seq<usize>,
    fi: int,
    n: int,
)
    requires
        0 <= fi < fields.len() <= usize::MAX,
        0 <= n <= fields[fi].attributes@.len(),
        b matches Some(p) ==> p < fields.len(),
    ensures
        !base_marker_before(fields[fi], n) ==> (marker_scan(fields, b, ex, fi, n) matches Ok(
            (b1, _),
        ) && b1 == b),
        base_marker_before(fields[fi], n) ==> match b {
            Some(p) => marker_scan(fields, b, ex, fi, n) matches Err(
                ParseError::DuplicateBaseField { previous, .. },
            ) && previous == fields[p as int].name,
            None => (marker_scan(fields, b, ex, fi, n) matches Ok((b1, _)) && b1 == Some(
                fi as usize,
            )) || (marker_scan(fields, b, ex, fi, n) matches Err(
                ParseError::DuplicateBaseField { previous, .. },
            ) && previous == fields[fi].name),
        },
    decreases n,
{
    if n > 0 {
        lemma_marker_scan_base(fields, b, ex, fi, n - 1);
        let a = fields[fi].attributes@[n - 1];
        if !base_marker_before(fields[fi], n - 1) && !is_tag(a, "base"@) {
            assert forall|k: int| 0 <= k < n implies !is_tag(
                #[trigger] fields[fi].attributes@[k],
                "base"@,
            ) by {
                if k < n - 1 {
                    assert(!base_marker_before(fields[fi], n - 1));
                }
            }
        }
        if base_marker_before(fields[fi], n - 1) {
            assert(base_marker_before(fields[fi], n));
        }
        if is_tag(a, "base"@) {
            assert(base_marker_before(fields[fi], n));
        }
    }
}

/// How the scan of the first `n` fields treats the base role, where field `i`
/// is the first that carries a base marker and field `j` a later one.
pub proof fn lemma_fields_scan_base(fields: Seq<NamedField>, i: int, j: int, n: int)
    requires
        0 <= i < j <= fields.len() <= usize::MAX,
        0 <= n <= fields.len(),
        has_base_marker(fields[i]),
        j < fields.len() ==> has_base_marker(fields[j]),
        forall|k: int| 0 <= k < i ==> !has_base_marker(#[trigger] fields[k]),
    ensures
        n <= i ==> (fields_scan(fields, n) matches Ok((b, _, _)) && b is None),
        i < n ==> (fields_scan(fields, n) matches Ok((b, _, _)) && b == Some(i as usize)) || (
        fields_scan(fields, n) matches Err(ParseError::DuplicateBaseField { previous, .. })
            && previous == fields[i].name),
        j < n ==> (fields_scan(fields, n) matches Err(
            ParseError::DuplicateBaseField { previous, .. },
        ) && previous == fields[i].name),
    decreases n,
{
    if n > 0 {
        lemma_fields_scan_base(fields, i, j, n - 1);
        let f = fields[n - 1];
        let len = f.attributes@.len() as int;
        if let Ok((b, ex, plain)) = fields_scan(fields, n - 1) {
            lemma_marker_scan_base(fields, b, ex, n - 1, len);
            if n - 1 < i {
                assert(!has_base_marker(fields[n - 1]));
                assert(!base_marker_before(f, len));
            } else if n - 1 == i || n - 1 == j {
                assert(base_marker_before(f, len));
            }
        }
    }
}

/// The result is a failure on a second base marker that names `name` as the
/// field already holding the role.
pub open spec fn fails_naming_base<T>(r: Result<T, ParseError>, name: String) -> bool {
    match r {
        Err(ParseError::DuplicateBaseField { previous, .. }) => previous == name,
        _ => false,
    }
}

/// Field `i` is the first field that carries a base marker.
pub open spec fn first_base_field(fields: Seq<NamedField>, i: int) -> bool {
    &&& 0 <= i < fields.len()
    &&& has_base_marker(fields[i])
    &&& forall|k: int| 0 <= k < i ==> !has_base_marker(#[trigger] fields[k])
}

/// A field that carries a base marker is preceded by a first one that does.
pub proof fn lemma_first_base_field(fields: Seq<NamedField>, n: int, i: int) -> (first: int)
    requires
        0 <= n <= i < fields.len(),
        has_base_marker(fields[i]),
        forall|k: int| 0 <= k < n ==> !has_base_marker(#[trigger] fields[k]),
    ensures
        n <= first <= i,
        first_base_field(fields, first),
    decreases i - n,
{
    if has_base_marker(fields[n]) {
        n
    } else {
        assert forall|k: int| 0 <= k < n + 1 implies !has_base_marker(#[trigger] fields[k]) by {}
        lemma_first_base_field(fields, n + 1, i)
    }
}

/// Where a later field carries a base marker as well as the first one that
/// does, classification fails, naming the first.
pub proof fn law_second_base_field_fails(fields: Seq<NamedField>, i: int, j: int)
    requires
        fields.len() <= usize::MAX,
        first_base_field(fields, i),
        i < j < fields.len(),
        has_base_marker(fields[j]),
    ensures
        fails_naming_base(classify(fields), fields[i].name),
{
    lemma_fields_scan_base(fields, i, j, fields.len() as int);
}

/// Where a structure's tags are valid and a later field carries a base marker
/// as well as the first one that does, the expansion fails, naming the first.
pub proof fn law_second_base_field_fails_expansion(s: StructDecl, i: int, j: int)
    requires
        struct_attributes(s.attributes@) is Ok,
        s.fields is Named,
        s.fields->Named_0@.len() <= usize::MAX,
        first_base_field(s.fields->Named_0@, i),
        i < j < s.fields->Named_0@.len(),
        has_base_marker(s.fields->Named_0@[j]),
    ensures
        fails_naming_base(expansion(Declaration::Struct(s)), s.fields->Named_0@[i].name),
{
    law_second_base_field_fails(s.fields->Named_0@, i, j);
}

/// With no field carrying a base marker, every field's name is kept, in
/// source order, and there is no base field.
pub proof fn law_plain_fields_keep_order(fields: Seq<NamedField>)
    requires
        fields.len() <= usize::MAX,
        forall|k: int| 0 <= k < fields.len() ==> !has_base_marker(#[trigger] fields[k]),
    ensures
        classify(fields) matches Ok(v) && v.plain == fields.map_values(|f: NamedField| f.name@)
            && v.base is None,
{
    lemma_plain_fields_scan(fields, fields.len() as int);
    assert(fields.take(fields.len() as int) =~= fields);
}

pub proof fn lemma_plain_fields_scan(fields: Seq<NamedField>, n: int)
    requires
        0 <= n <= fields.len() <= usize::MAX,
        forall|k: int| 0 <= k < fields.len() ==> !has_base_marker(#[trigger] fields[k]),
    ensures
        fields_scan(fields, n) matches Ok((b, _, plain)) && b is None && plain == fields.take(
            n,
        ).map_values(|f: NamedField| f.name@),
    decreases n,
{
    if n > 0 {
        lemma_plain_fields_scan(fields, n - 1);
        let len = fields[n - 1].attributes@.len() as int;
        if let Ok((b, ex, plain)) = fields_scan(fields, n - 1) {
            lemma_marker_scan_base(fields, b, ex, n - 1, len);
            assert(!has_base_marker(fields[n - 1]));
        }
        assert(fields.take(n).map_values(|f: NamedField| f.name@) =~= fields.take(n - 1).map_values(
            |f: NamedField| f.name@,
        ).push(fields[n - 1].name@));
    } else {
        assert(fields.take(0).map_values(|f: NamedField| f.name@) =~= Seq::<Seq<char>>::empty());
    }
}

/// The expansion's default constructor assigns the fields' default values.
pub open spec fn default_inits(fields: Seq<NamedField>) -> Seq<(Seq<char>, bool)> {
    fields.map_values(|f: NamedField| (f.name@, false))
}

/// Two structures that differ only in the order of their fields, none of which
/// carries a base marker: the assignments of their default constructors come
/// in the same new order.
pub proof fn law_reordered_fields_reorder_init(s1: StructDecl, s2: StructDecl, perm: Seq<int>)
    requires
        s1.attributes == s2.attributes,
        struct_attributes(s1.attributes@) matches Ok(c) && c.has_generated_init,
        s1.fields is Named,
        s2.fields is Named,
        s1.fields->Named_0@.len() <= usize::MAX,
        s2.fields->Named_0@.len() == s1.fields->Named_0@.len(),
        perm.len() == s1.fields->Named_0@.len(),
        forall|k: int|
            0 <= k < perm.len() ==> 0 <= #[trigger] perm[k] < perm.len()
                && s2.fields->Named_0@[k] == s1.fields->Named_0@[perm[k]],
        forall|k: int|
            0 <= k < s1.fields->Named_0@.len() ==> !has_base_marker(
                #[trigger] s1.fields->Named_0@[k],
            ),
    ensures
        expansion(Declaration::Struct(s1)) matches Ok(v1) && v1.init == Some(
            default_inits(s1.fields->Named_0@),
        ),
        expansion(Declaration::Struct(s2)) matches Ok(v2) && v2.init == Some(
            default_inits(s2.fields->Named_0@),
        ),
        forall|k: int|
            0 <= k < perm.len() ==> #[trigger] default_inits(s2.fields->Named_0@)[k] == default_inits(
                s1.fields->Named_0@,
            )[perm[k]],
{
    let f1 = s1.fields->Named_0@;
    let f2 = s2.fields->Named_0@;
    assert forall|k: int| 0 <= k < f2.len() implies !has_base_marker(#[trigger] f2[k]) by {
        assert(f2[k] == f1[perm[k]]);
    }
    law_init_without_base(s1);
    law_init_without_base(s2);
}

/// With the initializer flag set and no field carrying a base marker, the
/// default constructor assigns every field its default value, in source
/// order, and no field the base handle; there is no delegation.
pub proof fn law_init_without_base(s: StructDecl)
    requires
        struct_attributes(s.attributes@) matches Ok(c) && c.has_generated_init,
        s.fields is Named,
        s.fields->Named_0@.len() <= usize::MAX,
        forall|k: int|
            0 <= k < s.fields->Named_0@.len() ==> !has_base_marker(#[trigger] s.fields->Named_0@[k]),
    ensures
        expansion(Declaration::Struct(s)) matches Ok(v) && v.init == Some(
            default_inits(s.fields->Named_0@),
        ) && v.deref is None,
{
    let f = s.fields->Named_0@;
    law_plain_fields_keep_order(f);
    if let Ok(v) = classify(f) {
        assert(init_assignments(v) =~= default_inits(f));
    }
}

/// With a field carrying the base marker and the initializer flag unset, no
/// constructor is generated, and the delegation targets that field.
pub proof fn law_base_without_init(s: StructDecl, i: int)
    requires
        struct_attributes(s.attributes@) matches Ok(c) && !c.has_generated_init,
        s.fields is Named,
        s.fields->Named_0@.len() <= usize::MAX,
        0 <= i < s.fields->Named_0@.len(),
        has_base_marker(s.fields->Named_0@[i]),
        expansion(Declaration::Struct(s)) is Ok,
    ensures
        expansion(Declaration::Struct(s)) matches Ok(v) && v.init is None && v.deref == Some(
            s.fields->Named_0@[i].name@,
        ),
{
    let f = s.fields->Named_0@;
    let first = lemma_first_base_field(f, 0, i);
    if first < i {
        law_second_base_field_fails(f, first, i);
    }
    lemma_fields_scan_base(f, i, f.len() as int, f.len() as int);
}

/// The well-formed class-configuration tag at `i` is the only one of the
/// declaration's tags.
pub open spec fn only_class_tag(attrs: Seq<Attribute>, i: int) -> bool {
    &&& 0 <= i < attrs.len()
    &&& is_tag(attrs[i], "class"@)
    &&& attrs[i].well_formed
    &&& forall|k: int| 0 <= k < attrs.len() && k != i ==> !is_tag(#[trigger] attrs[k], "class"@)
}

pub proof fn lemma_class_tag_scan_only(attrs: Seq<Attribute>, i: int, n: int)
    requires
        only_class_tag(attrs, i),
        0 <= n <= attrs.len(),
    ensures
        n <= i ==> class_tag_scan(attrs, n) == Ok::<Option<int>, ParseError>(None),
        i < n ==> class_tag_scan(attrs, n) == Ok::<Option<int>, ParseError>(Some(i)),
    decreases n,
{
    if n > 0 {
        lemma_class_tag_scan_only(attrs, i, n - 1);
    }
}

pub proof fn lemma_class_tag_scan_two(attrs: Seq<Attribute>, i: int, j: int, n: int)
    requires
        0 <= i < j < attrs.len(),
        is_tag(attrs[i], "class"@),
        is_tag(attrs[j], "class"@),
        forall|k: int| 0 <= k < attrs.len() && is_tag(#[trigger] attrs[k], "class"@) ==> attrs[k].well_formed,
        0 <= n <= attrs.len(),
    ensures
        class_tag_scan(attrs, n) is Err ==> (class_tag_scan(attrs, n) matches Err(
            ParseError::DuplicateClassTag { .. },
        )),
        i < n ==> ((class_tag_scan(attrs, n) matches Ok(Some(_))) || (class_tag_scan(
            attrs,
            n,
        ) matches Err(ParseError::DuplicateClassTag { .. }))),
        j < n ==> class_tag_scan(attrs, n) matches Err(ParseError::DuplicateClassTag { .. }),
    decreases n,
{
    if n > 0 {
        lemma_class_tag_scan_two(attrs, i, j, n - 1);
    }
}

/// The values of the recognised keys of the class tag have the right shape:
/// an identifier for the base type, none for the initializer flag.
pub open spec fn class_values_valid(args: Seq<KvEntry>) -> bool {
    &&& kv_lookup(args, "base"@) is Some ==> kv_lookup(args, "base"@)->Some_0 is Ident
    &&& kv_lookup(args, "init"@) is Some ==> kv_lookup(args, "init"@)->Some_0 is Flag
}

/// A class tag, the only one, whose recognised keys are valid: with a key it
/// does not recognise the expansion fails, naming the first such key; with
/// none the configuration is read.
pub proof fn law_unknown_class_key(s: StructDecl, i: int)
    requires
        only_class_tag(s.attributes@, i),
        class_values_valid(s.attributes@[i].args@),
    ensures
        !all_keys_known(s.attributes@[i].args@, class_keys()) ==> expansion(Declaration::Struct(s))
            == Err::<ExpansionView, ParseError>(
            ParseError::UnknownKey {
                attr_index: i as usize,
                key: s.attributes@[i].args@[first_unknown(
                    s.attributes@[i].args@,
                    class_keys(),
                )].key,
            },
        ),
        all_keys_known(s.attributes@[i].args@, class_keys()) ==> class_config(s.attributes@) is Ok,
{
    lemma_class_tag_scan_only(s.attributes@, i, s.attributes@.len() as int);
}

/// Two well-formed class-configuration tags on one declaration: the
/// expansion fails on the second.
pub proof fn law_second_class_tag_fails(s: StructDecl, i: int, j: int)
    requires
        0 <= i < j < s.attributes@.len(),
        is_tag(s.attributes@[i], "class"@),
        is_tag(s.attributes@[j], "class"@),
        forall|k: int|
            0 <= k < s.attributes@.len() && is_tag(#[trigger] s.attributes@[k], "class"@)
                ==> s.attributes@[k].well_formed,
    ensures
        expansion(Declaration::Struct(s)) matches Err(ParseError::DuplicateClassTag { .. }),
{
    lemma_class_tag_scan_two(s.attributes@, i, j, s.attributes@.len() as int);
}

/// The key `k` of a property tag holds a string literal.
pub open spec fn has_lit(args: Seq<KvEntry>, k: PropertyKey) -> bool {
    kv_lookup(args, key_text(k)) is Some && kv_lookup(args, key_text(k))->Some_0 is Lit
}

/// A well-formed property tag that lacks exactly one of its four keys, the others being
/// string literals, fails, citing the key it lacks.
pub proof fn law_missing_property_key(a: Attribute, attr_index: int, k: PropertyKey)
    requires
        a.well_formed,
        kv_lookup(a.args@, key_text(k)) is None,
        forall|o: PropertyKey| o != k ==> has_lit(a.args@, o),
    ensures
        property_outcome(a, attr_index) == Err::<PropertyView, ParseError>(
            ParseError::MissingPropertyKey { attr_index: attr_index as usize, which: k },
        ),
{
    assert(k != PropertyKey::Name ==> has_lit(a.args@, PropertyKey::Name));
    assert(k != PropertyKey::VariantType ==> has_lit(a.args@, PropertyKey::VariantType));
    assert(k != PropertyKey::Getter ==> has_lit(a.args@, PropertyKey::Getter));
}

/// The property tag at `i` is the only one of the declaration's tags.
pub open spec fn only_property_tag(attrs: Seq<Attribute>, i: int) -> bool {
    &&& 0 <= i < attrs.len()
    &&& is_tag(attrs[i], "property"@)
    &&& forall|k: int|
        0 <= k < attrs.len() && k != i ==> !is_tag(#[trigger] attrs[k], "property"@)
}

pub proof fn lemma_properties_scan_only(attrs: Seq<Attribute>, i: int, n: int)
    requires
        only_property_tag(attrs, i),
        0 <= n <= attrs.len(),
    ensures
        n <= i ==> properties_scan(attrs, n) == Ok::<Seq<PropertyView>, ParseError>(Seq::empty()),
        i < n ==> properties_scan(attrs, n) == match property_outcome(attrs[i], i) {
            Ok(p) => Ok::<Seq<PropertyView>, ParseError>(seq![p]),
            Err(e) => Err(e),
        },
    decreases n,
{
    if n > 0 {
        lemma_properties_scan_only(attrs, i, n - 1);
        if n - 1 == i {
            if let Ok(p) = property_outcome(attrs[i], i) {
                assert(Seq::<PropertyView>::empty().push(p) =~= seq![p]);
            }
        }
    }
}

/// A declaration whose class configuration is valid and whose only property
/// tag is well formed but lacks exactly one of its four keys, the others being
/// string literals: the expansion fails, citing the key it lacks.
pub proof fn law_missing_property_key_expansion(s: StructDecl, i: int, k: PropertyKey)
    requires
        class_config(s.attributes@) is Ok,
        only_property_tag(s.attributes@, i),
        s.attributes@[i].well_formed,
        kv_lookup(s.attributes@[i].args@, key_text(k)) is None,
        forall|o: PropertyKey| o != k ==> has_lit(s.attributes@[i].args@, o),
    ensures
        expansion(Declaration::Struct(s)) == Err::<ExpansionView, ParseError>(
            ParseError::MissingPropertyKey { attr_index: i as usize, which: k },
        ),
{
    law_missing_property_key(s.attributes@[i], i, k);
    lemma_properties_scan_only(s.attributes@, i, s.attributes@.len() as int);
}

/// A well-formed property tag with all four keys as string literals and no other key
/// gives a descriptor that holds the four literals as written.
pub proof fn law_complete_property_tag(a: Attribute, attr_index: int)
    requires
        a.well_formed,
        forall|o: PropertyKey| has_lit(a.args@, o),
        all_keys_known(a.args@, property_keys()),
    ensures
        property_outcome(a, attr_index) == Ok::<PropertyView, ParseError>(
            PropertyView {
                name: kv_lookup(a.args@, "name"@)->Some_0->Lit_0@,
                variant_type: kv_lookup(a.args@, "variant_type"@)->Some_0->Lit_0@,
                getter: kv_lookup(a.args@, "getter"@)->Some_0->Lit_0@,
                setter: kv_lookup(a.args@, "setter"@)->Some_0->Lit_0@,
            },
        ),
{
    assert(has_lit(a.args@, PropertyKey::Name));
    assert(has_lit(a.args@, PropertyKey::VariantType));
    assert(has_lit(a.args@, PropertyKey::Getter));
    assert(has_lit(a.args@, PropertyKey::Setter));
}

/// The registrations of an expansion are the descriptors of the property
/// tags, one for each tag, in the order of the tags.
pub proof fn law_registrations_follow_tags(s: StructDecl)
    requires
        expansion(Declaration::Struct(s)) is Ok,
    ensures
        properties_scan(s.attributes@, s.attributes@.len() as int) matches Ok(ps)
            && expansion(Declaration::Struct(s)) matches Ok(v) && v.properties == if ps.len() > 0 {
            Some(ps)
        } else {
            None
        },
{
}

/// The names of the fields that carry no base marker, in source order.
pub open spec fn plain_names(fields: Seq<NamedField>) -> Seq<Seq<char>>
    decreases fields.len(),
{
    if fields.len() == 0 {
        Seq::empty()
    } else if has_base_marker(fields.last()) {
        plain_names(fields.drop_last())
    } else {
        plain_names(fields.drop_last()).push(fields.last().name@)
    }
}

pub proof fn lemma_plain_names_scan(fields: Seq<NamedField>, n: int)
    requires
        0 <= n <= fields.len(),
        fields_scan(fields, n) is Ok,
    ensures
        fields_scan(fields, n) matches Ok((_, _, plain)) && plain == plain_names(fields.take(n)),
    decreases n,
{
    if n > 0 {
        lemma_plain_names_scan(fields, n - 1);
        assert(fields.take(n).drop_last() =~= fields.take(n - 1));
        assert(fields.take(n).last() == fields[n - 1]);
    } else {
        assert(fields.take(0) =~= Seq::<NamedField>::empty());
    }
}

/// Classification keeps the fields without a base marker in source order,
/// wherever the base field stands: they are not sorted.
pub proof fn law_plain_fields_in_source_order(fields: Seq<NamedField>)
    requires
        classify(fields) is Ok,
    ensures
        classify(fields) matches Ok(v) && v.plain == plain_names(fields),
{
    lemma_plain_names_scan(fields, fields.len() as int);
    assert(fields.take(fields.len() as int) =~= fields);
}

/// Two classified declarations whose fields without a base marker are the same
/// names in an order `perm` apart: the default constructors assign them in
/// that same order apart, and each assigns its base field, if any, last.
pub proof fn law_reordered_plain_fields(f1: Seq<NamedField>, f2: Seq<NamedField>, perm: Seq<int>)
    requires
        classify(f1) is Ok,
        classify(f2) is Ok,
        perm.len() == plain_names(f1).len(),
        plain_names(f2).len() == plain_names(f1).len(),
        forall|k: int|
            0 <= k < perm.len() ==> 0 <= #[trigger] perm[k] < perm.len() && plain_names(f2)[k]
                == plain_names(f1)[perm[k]],
    ensures
        classify(f1) matches Ok(v1) && classify(f2) matches Ok(v2) && forall|k: int|
            0 <= k < perm.len() ==> #[trigger] init_assignments(v2)[k] == init_assignments(
                v1,
            )[perm[k]],
        classify(f2) matches Ok(v2) && (v2.base matches Some(b) ==> init_assignments(v2).last() == (
        b.name, true) && init_assignments(v2).len() == perm.len() + 1),
{
    law_plain_fields_in_source_order(f1);
    law_plain_fields_in_source_order(f2);
}

/// No field carries more than one base marker, and no two fields carry one.
pub open spec fn single_base_marker(fields: Seq<NamedField>) -> bool {
    forall|i: int, j: int, k1: int, k2: int|
        0 <= i < fields.len() && 0 <= j < fields.len() && 0 <= k1 < fields[i].attributes@.len() && 0
            <= k2 < fields[j].attributes@.len() && is_tag(
            #[trigger] fields[i].attributes@[k1],
            "base"@,
        ) && is_tag(#[trigger] fields[j].attributes@[k2], "base"@) ==> i == j && k1 == k2
}

pub proof fn lemma_marker_scan_single(
    fields: Seq<NamedField>,
    b: Option<usize>,
    ex: Seq<usize>,
    fi: int,
    n: int,
)
    requires
        0 <= fi < fields.len() <= usize::MAX,
        0 <= n <= fields[fi].attributes@.len(),
        single_base_marker(fields),
        b is Some ==> !base_marker_before(fields[fi], n),
    ensures
        marker_scan(fields, b, ex, fi, n) is Ok,
        base_marker_before(fields[fi], n) ==> (marker_scan(fields, b, ex, fi, n) matches Ok(
            (b1, _),
        ) && b1 == Some(fi as usize)),
        !base_marker_before(fields[fi], n) ==> (marker_scan(fields, b, ex, fi, n) matches Ok(
            (b1, _),
        ) && b1 == b),
    decreases n,
{
    if n > 0 {
        let a = fields[fi].attributes@[n - 1];
        if is_tag(a, "base"@) {
            assert(base_marker_before(fields[fi], n));
            assert(!base_marker_before(fields[fi], n - 1)) by {
                if base_marker_before(fields[fi], n - 1) {
                    let k = choose|k: int|
                        0 <= k < n - 1 && is_tag(#[trigger] fields[fi].attributes@[k], "base"@);
                    assert(is_tag(fields[fi].attributes@[k], "base"@));
                }
            }
        } else if base_marker_before(fields[fi], n) {
            let k = choose|k: int| 0 <= k < n && is_tag(#[trigger] fields[fi].attributes@[k], "base"@);
            assert(base_marker_before(fields[fi], n - 1));
        } else {
            assert(!base_marker_before(fields[fi], n - 1));
        }
        lemma_marker_scan_single(fields, b, ex, fi, n - 1);
    }
}

pub proof fn lemma_fields_scan_single(fields: Seq<NamedField>, n: int)
    requires
        0 <= n <= fields.len() <= usize::MAX,
        single_base_marker(fields),
    ensures
        fields_scan(fields, n) matches Ok((b, _, _)) && (b matches Some(k) ==> k < n
            && has_base_marker(fields[k as int])) && (b is None ==> forall|k: int|
            0 <= k < n ==> !has_base_marker(#[trigger] fields[k])),
    decreases n,
{
    if n > 0 {
        lemma_fields_scan_single(fields, n - 1);
        let f = fields[n - 1];
        let len = f.attributes@.len() as int;
        if let Ok((b, ex, plain)) = fields_scan(fields, n - 1) {
            if let Some(k) = b {
                if base_marker_before(f, len) {
                    let k1 = choose|k1: int|
                        0 <= k1 < fields[k as int].attributes@.len() && is_tag(
                            #[trigger] fields[k as int].attributes@[k1],
                            "base"@,
                        );
                    let k2 = choose|k2: int| 0 <= k2 < len && is_tag(#[trigger] f.attributes@[k2], "base"@);
                    assert(is_tag(fields[k as int].attributes@[k1], "base"@));
                    assert(is_tag(fields[n - 1].attributes@[k2], "base"@));
                }
            }
            lemma_marker_scan_single(fields, b, ex, n - 1, len);
            if base_marker_before(f, len) {
                assert(has_base_marker(fields[n - 1]));
            } else {
                assert(!has_base_marker(fields[n - 1]));
            }
        }
    }
}

/// The class-configuration tags are valid: at most one, well formed, with
/// recognised keys whose values have the right shape.
pub open spec fn valid_class_tags(attrs: Seq<Attribute>) -> bool {
    &&& forall|j: int, k: int|
        0 <= j < attrs.len() && 0 <= k < attrs.len() && is_tag(#[trigger] attrs[j], "class"@)
            && is_tag(#[trigger] attrs[k], "class"@) ==> j == k
    &&& forall|k: int|
        0 <= k < attrs.len() && is_tag(#[trigger] attrs[k], "class"@) ==> attrs[k].well_formed
            && class_values_valid(attrs[k].args@) && all_keys_known(attrs[k].args@, class_keys())
}

/// The property tag is well formed and holds exactly its four keys, each a
/// string literal.
pub open spec fn complete_property(a: Attribute) -> bool {
    &&& a.well_formed
    &&& forall|o: PropertyKey| has_lit(a.args@, o)
    &&& all_keys_known(a.args@, property_keys())
}

/// Every property tag is complete.
pub open spec fn valid_property_tags(attrs: Seq<Attribute>) -> bool {
    forall|k: int|
        0 <= k < attrs.len() && is_tag(#[trigger] attrs[k], "property"@) ==> complete_property(
            attrs[k],
        )
}

/// The descriptor as written in a complete property tag.
pub open spec fn written_property(a: Attribute) -> PropertyView {
    PropertyView {
        name: kv_lookup(a.args@, "name"@)->Some_0->Lit_0@,
        variant_type: kv_lookup(a.args@, "variant_type"@)->Some_0->Lit_0@,
        getter: kv_lookup(a.args@, "getter"@)->Some_0->Lit_0@,
        setter: kv_lookup(a.args@, "setter"@)->Some_0->Lit_0@,
    }
}

/// The descriptors of the property tags as written, in the order of the tags.
pub open spec fn written_properties(attrs: Seq<Attribute>) -> Seq<PropertyView>
    decreases attrs.len(),
{
    if attrs.len() == 0 {
        Seq::empty()
    } else if is_tag(attrs.last(), "property"@) {
        written_properties(attrs.drop_last()).push(written_property(attrs.last()))
    } else {
        written_properties(attrs.drop_last())
    }
}

pub proof fn lemma_written_properties_scan(attrs: Seq<Attribute>, n: int)
    requires
        0 <= n <= attrs.len(),
        valid_property_tags(attrs),
    ensures
        properties_scan(attrs, n) == Ok::<Seq<PropertyView>, ParseError>(
            written_properties(attrs.take(n)),
        ),
    decreases n,
{
    if n > 0 {
        lemma_written_properties_scan(attrs, n - 1);
        assert(attrs.take(n).drop_last() =~= attrs.take(n - 1));
        assert(attrs.take(n).last() == attrs[n - 1]);
        if is_tag(attrs[n - 1], "property"@) {
            law_complete_property_tag(attrs[n - 1], n - 1);
        }
    } else {
        assert(attrs.take(0) =~= Seq::<Attribute>::empty());
    }
}

/// Where every property tag is complete, the descriptors are the four
/// literals of each tag as written, one for each tag, in the order of the tags.
pub proof fn law_properties_as_written(attrs: Seq<Attribute>)
    requires
        valid_property_tags(attrs),
    ensures
        properties_scan(attrs, attrs.len() as int) == Ok::<Seq<PropertyView>, ParseError>(
            written_properties(attrs),
        ),
{
    lemma_written_properties_scan(attrs, attrs.len() as int);
    assert(attrs.take(attrs.len() as int) =~= attrs);
}

pub proof fn lemma_class_tag_scan_none(attrs: Seq<Attribute>, n: int)
    requires
        0 <= n <= attrs.len(),
        forall|k: int| 0 <= k < attrs.len() ==> !is_tag(#[trigger] attrs[k], "class"@),
    ensures
        class_tag_scan(attrs, n) == Ok::<Option<int>, ParseError>(None),
    decreases n,
{
    if n > 0 {
        lemma_class_tag_scan_none(attrs, n - 1);
    }
}

/// Where the class tags are valid, the configuration is read; the initializer
/// flag is set exactly where a class tag holds the `init` key.
pub proof fn lemma_valid_class_config(attrs: Seq<Attribute>)
    requires
        valid_class_tags(attrs),
    ensures
        class_config(attrs) matches Ok((_, init)) && (init <==> exists|k: int|
            0 <= k < attrs.len() && is_tag(#[trigger] attrs[k], "class"@) && kv_lookup(
                attrs[k].args@,
                "init"@,
            ) is Some),
{
    if exists|k: int| 0 <= k < attrs.len() && is_tag(#[trigger] attrs[k], "class"@) {
        let i = choose|k: int| 0 <= k < attrs.len() && is_tag(#[trigger] attrs[k], "class"@);
        assert(only_class_tag(attrs, i));
        lemma_class_tag_scan_only(attrs, i, attrs.len() as int);
    } else {
        lemma_class_tag_scan_none(attrs, attrs.len() as int);
    }
}

/// A declaration whose tags are all valid, and whose fields are named with at
/// most one base marker among them, or absent: the expansion succeeds.
pub proof fn law_valid_declaration_expands(s: StructDecl)
    requires
        valid_class_tags(s.attributes@),
        valid_property_tags(s.attributes@),
        !(s.fields is Tuple),
        s.fields is Named ==> s.fields->Named_0@.len() <= usize::MAX && single_base_marker(
            s.fields->Named_0@,
        ),
    ensures
        expansion(Declaration::Struct(s)) is Ok,
{
    lemma_valid_class_config(s.attributes@);
    law_properties_as_written(s.attributes@);
    if s.fields is Named {
        lemma_fields_scan_single(s.fields->Named_0@, s.fields->Named_0@.len() as int);
    }
}

/// A valid declaration without the initializer key whose field `i` carries
/// the only base marker: no constructor is generated, the plugin record has
/// no constructor reference, and the delegation targets field `i`.
pub proof fn law_base_field_without_init(s: StructDecl, i: int)
    requires
        valid_class_tags(s.attributes@),
        valid_property_tags(s.attributes@),
        forall|k: int|
            0 <= k < s.attributes@.len() && is_tag(#[trigger] s.attributes@[k], "class"@)
                ==> kv_lookup(s.attributes@[k].args@, "init"@) is None,
        s.fields is Named,
        s.fields->Named_0@.len() <= usize::MAX,
        single_base_marker(s.fields->Named_0@),
        0 <= i < s.fields->Named_0@.len(),
        has_base_marker(s.fields->Named_0@[i]),
    ensures
        expansion(Declaration::Struct(s)) matches Ok(v) && v.init is None && !v.plugin_has_create_fn
            && v.deref == Some(s.fields->Named_0@[i].name@),
{
    let f = s.fields->Named_0@;
    law_valid_declaration_expands(s);
    lemma_valid_class_config(s.attributes@);
    lemma_fields_scan_single(f, f.len() as int);
    if let Ok((b, _, _)) = fields_scan(f, f.len() as int) {
        if let Some(k) = b {
            let k1 = choose|k1: int|
                0 <= k1 < f[k as int].attributes@.len() && is_tag(#[trigger] f[k as int].attributes@[k1], "base"@);
            let k2 = choose|k2: int| 0 <= k2 < f[i].attributes@.len() && is_tag(#[trigger] f[i].attributes@[k2], "base"@);
            assert(is_tag(f[k as int].attributes@[k1], "base"@));
            assert(is_tag(f[i].attributes@[k2], "base"@));
        } else {
            assert(!has_base_marker(f[i]));
        }
    }
}

} // verus!
