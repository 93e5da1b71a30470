use vstd::prelude::*;

use crate::error::ParseError;
use crate::syntax::{is_tag, tag_is, NamedField, StructDecl, StructFields};

verus! {

/// A field that carries a marker: its name and its type.
#[derive(Debug)]
pub struct ExportedField {
    pub name: String,
    pub ty: String,
}

pub struct ExportedFieldView {
    pub name: Seq<char>,
    pub ty: Seq<char>,
}

impl View for ExportedField {
    type V = ExportedFieldView;

    open spec fn view(&self) -> ExportedFieldView {
        ExportedFieldView { name: self.name@, ty: self.ty@ }
    }
}

pub open spec fn field_view(f: NamedField) -> ExportedFieldView {
    ExportedFieldView { name: f.name@, ty: f.ty@ }
}

impl ExportedField {
    pub fn new(field: &NamedField) -> (r: ExportedField)
        ensures
            r@ == field_view(*field),
    {
        ExportedField { name: field.name.clone(), ty: field.ty.clone() }
    }
}

/// The fields of a declaration, classified.
#[derive(Debug)]
pub struct Fields {
    /// Every field without the base marker, in source order.
    pub all_field_names: Vec<String>,
    /// The field that carries the base marker, if one does.
    pub base_field: Option<ExportedField>,
    /// One entry for each export marker, in source order.
    pub exported_fields: Vec<ExportedField>,
}

pub struct FieldsView {
    pub plain: Seq<Seq<char>>,
    pub base: Option<ExportedFieldView>,
    pub exported: Seq<ExportedFieldView>,
}

impl View for Fields {
    type V = FieldsView;

    open spec fn view(&self) -> FieldsView {
        FieldsView {
            plain: self.all_field_names@.map_values(|s: String| s@),
            base: match self.base_field {
                Some(f) => Some(f@),
                None => None,
            },
            exported: self.exported_fields@.map_values(|f: ExportedField| f@),
        }
    }
}

/// Some tag of the field is the base marker.
pub open spec fn has_base_marker(f: NamedField) -> bool {
    exists|k: int| 0 <= k < f.attributes@.len() && is_tag(#[trigger] f.attributes@[k], "base"@)
}

/// Reads the first `n` tags of field `fi`, starting from the base field `b`
/// and the export markers `ex` (both as field indices) found before it.
pub open spec fn marker_scan(
    fields: Seq<NamedField>,
    b: Option<usize>,
    ex: Seq<usize>,
    fi: int,
    n: int,
) -> Result<(Option<usize>, Seq<usize>), ParseError>
    decreases n,
{
    if n <= 0 {
        Ok((b, ex))
    } else {
        match marker_scan(fields, b, ex, fi, n - 1) {
            Err(e) => Err(e),
            Ok((b1, ex1)) => {
                let a = fields[fi].attributes@[n - 1];
                if is_tag(a, "base"@) {
                    match b1 {
                        Some(p) => Err(
                            ParseError::DuplicateBaseField {
                                field_index: fi as usize,
                                attr_index: (n - 1) as usize,
                                previous: fields[p as int].name,
                            },
                        ),
                        None => Ok((Some(fi as usize), ex1)),
                    }
                } else if is_tag(a, "export"@) {
                    Ok((b1, ex1.push(fi as usize)))
                } else {
                    Ok((b1, ex1))
                }
            },
        }
    }
}

/// Classifies the first `n` fields: the base field and the export markers as
/// field indices, and the names of the fields without the base marker.
pub open spec fn fields_scan(fields: Seq<NamedField>, n: int) -> Result<
    (Option<usize>, Seq<usize>, Seq<Seq<char>>),
    ParseError,
>
    decreases n,
{
    if n <= 0 {
        Ok((None, Seq::empty(), Seq::empty()))
    } else {
        match fields_scan(fields, n - 1) {
            Err(e) => Err(e),
            Ok((b, ex, plain)) => match marker_scan(
                fields,
                b,
                ex,
                n - 1,
                fields[n - 1].attributes@.len() as int,
            ) {
                Err(e) => Err(e),
                Ok((b1, ex1)) => Ok(
                    (
                        b1,
                        ex1,
                        if has_base_marker(fields[n - 1]) {
                            plain
                        } else {
                            plain.push(fields[n - 1].name@)
                        },
                    ),
                ),
            },
        }
    }
}

/// The classification of named fields.
pub open spec fn classify(fields: Seq<NamedField>) -> Result<FieldsView, ParseError> {
    match fields_scan(fields, fields.len() as int) {
        Err(e) => Err(e),
        Ok((b, ex, plain)) => Ok(
            FieldsView {
                plain,
                base: match b {
                    Some(k) => Some(field_view(fields[k as int])),
                    None => None,
                },
                exported: ex.map_values(|k: usize| field_view(fields[k as int])),
            },
        ),
    }
}

/// The classification of a structure's fields: a unit structure has none,
/// and positional fields are refused.
pub open spec fn struct_fields(fields: StructFields) -> Result<FieldsView, ParseError> {
    match fields {
        StructFields::Unit => Ok(
            FieldsView { plain: Seq::empty(), base: None, exported: Seq::empty() },
        ),
        StructFields::Tuple => Err(ParseError::TupleStruct),
        StructFields::Named(v) => classify(v@),
    }
}

pub proof fn lemma_marker_scan_prefix(
    fields: Seq<NamedField>,
    b: Option<usize>,
    ex: Seq<usize>,
    fi: int,
    n: int,
    m: int,
)
    requires
        0 <= n <= m,
    ensures
        marker_scan(fields, b, ex, fi, n) is Err ==> marker_scan(fields, b, ex, fi, m)
            == marker_scan(fields, b, ex, fi, n),
    decreases m - n,
{
    if n < m {
        lemma_marker_scan_prefix(fields, b, ex, fi, n, m - 1);
    }
}

pub proof fn lemma_fields_scan_prefix(fields: Seq<NamedField>, n: int, m: int)
    requires
        0 <= n <= m <= usize::MAX,
    ensures
        fields_scan(fields, n) is Err ==> fields_scan(fields, m) == fields_scan(fields, n),
        fields_scan(fields, n) matches Ok((b, ex, plain)) ==> (b matches Some(k) ==> k < n)
            && forall|j: int| 0 <= j < ex.len() ==> ex[j] < n,
    decreases m - n, n,
{
    if n < m {
        lemma_fields_scan_prefix(fields, n, m - 1);
    } else if n > 0 {
        lemma_fields_scan_prefix(fields, n - 1, n - 1);
        if let Ok((b, ex, plain)) = fields_scan(fields, n - 1) {
            lemma_marker_scan_bounds(fields, b, ex, n - 1, fields[n - 1].attributes@.len() as int);
        }
    }
}

/// The marker scan of field `fi` only adds field `fi`.
pub proof fn lemma_marker_scan_bounds(
    fields: Seq<NamedField>,
    b: Option<usize>,
    ex: Seq<usize>,
    fi: int,
    n: int,
)
    requires
        0 <= fi < usize::MAX,
        b matches Some(k) ==> k < fi,
        forall|j: int| 0 <= j < ex.len() ==> ex[j] < fi,
    ensures
        marker_scan(fields, b, ex, fi, n) matches Ok((b1, ex1)) ==> (b1 matches Some(k) ==> k <= fi)
            && forall|j: int| 0 <= j < ex1.len() ==> ex1[j] <= fi,
    decreases n,
{
    if n > 0 {
        lemma_marker_scan_bounds(fields, b, ex, fi, n - 1);
    }
}

/// Classifies the named fields of a declaration, in source order.
pub fn classify_fields(fields: &Vec<NamedField>) -> (r: Result<Fields, ParseError>)
    ensures
        match classify(fields@) {
            Ok(v) => r matches Ok(out) && out@ == v,
            Err(e) => r matches Err(f) && f == e,
        },
{
    let base_tag = String::from_str("base");
    let export_tag = String::from_str("export");
    let mut all_field_names: Vec<String> = Vec::new();
    let mut exported_fields: Vec<ExportedField> = Vec::new();
    let mut base: Option<usize> = None;
    let ghost mut ex: Seq<usize> = Seq::empty();
    let mut i: usize = 0;
    while i < fields.len()
        invariant
            i <= fields.len(),
            base_tag@ == "base"@,
            export_tag@ == "export"@,
            fields_scan(fields@, i as int) matches Ok((b, ex0, plain)) && b == base && ex0 == ex
                && all_field_names@.map_values(|s: String| s@) == plain,
            exported_fields@.len() == ex.len(),
            forall|k: int|
                0 <= k < ex.len() ==> #[trigger] exported_fields@[k]@ == field_view(
                    fields@[ex[k] as int],
                ),
            base matches Some(k) ==> k < i,
            forall|j: int| 0 <= j < ex.len() ==> ex[j] < i,
        decreases fields.len() - i,
    {
        let field = &fields[i];
        let ghost b0 = base;
        let ghost ex0 = ex;
        let mut is_base = false;
        let mut j: usize = 0;
        while j < field.attributes.len()
            invariant
                i < fields.len(),
                j <= field.attributes.len(),
                *field == fields@[i as int],
                base_tag@ == "base"@,
                export_tag@ == "export"@,
                fields_scan(fields@, i as int) matches Ok((b, ex1, plain)) && b == b0 && ex1 == ex0,
                marker_scan(fields@, b0, ex0, i as int, j as int) matches Ok((b1, ex1)) && b1 == base
                    && ex1 == ex,
                exported_fields@.len() == ex.len(),
                forall|k: int|
                    0 <= k < ex.len() ==> #[trigger] exported_fields@[k]@ == field_view(
                        fields@[ex[k] as int],
                    ),
                base matches Some(k) ==> k <= i,
                forall|k: int| 0 <= k < ex.len() ==> ex[k] <= i,
                is_base <==> exists|k: int|
                    0 <= k < j && is_tag(#[trigger] field.attributes@[k], "base"@),
            decreases field.attributes.len() - j,
        {
            let attr = &field.attributes[j];
            if tag_is(attr, &base_tag) {
                is_base = true;
                if let Some(p) = base {
                    proof {
                        lemma_marker_scan_prefix(
                            fields@,
                            b0,
                            ex0,
                            i as int,
                            j + 1,
                            field.attributes@.len() as int,
                        );
                        lemma_fields_scan_prefix(fields@, i + 1, fields@.len() as int);
                    }
                    return Err(
                        ParseError::DuplicateBaseField {
                            field_index: i,
                            attr_index: j,
                            previous: fields[p].name.clone(),
                        },
                    );
                }
                base = Some(i);
            } else if tag_is(attr, &export_tag) {
                let ghost before = exported_fields@;
                let e = ExportedField::new(field);
                exported_fields.push(e);
                proof {
                    ex = ex.push(i);
                }
            }
            j = j + 1;
        }
        if !is_base {
            all_field_names.push(field.name.clone());
        }
        i = i + 1;
        proof {
            let s = fields_scan(fields@, i as int);
            assert(s matches Ok((b, e, plain)) && all_field_names@.map_values(|s: String| s@)
                =~= plain);
        }
    }
    proof {
        let s = fields_scan(fields@, i as int);
        if let Ok((b, e, plain)) = s {
            assert(exported_fields@.map_values(|f: ExportedField| f@) =~= e.map_values(
                |k: usize| field_view(fields@[k as int]),
            ));
        }
    }
    let base_field = match base {
        Some(k) => Some(ExportedField::new(&fields[k])),
        None => None,
    };
    Ok(Fields { all_field_names, base_field, exported_fields })
}

/// Classifies the fields of a structure declaration.
pub fn parse_fields(class: &StructDecl) -> (r: Result<Fields, ParseError>)
    ensures
        match struct_fields(class.fields) {
            Ok(v) => r matches Ok(out) && out@ == v,
            Err(e) => r matches Err(f) && f == e,
        },
{
    match &class.fields {
        StructFields::Unit => {
            let out = Fields {
                all_field_names: Vec::new(),
                base_field: None,
                exported_fields: Vec::new(),
            };
            assert(out@.plain =~= Seq::<Seq<char>>::empty());
            assert(out@.exported =~= Seq::<ExportedFieldView>::empty());
            Ok(out)
        },
        StructFields::Tuple => Err(ParseError::TupleStruct),
        StructFields::Named(v) => classify_fields(v),
    }
}

} // verus!
