use vstd::prelude::*;

verus! {

/// One of the four keys that a property-descriptor tag must carry.
#[derive(Clone, Copy, Debug, PartialEq, Eq, Structural)]
pub enum PropertyKey {
    Name,
    VariantType,
    Getter,
    Setter,
}

/// The key's text, as written inside a property-descriptor tag.
pub open spec fn key_text(k: PropertyKey) -> Seq<char> {
    match k {
        PropertyKey::Name => "name"@,
        PropertyKey::VariantType => "variant_type"@,
        PropertyKey::Getter => "getter"@,
        PropertyKey::Setter => "setter"@,
    }
}

impl PropertyKey {
    /// The key's text, as written inside a property-descriptor tag.
    pub fn text(self) -> (r: String)
        ensures
            r@ == key_text(self),
    {
        match self {
            PropertyKey::Name => String::from_str("name"),
            PropertyKey::VariantType => String::from_str("variant_type"),
            PropertyKey::Getter => String::from_str("getter"),
            PropertyKey::Setter => String::from_str("setter"),
        }
    }
}

/// Why a declaration cannot be expanded. Each error names the place it
/// comes from, so that it can be reported at that place: a tag by its index
/// among the declaration's tags, or among a field's tags.
#[derive(Debug)]
pub enum ParseError {
    /// The declaration is not a structure.
    NotAStruct,
    /// The structure has positional fields.
    TupleStruct,
    /// The arguments of a class or property tag do not follow the key-value grammar.
    MalformedTag { attr_index: usize },
    /// A second class-configuration tag; only one is allowed per declaration.
    DuplicateClassTag { attr_index: usize },
    /// The base-type key of the class tag holds something other than an identifier.
    InvalidBaseValue { attr_index: usize },
    /// The initializer key of the class tag carries a value.
    InitHasValue { attr_index: usize },
    /// A key that the tag does not recognise.
    UnknownKey { attr_index: usize, key: String },
    /// A property-descriptor tag lacks one of its four keys.
    MissingPropertyKey { attr_index: usize, which: PropertyKey },
    /// A key of a property-descriptor tag is not a string literal.
    PropertyKeyNotLiteral { attr_index: usize, which: PropertyKey },
    /// A second base marker; `previous` names the field that already holds the role.
    DuplicateBaseField { field_index: usize, attr_index: usize, previous: String },
}

/// The text of the diagnostic that reports an error.
pub open spec fn error_message(e: ParseError) -> Seq<char> {
    match e {
        ParseError::NotAStruct => "Not a valid struct"@,
        ParseError::TupleStruct => "#[derive(GodotClass)] not supported for tuple structs"@,
        ParseError::MalformedTag { .. } => "Tag arguments must be keys, key = identifier or key = \"literal\", separated by commas"@,
        ParseError::DuplicateClassTag { .. } => "Only one #[class] attribute per item (struct, fn, ...) allowed"@,
        ParseError::InvalidBaseValue { .. } => "Invalid value for 'base' argument"@,
        ParseError::InitHasValue { .. } => "Argument 'init' must not have a value"@,
        ParseError::UnknownKey { key, .. } => "Attribute contains unknown key '"@ + key@ + "'"@,
        ParseError::MissingPropertyKey { which, .. } => "#[property] attribute without any "@
            + key_text(which),
        ParseError::PropertyKeyNotLiteral { which, .. } => "#[property] attribute with a "@
            + key_text(which) + " that isn't an identifier"@,
        ParseError::DuplicateBaseField { previous, .. } =>
            "#[base] allowed for at most 1 field, already applied to '"@ + previous@ + "'"@,
    }
}

impl ParseError {
    /// The text of the diagnostic that reports this error.
    pub fn message(&self) -> (r: String)
        ensures
            r@ == error_message(*self),
    {
        match self {
            ParseError::NotAStruct => String::from_str("Not a valid struct"),
            ParseError::TupleStruct => String::from_str(
                "#[derive(GodotClass)] not supported for tuple structs",
            ),
            ParseError::MalformedTag { .. } => String::from_str(
                "Tag arguments must be keys, key = identifier or key = \"literal\", separated by commas",
            ),
            ParseError::DuplicateClassTag { .. } => String::from_str(
                "Only one #[class] attribute per item (struct, fn, ...) allowed",
            ),
            ParseError::InvalidBaseValue { .. } => String::from_str(
                "Invalid value for 'base' argument",
            ),
            ParseError::InitHasValue { .. } => String::from_str(
                "Argument 'init' must not have a value",
            ),
            ParseError::UnknownKey { key, .. } => String::from_str(
                "Attribute contains unknown key '",
            ).concat(key.as_str()).concat("'"),
            ParseError::MissingPropertyKey { which, .. } => String::from_str(
                "#[property] attribute without any ",
            ).concat(which.text().as_str()),
            ParseError::PropertyKeyNotLiteral { which, .. } => String::from_str(
                "#[property] attribute with a ",
            ).concat(which.text().as_str()).concat(" that isn't an identifier"),
            ParseError::DuplicateBaseField { previous, .. } => String::from_str(
                "#[base] allowed for at most 1 field, already applied to '",
            ).concat(previous.as_str()).concat("'"),
        }
    }
}

} // verus!
