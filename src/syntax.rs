use vstd::prelude::*;

verus! {

/// The value side of one entry in a `tag(key, key = ident, key = "literal")` group.
#[derive(Clone, Debug)]
pub enum KvValue {
    /// A bare key, written without `=`.
    Flag,
    /// A string literal; holds the text between its quotes, as written.
    Lit(String),
    /// A bare identifier.
    Ident(String),
}

/// One `key` or `key = value` entry of a tag, as written.
#[derive(Clone, Debug)]
pub struct KvEntry {
    pub key: String,
    pub value: KvValue,
}

/// A metadata tag attached to a declaration or to a field.
#[derive(Clone, Debug)]
pub struct Attribute {
    /// The segments of the tag's path (`class` is one segment, `a::b` two).
    pub path: Vec<String>,
    /// The tokens inside the tag's parentheses follow the key-value grammar
    /// (see `parse_kv_group`); where they do not, `args` is empty.
    pub well_formed: bool,
    /// The key-value entries inside the tag's parentheses, in written order.
    pub args: Vec<KvEntry>,
}

/// A named field of a structure declaration.
#[derive(Clone, Debug)]
pub struct NamedField {
    pub name: String,
    /// The field's type, as source text.
    pub ty: String,
    pub attributes: Vec<Attribute>,
}

/// The shape of a structure's body.
#[derive(Clone, Debug)]
pub enum StructFields {
    Unit,
    Tuple,
    Named(Vec<NamedField>),
}

/// A structure declaration with its tags and fields.
#[derive(Clone, Debug)]
pub struct StructDecl {
    pub name: String,
    pub attributes: Vec<Attribute>,
    pub fields: StructFields,
}

/// Any annotated declaration; only structures can be expanded.
#[derive(Clone, Debug)]
pub enum Declaration {
    Struct(StructDecl),
    /// An enum, a union, a function or any other item.
    Other,
}

/// The tag's path is the single segment `name`.
pub open spec fn is_tag(a: Attribute, name: Seq<char>) -> bool {
    a.path@.len() == 1 && a.path@[0]@ == name
}

/// The value bound to `key` in a tag's entries, read as a map: where a key is
/// written more than once, the last entry wins.
pub open spec fn kv_lookup(args: Seq<KvEntry>, key: Seq<char>) -> Option<KvValue>
    decreases args.len(),
{
    if args.len() == 0 {
        None
    } else if args.last().key@ == key {
        Some(args.last().value)
    } else {
        kv_lookup(args.drop_last(), key)
    }
}

/// `i` is the first entry whose key is not among `allowed`.
pub open spec fn first_unknown_at(args: Seq<KvEntry>, allowed: Seq<Seq<char>>, i: int) -> bool {
    &&& 0 <= i < args.len()
    &&& !allowed.contains(args[i].key@)
    &&& forall|j: int| 0 <= j < i ==> allowed.contains(#[trigger] args[j].key@)
}

/// Every key of the entries is among `allowed`.
pub open spec fn all_keys_known(args: Seq<KvEntry>, allowed: Seq<Seq<char>>) -> bool {
    forall|j: int| 0 <= j < args.len() ==> allowed.contains(#[trigger] args[j].key@)
}

/// The entries that remain once the `allowed` keys are taken out hold some key;
/// the first such entry is `first_unknown(args, allowed)`.
pub open spec fn first_unknown(args: Seq<KvEntry>, allowed: Seq<Seq<char>>) -> int {
    choose|i: int| first_unknown_at(args, allowed, i)
}

pub proof fn lemma_first_unknown_unique(args: Seq<KvEntry>, allowed: Seq<Seq<char>>, i: int)
    requires
        first_unknown_at(args, allowed, i),
    ensures
        first_unknown(args, allowed) == i,
        !all_keys_known(args, allowed),
{
    let k = first_unknown(args, allowed);
    assert(first_unknown_at(args, allowed, k));
    if k < i {
        assert(allowed.contains(args[k].key@));
    } else if i < k {
        assert(allowed.contains(args[i].key@));
    }
}

/// Tests whether the path of `a` is the single segment `name`.
pub fn tag_is(a: &Attribute, name: &String) -> (r: bool)
    ensures
        r == is_tag(*a, name@),
{
    a.path.len() == 1 && a.path[0] == *name
}

/// Looks a key up in a tag's entries and gives the index of the entry that
/// binds it; the last entry with that key wins.
pub fn kv_find(args: &Vec<KvEntry>, key: &String) -> (r: Option<usize>)
    ensures
        r is None ==> kv_lookup(args@, key@) is None,
        r matches Some(i) ==> i < args@.len() && kv_lookup(args@, key@) == Some(args@[i as int].value),
{
    let mut i: usize = args.len();
    assert(args@.subrange(0, i as int) =~= args@);
    while i > 0
        invariant
            i <= args.len(),
            kv_lookup(args@, key@) == kv_lookup(args@.subrange(0, i as int), key@),
        decreases i,
    {
        let ghost pre = args@.subrange(0, i as int);
        assert(pre.drop_last() =~= args@.subrange(0, i - 1));
        if args[i - 1].key == *key {
            return Some(i - 1);
        }
        i = i - 1;
    }
    None
}

/// Finds the first entry whose key is not among `allowed`, if any.
pub fn find_unknown_key(args: &Vec<KvEntry>, allowed: &Vec<String>) -> (r: Option<usize>)
    ensures
        r is None <==> all_keys_known(args@, allowed@.map_values(|s: String| s@)),
        r matches Some(i) ==> first_unknown_at(args@, allowed@.map_values(|s: String| s@), i as int)
            && first_unknown(args@, allowed@.map_values(|s: String| s@)) == i,
{
    let ghost keys = allowed@.map_values(|s: String| s@);
    let mut i: usize = 0;
    while i < args.len()
        invariant
            i <= args.len(),
            keys == allowed@.map_values(|s: String| s@),
            forall|j: int| 0 <= j < i ==> keys.contains(#[trigger] args@[j].key@),
        decreases args.len() - i,
    {
        let mut found = false;
        let mut k: usize = 0;
        while k < allowed.len()
            invariant
                k <= allowed.len(),
                i < args.len(),
                keys == allowed@.map_values(|s: String| s@),
                found <==> exists|m: int| 0 <= m < k && keys[m] == args@[i as int].key@,
            decreases allowed.len() - k,
        {
            if allowed[k] == args[i].key {
                found = true;
                assert(keys[k as int] == args@[i as int].key@);
            }
            k = k + 1;
        }
        if !found {
            assert(!keys.contains(args@[i as int].key@));
            proof {
                lemma_first_unknown_unique(args@, keys, i as int);
            }
            return Some(i);
        }
        assert(keys.contains(args@[i as int].key@));
        i = i + 1;
    }
    None
}

} // verus!
