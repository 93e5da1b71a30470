use vstd::prelude::*;

use crate::syntax::{KvEntry, KvValue};

verus! {

/// One token inside a tag's parentheses.
#[derive(Clone, Debug)]
pub enum ArgToken {
    Ident(String),
    Punct(char),
    /// A string literal; holds the text between its quotes, as written.
    Str(String),
    /// Any other literal or a nested group.
    Other,
}

/// An entry as the grammar reads it: the key and the value.
pub enum KvValueView {
    Flag,
    Lit(Seq<char>),
    Ident(Seq<char>),
}

pub open spec fn entry_view(e: KvEntry) -> (Seq<char>, KvValueView) {
    (
        e.key@,
        match e.value {
            KvValue::Flag => KvValueView::Flag,
            KvValue::Lit(s) => KvValueView::Lit(s@),
            KvValue::Ident(s) => KvValueView::Ident(s@),
        },
    )
}

pub open spec fn is_punct(t: ArgToken, c: char) -> bool {
    t matches ArgToken::Punct(d) && d == c
}

/// The number of tokens of the entry that `t` starts with: one for a bare
/// key, three for `key = ident` and `key = "literal"`; zero where no entry
/// starts there.
pub open spec fn entry_len(t: Seq<ArgToken>) -> int {
    if t.len() == 0 || !(t[0] is Ident) {
        0
    } else if t.len() == 1 || !is_punct(t[1], '=') {
        1
    } else if t.len() >= 3 && (t[2] is Ident || t[2] is Str) {
        3
    } else {
        0
    }
}

/// The entry that `t` starts with.
pub open spec fn entry_at(t: Seq<ArgToken>) -> (Seq<char>, KvValueView) {
    (
        t[0]->Ident_0@,
        if entry_len(t) == 1 {
            KvValueView::Flag
        } else {
            match t[2] {
                ArgToken::Str(s) => KvValueView::Lit(s@),
                _ => KvValueView::Ident(t[2]->Ident_0@),
            }
        },
    )
}

/// The entries of a tag's group, `key, key = ident, key = "literal"`,
/// separated by commas, with an optional trailing comma; `None` where the
/// tokens do not follow this grammar.
pub open spec fn kv_parse(t: Seq<ArgToken>) -> Option<Seq<(Seq<char>, KvValueView)>>
    decreases t.len(),
{
    if t.len() == 0 {
        Some(Seq::empty())
    } else if entry_len(t) == 0 {
        None
    } else {
        let rest = t.skip(entry_len(t));
        if rest.len() == 0 {
            Some(seq![entry_at(t)])
        } else if !is_punct(rest[0], ',') {
            None
        } else {
            match kv_parse(rest.skip(1)) {
                Some(es) => Some(seq![entry_at(t)] + es),
                None => None,
            }
        }
    }
}

pub open spec fn prepend(
    p: Seq<(Seq<char>, KvValueView)>,
    r: Option<Seq<(Seq<char>, KvValueView)>>,
) -> Option<Seq<(Seq<char>, KvValueView)>> {
    match r {
        Some(es) => Some(p + es),
        None => None,
    }
}

/// Reads the entries of a tag's group.
pub fn parse_kv_group(tokens: &Vec<ArgToken>) -> (r: Option<Vec<KvEntry>>)
    ensures
        match kv_parse(tokens@) {
            Some(es) => r matches Some(v) && v@.map_values(|e: KvEntry| entry_view(e)) == es,
            None => r is None,
        },
{
    let mut entries: Vec<KvEntry> = Vec::new();
    let mut i: usize = 0;
    let ghost t = tokens@;
    assert(t.skip(0) =~= t);
    assert(entries@.map_values(|e: KvEntry| entry_view(e)) =~= Seq::<(Seq<char>, KvValueView)>::empty());
    loop
        invariant
            t == tokens@,
            i <= t.len(),
            kv_parse(t) == prepend(entries@.map_values(|e: KvEntry| entry_view(e)), kv_parse(t.skip(i as int))),
        decreases t.len() - i,
    {
        let ghost s = t.skip(i as int);
        let ghost before = entries@.map_values(|e: KvEntry| entry_view(e));
        if i == tokens.len() {
            assert(before + Seq::<(Seq<char>, KvValueView)>::empty() =~= before);
            return Some(entries);
        }
        let key = match &tokens[i] {
            ArgToken::Ident(k) => k.clone(),
            _ => {
                return None;
            },
        };
        let mut n: usize = 1;
        let mut value = KvValue::Flag;
        if i + 1 < tokens.len() {
            if let ArgToken::Punct(c) = &tokens[i + 1] {
                if *c == '=' {
                    if i + 2 >= tokens.len() {
                        return None;
                    }
                    match &tokens[i + 2] {
                        ArgToken::Ident(v) => {
                            value = KvValue::Ident(v.clone());
                        },
                        ArgToken::Str(v) => {
                            value = KvValue::Lit(v.clone());
                        },
                        _ => {
                            return None;
                        },
                    }
                    n = 3;
                }
            }
        }
        assert(entry_len(s) == n);
        let e = KvEntry { key, value };
        assert(entry_view(e) == entry_at(s));
        entries.push(e);
        let ghost after = entries@.map_values(|e: KvEntry| entry_view(e));
        assert(after =~= before.push(entry_at(s)));
        i = i + n;
        assert(s.skip(n as int) =~= t.skip(i as int));
        if i == tokens.len() {
            assert(after + Seq::<(Seq<char>, KvValueView)>::empty() =~= after);
            assert(before + seq![entry_at(s)] =~= after);
            return Some(entries);
        }
        let is_comma = match &tokens[i] {
            ArgToken::Punct(c) => *c == ',',
            _ => false,
        };
        if !is_comma {
            return None;
        }
        i = i + 1;
        proof {
            assert(t.skip(i - 1).skip(1) =~= t.skip(i as int));
            match kv_parse(t.skip(i as int)) {
                Some(es) => {
                    assert(before + (seq![entry_at(s)] + es) =~= after + es);
                },
                None => {},
            }
        }
    }
}

} // verus!
