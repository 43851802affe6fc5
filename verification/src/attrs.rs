//! The attribute parser: scans a field's raw attributes for the one
//! recognized directive, `each = "<method_name>"`, which marks the field
//! for incremental collection building under a custom method name.
//!
//! Any other directive identifier, attribute shape, or malformed token
//! sequence is silently ignored: no directive is produced and no error is
//! raised.

use vstd::prelude::*;

use crate::schema::AttrToken;
use crate::schema::FieldSchema;
use crate::schema::RawAttribute;

verus! {

/// A parsed collector directive: the field it targets and the name of the
/// per-element method to generate for it.
#[derive(Debug, Clone, PartialEq, Eq)]
pub struct CollectorDirective {
    pub field_name: String,
    pub method_name: String,
}

/// The method name carried by one raw attribute, when the attribute is a
/// bracketed token list whose first three tokens are the identifier
/// `each`, a punctuation token, and a string literal; `None` otherwise.
pub open spec fn attr_directive(a: RawAttribute) -> Option<Seq<char>> {
    match a {
        RawAttribute::TokenList(ts) => if ts@.len() >= 3 {
            match (ts@[0], ts@[1], ts@[2]) {
                (AttrToken::Ident(d), AttrToken::Punct(p), AttrToken::StrLit(s)) => if d@
                    == "each"@ {
                    Some(s@)
                } else {
                    None
                },
                _ => None,
            }
        } else {
            None
        },
        _ => None,
    }
}

/// The directive of the first recognized attribute in the list, if any.
pub open spec fn first_directive(attrs: Seq<RawAttribute>) -> Option<Seq<char>>
    decreases attrs.len(),
{
    if attrs.len() == 0 {
        None
    } else if attr_directive(attrs[0]) is Some {
        attr_directive(attrs[0])
    } else {
        first_directive(attrs.drop_first())
    }
}

/// The directive a whole field carries, if any.
pub open spec fn field_directive(f: FieldSchema) -> Option<Seq<char>> {
    first_directive(f.attributes@)
}

/// Parse one raw attribute against the recognized grammar.
pub fn parse_attribute(a: &RawAttribute) -> (r: Option<String>)
    ensures
        match r {
            Some(m) => attr_directive(*a) matches Some(v) && v == m@,
            None => attr_directive(*a) is None,
        },
{
    match a {
        RawAttribute::TokenList(ts) => {
            if ts.len() >= 3 {
                let each = String::from_str("each");
                match (&ts[0], &ts[1], &ts[2]) {
                    (AttrToken::Ident(d), AttrToken::Punct(_), AttrToken::StrLit(s)) => {
                        if *d == each {
                            Some(s.clone())
                        } else {
                            None
                        }
                    },
                    _ => None,
                }
            } else {
                None
            }
        },
        _ => None,
    }
}

proof fn lemma_first_directive_step(attrs: Seq<RawAttribute>, i: int)
    requires
        0 <= i < attrs.len(),
        attr_directive(attrs[i]) is None,
    ensures
        first_directive(attrs.skip(i)) == first_directive(attrs.skip(i + 1)),
{
    assert(attrs.skip(i).len() > 0);
    assert(attrs.skip(i)[0] == attrs[i]);
    assert(attrs.skip(i).drop_first() =~= attrs.skip(i + 1));
}

/// Scan a field's attributes in order and return the method name of the
/// first recognized collector directive, if any.
pub fn find_directive(attrs: &Vec<RawAttribute>) -> (r: Option<String>)
    ensures
        match r {
            Some(m) => first_directive(attrs@) matches Some(v) && v == m@,
            None => first_directive(attrs@) is None,
        },
{
    let mut i: usize = 0;
    proof {
        assert(attrs@.skip(0) =~= attrs@);
    }
    while i < attrs.len()
        invariant
            i <= attrs@.len(),
            first_directive(attrs@) == first_directive(attrs@.skip(i as int)),
        decreases attrs@.len() - i,
    {
        let parsed = parse_attribute(&attrs[i]);
        match parsed {
            Some(m) => {
                proof {
                    assert(attrs@.skip(i as int)[0] == attrs@[i as int]);
                }
                return Some(m);
            },
            None => {
                proof {
                    lemma_first_directive_step(attrs@, i as int);
                }
                i = i + 1;
            },
        }
    }
    proof {
        assert(attrs@.skip(i as int) =~= Seq::<RawAttribute>::empty());
    }
    None
}

} // verus!
