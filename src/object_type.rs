use vstd::prelude::*;
use vstd::string::StringExecFns;

verus! {

/// The three kinds of object.
#[derive(Clone, Copy, Debug, PartialEq, Eq, Structural, PartialOrd, Ord, Hash)]
pub enum OSMObjectType {
    Node,
    Way,
    Relation,
}

/// The one-letter code of a kind.
pub open spec fn code_of(t: OSMObjectType) -> char {
    match t {
        OSMObjectType::Node => 'n',
        OSMObjectType::Way => 'w',
        OSMObjectType::Relation => 'r',
    }
}

/// The full name of a kind.
pub open spec fn name_of(t: OSMObjectType) -> Seq<char> {
    match t {
        OSMObjectType::Node => "node"@,
        OSMObjectType::Way => "way"@,
        OSMObjectType::Relation => "relation"@,
    }
}

/// The kind that a one-letter code stands for.
pub open spec fn kind_of_code(c: char) -> Option<OSMObjectType> {
    if c == 'n' {
        Some(OSMObjectType::Node)
    } else if c == 'w' {
        Some(OSMObjectType::Way)
    } else if c == 'r' {
        Some(OSMObjectType::Relation)
    } else {
        None
    }
}

/// The kind that a word stands for: its code, its name, or `rel`.
pub open spec fn kind_of_word(s: Seq<char>) -> Option<OSMObjectType> {
    if s == "n"@ || s == "node"@ {
        Some(OSMObjectType::Node)
    } else if s == "w"@ || s == "way"@ {
        Some(OSMObjectType::Way)
    } else if s == "r"@ || s == "relation"@ || s == "rel"@ {
        Some(OSMObjectType::Relation)
    } else {
        None
    }
}

/// Relies on std's `ToString` for `char`, which writes the character alone.
#[verifier::external_body]
fn char_string(c: char) -> (r: String)
    ensures
        r@ == seq![c],
{
    c.to_string()
}

/// The message for a code or word that names no kind.
pub open spec fn refusal(input: Seq<char>) -> Seq<char> {
    "Cannot convert "@ + input + " to OSMObjectType"@
}

fn refusal_message(input: &str) -> (r: String)
    ensures
        r@ == refusal(input@),
{
    let mut m = String::from_str("Cannot convert ");
    m.append(input);
    m.append(" to OSMObjectType");
    m
}

fn str_is(s: &str, lit: &str) -> (r: bool)
    ensures
        r == (s@ == lit@),
{
    let a = s.to_owned();
    let b = lit.to_owned();
    a == b
}

impl OSMObjectType {
    /// The one-letter code: `n`, `w` or `r`.
    pub fn code(&self) -> (r: char)
        ensures
            r == code_of(*self),
    {
        match self {
            OSMObjectType::Node => 'n',
            OSMObjectType::Way => 'w',
            OSMObjectType::Relation => 'r',
        }
    }

    /// The full name: `node`, `way` or `relation`.
    pub fn name(&self) -> (r: String)
        ensures
            r@ == name_of(*self),
    {
        match self {
            OSMObjectType::Node => "node".to_owned(),
            OSMObjectType::Way => "way".to_owned(),
            OSMObjectType::Relation => "relation".to_owned(),
        }
    }

    /// Reads a one-letter code; any other letter is refused.
    pub fn try_from(c: char) -> (r: Result<OSMObjectType, String>)
        ensures
            kind_of_code(c) is Some <==> r is Ok,
            r is Ok ==> r->Ok_0 == kind_of_code(c)->Some_0,
            r is Err ==> r->Err_0@ == refusal(seq![c]),
    {
        match c {
            'n' => Ok(OSMObjectType::Node),
            'w' => Ok(OSMObjectType::Way),
            'r' => Ok(OSMObjectType::Relation),
            _ => {
                let t = char_string(c);
                Err(refusal_message(t.as_str()))
            },
        }
    }

    /// Reads a code or a full name; any other word is refused.
    pub fn from_str(s: &str) -> (r: Result<OSMObjectType, String>)
        ensures
            kind_of_word(s@) is Some <==> r is Ok,
            r is Ok ==> r->Ok_0 == kind_of_word(s@)->Some_0,
            r is Err ==> r->Err_0@ == refusal(s@),
    {
        if str_is(s, "n") || str_is(s, "node") {
            Ok(OSMObjectType::Node)
        } else if str_is(s, "w") || str_is(s, "way") {
            Ok(OSMObjectType::Way)
        } else if str_is(s, "r") || str_is(s, "relation") || str_is(s, "rel") {
            Ok(OSMObjectType::Relation)
        } else {
            Err(refusal_message(s))
        }
    }
}

} // verus!
