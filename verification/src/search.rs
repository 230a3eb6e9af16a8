use crate::text::{lowercase, same_text, to_lower};
use vstd::prelude::*;
use vstd::string::*;

verus! {

/// The fields of a contact that a search can be held to.
#[derive(Debug, Clone, Copy, PartialEq, Eq)]
pub enum SearchField {
    Name,
    Company,
    Email,
    Phone,
}

/// The field that a name stands for, if it stands for one. The names are
/// `name`, `company`, `email` and `phone`, in lower case.
pub open spec fn field_named(name: Seq<char>) -> Option<SearchField> {
    if name == "name"@ {
        Some(SearchField::Name)
    } else if name == "company"@ {
        Some(SearchField::Company)
    } else if name == "email"@ {
        Some(SearchField::Email)
    } else if name == "phone"@ {
        Some(SearchField::Phone)
    } else {
        None
    }
}

/// The pattern that finds `query` anywhere in a text, whatever the case: the
/// query in lower case between two `%`.
pub open spec fn pattern_for(query: Seq<char>) -> Seq<char> {
    "%"@ + lowercase(query) + "%"@
}

impl SearchField {
    /// The field that `name` stands for, or `None` for any other name.
    pub fn parse(name: &str) -> (r: Option<SearchField>)
        ensures
            r == field_named(name@),
    {
        if same_text(name, "name") {
            Some(SearchField::Name)
        } else if same_text(name, "company") {
            Some(SearchField::Company)
        } else if same_text(name, "email") {
            Some(SearchField::Email)
        } else if same_text(name, "phone") {
            Some(SearchField::Phone)
        } else {
            None
        }
    }
}

/// The pattern to look for `query` with.
pub fn like_pattern(query: &str) -> (r: String)
    ensures
        r@ == pattern_for(query@),
{
    let mut r = "%".to_owned();
    r.append(to_lower(query).as_str());
    r.append("%");
    r
}

} // verus!
