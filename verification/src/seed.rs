use crate::model::{Contact, ContactView};
use crate::text::{append_padded, chars_of, lowercase, padded, string_of, to_lower};
use vstd::prelude::*;
use vstd::string::*;

verus! {

/// `s` with every space left out.
pub open spec fn without_spaces(s: Seq<char>) -> Seq<char> {
    s.filter(|c: char| c != ' ')
}

/// The made-up contact for a name, a company name and a number: never stored,
/// with an email at example.com made of the name in lower case without its
/// spaces, a phone number made of `04` and the number in at least eight
/// digits, and a company that is a Pty Ltd.
pub open spec fn seeded(name: Seq<char>, company: Seq<char>, number: u32) -> ContactView {
    ContactView {
        id: 0,
        name,
        company: Some(company + " Pty Ltd"@),
        phone: Some("04"@ + padded(number as nat, 8)),
        email: Some(lowercase(without_spaces(name)) + "@example.com"@),
    }
}

/// The characters of `s` other than spaces.
pub fn strip_spaces(s: &str) -> (out: String)
    ensures
        out@ == without_spaces(s@),
{
    let cs = chars_of(s);
    let mut kept: Vec<char> = Vec::new();
    let mut i: usize = 0;
    proof {
        assert(cs@.take(0) =~= Seq::<char>::empty());
        assert(kept@ =~= without_spaces(cs@.take(0)));
    }
    while i < cs.len()
        invariant
            i <= cs.len(),
            kept@ == without_spaces(cs@.take(i as int)),
        decreases cs.len() - i,
    {
        proof {
            reveal(Seq::filter);
            assert(cs@.take(i as int + 1).drop_last() == cs@.take(i as int));
        }
        if cs[i] != ' ' {
            kept.push(cs[i]);
        }
        i += 1;
    }
    proof {
        assert(cs@.take(cs.len() as int) == cs@);
    }
    string_of(&kept)
}

/// Makes up a contact from a name, a company name and a number, each of
/// which the caller has drawn as it pleases.
pub fn seed_contact(name: &str, company: &str, number: u32) -> (c: Contact)
    ensures
        c@ == seeded(name@, company@, number),
{
    let stripped = strip_spaces(name);
    let mut email = to_lower(stripped.as_str());
    email.append("@example.com");
    let mut phone = "04".to_owned();
    append_padded(&mut phone, number as usize, 8);
    let mut firm = company.to_owned();
    firm.append(" Pty Ltd");
    Contact {
        id: 0,
        name: name.to_owned(),
        company: Some(firm),
        phone: Some(phone),
        email: Some(email),
    }
}

} // verus!
