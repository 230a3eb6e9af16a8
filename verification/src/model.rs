use crate::text::{chars_of, digits, digits_of, is_blank, trim, trimmed};
use vstd::prelude::*;
use vstd::string::*;

verus! {

/// One contact. An `id` of 0 marks a contact that was never stored.
#[derive(Debug, PartialEq, Eq)]
pub struct Contact {
    pub id: i64,
    pub name: String,
    pub company: Option<String>,
    pub phone: Option<String>,
    pub email: Option<String>,
}

/// What a contact holds, as plain mathematical values.
pub struct ContactView {
    pub id: i64,
    pub name: Seq<char>,
    pub company: Option<Seq<char>>,
    pub phone: Option<Seq<char>>,
    pub email: Option<Seq<char>>,
}

/// The characters of an optional string.
pub open spec fn opt_view(o: Option<String>) -> Option<Seq<char>> {
    match o {
        Some(s) => Some(s@),
        None => None,
    }
}

/// The text or, where there is none, the empty text.
pub open spec fn or_empty(o: Option<Seq<char>>) -> Seq<char> {
    match o {
        Some(s) => s,
        None => Seq::empty(),
    }
}

/// The view of an optional contact.
pub open spec fn opt_contact_view(o: Option<Contact>) -> Option<ContactView> {
    match o {
        Some(c) => Some(c@),
        None => None,
    }
}

/// The views of a sequence of contacts, one for one.
pub open spec fn views(s: Seq<Contact>) -> Seq<ContactView> {
    s.map_values(|c: Contact| c@)
}

impl View for Contact {
    type V = ContactView;

    open spec fn view(&self) -> ContactView {
        ContactView {
            id: self.id,
            name: self.name@,
            company: opt_view(self.company),
            phone: opt_view(self.phone),
            email: opt_view(self.email),
        }
    }
}

/// The contact that an empty form stands for: unsaved, with no field set.
pub open spec fn empty_contact() -> ContactView {
    ContactView { id: 0, name: Seq::empty(), company: None, phone: None, email: None }
}

/// A copy of an optional string.
pub fn clone_opt(o: &Option<String>) -> (r: Option<String>)
    ensures
        r == *o,
{
    match o {
        Some(s) => Some(s.clone()),
        None => None,
    }
}

impl Clone for Contact {
    fn clone(&self) -> (r: Self)
        ensures
            r == *self,
    {
        Contact {
            id: self.id,
            name: self.name.clone(),
            company: clone_opt(&self.company),
            phone: clone_opt(&self.phone),
            email: clone_opt(&self.email),
        }
    }
}

impl Default for Contact {
    fn default() -> (r: Self)
        ensures
            r@ == empty_contact(),
    {
        Contact { id: 0, name: String::new(), company: None, phone: None, email: None }
    }
}

/// A copy of a list of contacts.
pub fn clone_contacts(v: &[Contact]) -> (r: Vec<Contact>)
    ensures
        r@ == v@,
{
    let mut r: Vec<Contact> = Vec::new();
    let mut i: usize = 0;
    while i < v.len()
        invariant
            i <= v.len(),
            r@ == v@.take(i as int),
        decreases v.len() - i,
    {
        r.push(v[i].clone());
        i += 1;
    }
    r
}

/// Why a contact was turned down.
#[derive(Debug)]
pub enum ValidationError {
    EmptyName,
    InvalidEmail(String),
    InvalidPhone(String),
}

/// A validation error as plain mathematical values.
pub enum ValidationErrorView {
    EmptyName,
    InvalidEmail(Seq<char>),
    InvalidPhone(Seq<char>),
}

impl View for ValidationError {
    type V = ValidationErrorView;

    open spec fn view(&self) -> ValidationErrorView {
        match self {
            ValidationError::EmptyName => ValidationErrorView::EmptyName,
            ValidationError::InvalidEmail(e) => ValidationErrorView::InvalidEmail(e@),
            ValidationError::InvalidPhone(p) => ValidationErrorView::InvalidPhone(p@),
        }
    }
}

/// The text shown for a validation error.
pub open spec fn error_text(e: ValidationErrorView) -> Seq<char> {
    match e {
        ValidationErrorView::EmptyName => "Name cannot be empty"@,
        ValidationErrorView::InvalidEmail(email) => "Invalid email format: "@ + email,
        ValidationErrorView::InvalidPhone(phone) => "Invalid phone format: "@ + phone,
    }
}

impl ValidationError {
    /// The message for this error, ready to be shown.
    pub fn message(&self) -> (r: String)
        ensures
            r@ == error_text(self@),
    {
        match self {
            ValidationError::EmptyName => "Name cannot be empty".to_owned(),
            ValidationError::InvalidEmail(email) => {
                let mut r = "Invalid email format: ".to_owned();
                r.append(email.as_str());
                r
            },
            ValidationError::InvalidPhone(phone) => {
                let mut r = "Invalid phone format: ".to_owned();
                r.append(phone.as_str());
                r
            },
        }
    }
}

/// An email address is accepted when, once trimmed, it takes more than five
/// bytes in UTF-8, its first `@` is not its first character, and its last `.`
/// stands at least two places after that `@` and is not its last character.
pub open spec fn valid_email(email: Seq<char>) -> bool {
    let e = trimmed(email);
    match (e.index_of_first('@'), e.index_of_last('.')) {
        (Some(at), Some(dot)) => {
            &&& vstd::utf8::encode_utf8(e).len() > 5
            &&& at > 0
            &&& dot > at + 1
            &&& dot < e.len() - 1
        },
        _ => false,
    }
}

/// A phone number is accepted when it holds between 8 and 15 digits, whatever
/// else stands between them.
pub open spec fn valid_phone(phone: Seq<char>) -> bool {
    8 <= digits(phone).len() <= 15
}

/// The first reason to turn a contact down, if there is one: a blank name,
/// then an email that is neither blank nor well-formed, then such a phone
/// number.
pub open spec fn validation(c: ContactView) -> Option<ValidationErrorView> {
    if is_blank(c.name) {
        Some(ValidationErrorView::EmptyName)
    } else if c.email is Some && !is_blank(c.email->0) && !valid_email(c.email->0) {
        Some(ValidationErrorView::InvalidEmail(c.email->0))
    } else if c.phone is Some && !is_blank(c.phone->0) && !valid_phone(c.phone->0) {
        Some(ValidationErrorView::InvalidPhone(c.phone->0))
    } else {
        None
    }
}

/// The place of the first `needle` in `v`, if it occurs.
pub fn find_first(v: &Vec<char>, needle: char) -> (r: Option<usize>)
    ensures
        match r {
            Some(i) => v@.index_of_first(needle) == Some(i as int),
            None => v@.index_of_first(needle) is None,
        },
{
    let mut i: usize = 0;
    while i < v.len()
        invariant
            i <= v.len(),
            forall|j: int| 0 <= j < i ==> v@[j] != needle,
        decreases v.len() - i,
    {
        if v[i] == needle {
            proof {
                assert(v@.contains(needle));
                v@.index_of_first_ensures(needle);
            }
            return Some(i);
        }
        i += 1;
    }
    proof {
        v@.index_of_first_ensures(needle);
    }
    None
}

/// The place of the last `needle` in `v`, if it occurs.
pub fn find_last(v: &Vec<char>, needle: char) -> (r: Option<usize>)
    ensures
        match r {
            Some(i) => v@.index_of_last(needle) == Some(i as int),
            None => v@.index_of_last(needle) is None,
        },
{
    let mut i: usize = v.len();
    while i > 0
        invariant
            i <= v.len(),
            forall|j: int| i <= j < v.len() ==> v@[j] != needle,
        decreases i,
    {
        i -= 1;
        if v[i] == needle {
            proof {
                assert(v@.contains(needle));
                v@.index_of_last_ensures(needle);
            }
            return Some(i);
        }
    }
    proof {
        v@.index_of_last_ensures(needle);
    }
    None
}

impl Contact {
    /// Whether `email` has the shape of an address.
    pub fn is_valid_email(email: &str) -> (r: bool)
        ensures
            r == valid_email(email@),
    {
        let e = trim(email);
        if e.as_bytes().len() <= 5 {
            return false;
        }
        let cs = chars_of(e);
        proof {
            cs@.index_of_first_ensures('@');
            cs@.index_of_last_ensures('.');
        }
        match (find_first(&cs, '@'), find_last(&cs, '.')) {
            (Some(at), Some(dot)) => at > 0 && dot > at + 1 && dot < cs.len() - 1,
            _ => false,
        }
    }

    /// Whether `phone` holds a plausible number of digits.
    pub fn is_valid_phone(phone: &str) -> (r: bool)
        ensures
            r == valid_phone(phone@),
    {
        let cleaned = digits_of(phone);
        cleaned.len() >= 8 && cleaned.len() <= 15
    }

    /// Checks the contact and names the first fault found.
    pub fn validate(&self) -> (r: Result<(), ValidationError>)
        ensures
            match r {
                Ok(()) => validation(self@) is None,
                Err(e) => validation(self@) == Some(e@),
            },
    {
        if trim(self.name.as_str()).is_empty() {
            return Err(ValidationError::EmptyName);
        }
        if let Some(email) = &self.email {
            if !trim(email.as_str()).is_empty() && !Self::is_valid_email(email.as_str()) {
                return Err(ValidationError::InvalidEmail(email.clone()));
            }
        }
        if let Some(phone) = &self.phone {
            if !trim(phone.as_str()).is_empty() && !Self::is_valid_phone(phone.as_str()) {
                return Err(ValidationError::InvalidPhone(phone.clone()));
            }
        }
        Ok(())
    }
}

/// The contacts of `s` that pass validation, in order.
pub open spec fn valid_among(s: Seq<ContactView>) -> Seq<ContactView> {
    s.filter(|c: ContactView| validation(c) is None)
}

/// Keeps the contacts that pass validation and drops the others, so that one
/// bad contact does not stop the rest from being taken over.
pub fn valid_contacts(contacts: Vec<Contact>) -> (kept: Vec<Contact>)
    ensures
        views(kept@) == valid_among(views(contacts@)),
{
    let mut kept: Vec<Contact> = Vec::new();
    let mut i: usize = 0;
    proof {
        assert(views(contacts@).take(0) =~= Seq::<ContactView>::empty());
        assert(views(kept@) =~= valid_among(views(contacts@).take(0)));
    }
    while i < contacts.len()
        invariant
            i <= contacts.len(),
            views(kept@) == valid_among(views(contacts@).take(i as int)),
        decreases contacts.len() - i,
    {
        let ghost seen = views(contacts@).take(i as int);
        let ghost next = contacts@[i as int]@;
        proof {
            assert(views(contacts@).take(i as int + 1) == seen.push(next));
            lemma_valid_among_push(seen, next);
        }
        match contacts[i].validate() {
            Ok(()) => {
                let ghost before = views(kept@);
                kept.push(contacts[i].clone());
                proof {
                    assert(views(kept@) =~= before.push(next));
                }
            },
            Err(_) => {},
        }
        i += 1;
    }
    proof {
        assert(views(contacts@).take(contacts.len() as int) == views(contacts@));
    }
    kept
}

/// Validation goes contact by contact.
pub proof fn lemma_valid_among_push(s: Seq<ContactView>, c: ContactView)
    ensures
        valid_among(s.push(c)) == if validation(c) is None {
            valid_among(s).push(c)
        } else {
            valid_among(s)
        },
{
    reveal(Seq::filter);
    assert(s.push(c).drop_last() == s);
}

} // verus!
