//! People and their validated email addresses.
//!
//! A [`Person`] is an immutable identity record: name, email address,
//! optional preferred language, and affiliation to the company. Email
//! addresses are only constructible from strings that satisfy the email
//! syntax captured by [`valid_email`].

use vstd::prelude::*;

verus! {

/// Characters allowed in the part of an address before the `@`:
/// letters, digits, and `.`, `_`, `%`, `+`, `-`.
pub open spec fn is_local_char(c: char) -> bool {
    ||| is_alpha_char(c)
    ||| is_digit_char(c)
    ||| c == '.'
    ||| c == '_'
    ||| c == '%'
    ||| c == '+'
    ||| c == '-'
}

/// Characters allowed in the domain labels between the `@` and the final
/// dot: letters, digits, and `.`, `-`.
pub open spec fn is_domain_char(c: char) -> bool {
    ||| is_alpha_char(c)
    ||| is_digit_char(c)
    ||| c == '.'
    ||| c == '-'
}

/// ASCII letters, the only characters allowed in the top-level domain.
pub open spec fn is_alpha_char(c: char) -> bool {
    ||| ('a' as u32) <= (c as u32) && (c as u32) <= ('z' as u32)
    ||| ('A' as u32) <= (c as u32) && (c as u32) <= ('Z' as u32)
}

/// ASCII digits.
pub open spec fn is_digit_char(c: char) -> bool {
    ('0' as u32) <= (c as u32) && (c as u32) <= ('9' as u32)
}

/// The split of a candidate address at the `@` sign (position `at`) and at
/// the last dot (position `dot`): a non-empty local part of local
/// characters, a non-empty domain of domain characters, and a top-level
/// domain of at least two letters.
pub open spec fn email_split_ok(s: Seq<char>, at: int, dot: int) -> bool {
    &&& 0 < at
    &&& at + 2 <= dot
    &&& dot + 3 <= s.len()
    &&& s[at] == '@'
    &&& s[dot] == '.'
    &&& forall|i: int| 0 <= i < at ==> is_local_char(#[trigger] s[i])
    &&& forall|i: int| at < i < dot ==> is_domain_char(#[trigger] s[i])
    &&& forall|i: int| dot < i < s.len() ==> is_alpha_char(#[trigger] s[i])
}

/// A string is a syntactically valid email address when it can be split
/// into `local@domain.tld` as described by [`email_split_ok`].
pub open spec fn valid_email(s: Seq<char>) -> bool {
    exists|at: int, dot: int| email_split_ok(s, at, dot)
}

fn local_char(c: char) -> (b: bool)
    ensures
        b == is_local_char(c),
{
    alpha_char(c) || digit_char(c) || c == '.' || c == '_' || c == '%' || c == '+' || c == '-'
}

fn domain_char(c: char) -> (b: bool)
    ensures
        b == is_domain_char(c),
{
    alpha_char(c) || digit_char(c) || c == '.' || c == '-'
}

fn alpha_char(c: char) -> (b: bool)
    ensures
        b == is_alpha_char(c),
{
    let u = c as u32;
    (('a' as u32) <= u && u <= ('z' as u32)) || (('A' as u32) <= u && u <= ('Z' as u32))
}

fn digit_char(c: char) -> (b: bool)
    ensures
        b == is_digit_char(c),
{
    let u = c as u32;
    ('0' as u32) <= u && u <= ('9' as u32)
}

/// In any valid split, the `@` must be the first `@` of the string and the
/// dot must be the last dot after it, so the split is unique.
proof fn lemma_split_determined(s: Seq<char>, at: int, dot: int, a: int, d: int)
    requires
        0 < at < s.len(),
        s[at] == '@',
        forall|j: int| 0 <= j < at ==> #[trigger] s[j] != '@',
        at < dot < s.len(),
        s[dot] == '.',
        forall|l: int| dot < l < s.len() ==> #[trigger] s[l] != '.',
        email_split_ok(s, a, d),
    ensures
        a == at,
        d == dot,
{
    if a < at {
        assert(s[a] != '@');
        assert(false);
    }
    if a > at {
        assert(is_local_char(s[at]));
        assert(false);
    }
    if d > dot {
        assert(s[d] != '.');
        assert(false);
    }
    if d < dot {
        assert(is_alpha_char(s[dot]));
        assert(false);
    }
}

/// Position of the first `@` in `s`, if any.
fn find_at_sign(s: &str, n: usize) -> (r: Option<usize>)
    requires
        n == s@.len(),
    ensures
        match r {
            Some(at) => {
                &&& at < n
                &&& s@[at as int] == '@'
                &&& forall|j: int| 0 <= j < at ==> #[trigger] s@[j] != '@'
            },
            None => forall|j: int| 0 <= j < n ==> #[trigger] s@[j] != '@',
        },
{
    let mut i: usize = 0;
    while i < n
        invariant
            n == s@.len(),
            0 <= i <= n,
            forall|j: int| 0 <= j < i ==> #[trigger] s@[j] != '@',
        decreases n - i,
    {
        if s.get_char(i) == '@' {
            return Some(i);
        }
        i += 1;
    }
    None
}

/// Position of the last `.` of `s` strictly after position `from`, if any.
fn find_last_dot(s: &str, from: usize, n: usize) -> (r: Option<usize>)
    requires
        n == s@.len(),
        from < n,
    ensures
        match r {
            Some(dot) => {
                &&& from < dot < n
                &&& s@[dot as int] == '.'
                &&& forall|l: int| dot < l < n ==> #[trigger] s@[l] != '.'
            },
            None => forall|l: int| from < l < n ==> #[trigger] s@[l] != '.',
        },
{
    let mut j: usize = n;
    while j > from + 1
        invariant
            n == s@.len(),
            from < n,
            from + 1 <= j <= n,
            forall|l: int| j <= l < n ==> #[trigger] s@[l] != '.',
        decreases j,
    {
        j -= 1;
        if s.get_char(j) == '.' {
            return Some(j);
        }
    }
    None
}

/// Decides [`valid_email`] on a string slice.
pub fn check_email(s: &str) -> (b: bool)
    ensures
        b == valid_email(s@),
{
    let n = s.unicode_len();
    let at = match find_at_sign(s, n) {
        Some(a) => a,
        None => {
            // No '@' anywhere: no split exists.
            proof {
                assert forall|a: int, d: int| !email_split_ok(s@, a, d) by {
                    if email_split_ok(s@, a, d) {
                        assert(s@[a] != '@');
                    }
                }
            }
            return false;
        },
    };
    if at == 0 {
        // Empty local part.
        proof {
            assert forall|a: int, d: int| !email_split_ok(s@, a, d) by {
                if email_split_ok(s@, a, d) {
                    assert(is_local_char(s@[0]));
                }
            }
        }
        return false;
    }
    // Everything before the '@' must be a local character.
    let mut i: usize = 0;
    while i < at
        invariant
            n == s@.len(),
            0 < at < n,
            0 <= i <= at,
            s@[at as int] == '@',
            forall|j: int| 0 <= j < at ==> #[trigger] s@[j] != '@',
            forall|j: int| 0 <= j < i ==> is_local_char(#[trigger] s@[j]),
        decreases at - i,
    {
        if !local_char(s.get_char(i)) {
            proof {
                let bad = i as int;
                assert forall|a: int, d: int| !email_split_ok(s@, a, d) by {
                    if email_split_ok(s@, a, d) {
                        if a < at {
                            assert(s@[a] != '@');
                        } else if a > at {
                            assert(is_local_char(s@[at as int]));
                        } else {
                            assert(is_local_char(s@[bad]));
                        }
                    }
                }
            }
            return false;
        }
        i += 1;
    }
    let dot = match find_last_dot(s, at, n) {
        Some(d) => d,
        None => {
            proof {
                assert forall|a: int, d: int| !email_split_ok(s@, a, d) by {
                    if email_split_ok(s@, a, d) {
                        if a < at {
                            assert(s@[a] != '@');
                        } else if a > at {
                            assert(is_local_char(s@[at as int]));
                        } else {
                            assert(s@[d] != '.');
                        }
                    }
                }
            }
            return false;
        },
    };
    // The only candidate split is (at, dot); check the remaining conditions.
    if dot - at < 2 || n - dot < 3 {
        proof {
            if valid_email(s@) {
                let (a, d) = choose|a: int, d: int| email_split_ok(s@, a, d);
                lemma_split_determined(s@, at as int, dot as int, a, d);
            }
        }
        return false;
    }
    let mut p: usize = at + 1;
    while p < dot
        invariant
            n == s@.len(),
            0 < at < dot < n,
            at < p <= dot,
            s@[at as int] == '@',
            s@[dot as int] == '.',
            forall|j: int| 0 <= j < at ==> #[trigger] s@[j] != '@',
            forall|l: int| dot < l < n ==> #[trigger] s@[l] != '.',
            forall|l: int| at < l < p ==> is_domain_char(#[trigger] s@[l]),
        decreases dot - p,
    {
        if !domain_char(s.get_char(p)) {
            proof {
                if valid_email(s@) {
                    let (a, d) = choose|a: int, d: int| email_split_ok(s@, a, d);
                    lemma_split_determined(s@, at as int, dot as int, a, d);
                    assert(is_domain_char(s@[p as int]));
                }
            }
            return false;
        }
        p += 1;
    }
    let mut q: usize = dot + 1;
    while q < n
        invariant
            n == s@.len(),
            0 < at < dot < n,
            dot < q <= n,
            s@[at as int] == '@',
            s@[dot as int] == '.',
            forall|j: int| 0 <= j < at ==> #[trigger] s@[j] != '@',
            forall|l: int| dot < l < n ==> #[trigger] s@[l] != '.',
            forall|l: int| dot < l < q ==> is_alpha_char(#[trigger] s@[l]),
        decreases n - q,
    {
        if !alpha_char(s.get_char(q)) {
            proof {
                if valid_email(s@) {
                    let (a, d) = choose|a: int, d: int| email_split_ok(s@, a, d);
                    lemma_split_determined(s@, at as int, dot as int, a, d);
                    assert(is_alpha_char(s@[q as int]));
                }
            }
            return false;
        }
        q += 1;
    }
    proof {
        assert(email_split_ok(s@, at as int, dot as int));
    }
    true
}

/// A syntactically valid email address.
#[derive(Debug, Eq, PartialOrd, Ord)]
pub struct EmailAddr {
    addr: String,
}

impl View for EmailAddr {
    type V = Seq<char>;

    closed spec fn view(&self) -> Seq<char> {
        self.addr@
    }
}

impl EmailAddr {
    /// The wrapped string always satisfies the address syntax when the
    /// address was made through [`EmailAddr::new`].
    pub open spec fn wf(&self) -> bool {
        valid_email(self@)
    }

    /// Construct an address, or nothing if `addr` is not syntactically
    /// valid.
    pub fn new(addr: &str) -> (r: Option<EmailAddr>)
        ensures
            match r {
                Some(e) => valid_email(addr@) && e@ == addr@ && e.wf(),
                None => !valid_email(addr@),
            },
    {
        if check_email(addr) {
            Some(EmailAddr { addr: String::from_str(addr) })
        } else {
            None
        }
    }

    /// Construct an address from a string already known to be valid;
    /// here the caller carries the burden of proof, so no run-time
    /// check is made.
    pub fn new_unchecked(addr: &str) -> (r: EmailAddr)
        requires
            valid_email(addr@),
        ensures
            r@ == addr@,
            r.wf(),
    {
        EmailAddr { addr: String::from_str(addr) }
    }

    /// Read access to the underlying string.
    pub fn as_str(&self) -> (r: &str)
        ensures
            r@ == self@,
    {
        self.addr.as_str()
    }
}

impl Clone for EmailAddr {
    fn clone(&self) -> (r: Self)
        ensures
            r == *self,
    {
        EmailAddr { addr: self.addr.clone() }
    }
}

impl PartialEq for EmailAddr {
    fn eq(&self, other: &Self) -> (r: bool) {
        self.addr == other.addr
    }
}

impl vstd::std_specs::cmp::PartialEqSpecImpl for EmailAddr {
    open spec fn obeys_eq_spec() -> bool {
        true
    }

    open spec fn eq_spec(&self, other: &Self) -> bool {
        self@ == other@
    }
}

/// The failure of parsing an email address from a raw string.
#[derive(Debug, Clone, Copy, PartialEq, Eq, Structural)]
pub struct EmailParseError;

/// Parse a raw string into a validated address, reporting invalid syntax
/// as a recoverable error.
pub fn parse_email(s: &str) -> (r: Result<EmailAddr, EmailParseError>)
    ensures
        match r {
            Ok(e) => valid_email(s@) && e@ == s@,
            Err(_) => !valid_email(s@),
        },
{
    match EmailAddr::new(s) {
        Some(e) => Ok(e),
        None => Err(EmailParseError),
    }
}

/// Language a person prefers for communication.
#[derive(Debug, Clone, Copy, PartialEq, Eq, Structural)]
pub enum PreferredLanguage {
    English,
    German,
    Spanish,
    Schwyzerduetsch,
}

impl Default for PreferredLanguage {
    fn default() -> (r: Self)
        ensures
            r == PreferredLanguage::English,
    {
        PreferredLanguage::English
    }
}

/// An amount of Swiss francs.
#[derive(Debug, Clone, Copy, PartialEq, Eq, Structural)]
pub struct ChfAmount {
    pub chf: u64,
}

impl ChfAmount {
    pub fn new(chf: u64) -> (r: Self)
        ensures
            r.chf == chf,
    {
        ChfAmount { chf }
    }
}

/// What relationship a person has to the company.
#[derive(Debug, Clone, Eq)]
pub enum Affiliation {
    Employee { annual_income: ChfAmount },
    Contractor { company_name: String },
    Intern,
}

/// Field-by-field equality of two affiliations.
pub open spec fn affiliation_eq(a: Affiliation, b: Affiliation) -> bool {
    match (a, b) {
        (
            Affiliation::Employee { annual_income: x },
            Affiliation::Employee { annual_income: y },
        ) => x == y,
        (
            Affiliation::Contractor { company_name: x },
            Affiliation::Contractor { company_name: y },
        ) => x@ == y@,
        (Affiliation::Intern, Affiliation::Intern) => true,
        _ => false,
    }
}

impl PartialEq for Affiliation {
    fn eq(&self, other: &Self) -> (r: bool) {
        match (self, other) {
            (
                Affiliation::Employee { annual_income: x },
                Affiliation::Employee { annual_income: y },
            ) => *x == *y,
            (
                Affiliation::Contractor { company_name: x },
                Affiliation::Contractor { company_name: y },
            ) => *x == *y,
            (Affiliation::Intern, Affiliation::Intern) => true,
            _ => false,
        }
    }
}

impl vstd::std_specs::cmp::PartialEqSpecImpl for Affiliation {
    open spec fn obeys_eq_spec() -> bool {
        true
    }

    open spec fn eq_spec(&self, other: &Self) -> bool {
        affiliation_eq(*self, *other)
    }
}

/// A person: an immutable identity record.
#[derive(Debug, Clone, Eq)]
pub struct Person {
    /// First name.
    pub first: String,
    /// Last name.
    pub last: String,
    /// Email address.
    pub email: EmailAddr,
    /// Preferred language for communication.
    pub pref_lang: Option<PreferredLanguage>,
    /// What relationship this person has to the company.
    pub affiliation: Affiliation,
}

/// Two persons are the same identity exactly when every field agrees.
pub open spec fn person_eq(a: Person, b: Person) -> bool {
    &&& a.first@ == b.first@
    &&& a.last@ == b.last@
    &&& a.email@ == b.email@
    &&& a.pref_lang == b.pref_lang
    &&& affiliation_eq(a.affiliation, b.affiliation)
}

impl PartialEq for Person {
    fn eq(&self, other: &Self) -> (r: bool) {
        let lang_eq = match (self.pref_lang, other.pref_lang) {
            (Some(a), Some(b)) => a == b,
            (None, None) => true,
            _ => false,
        };
        self.first == other.first && self.last == other.last && self.email == other.email
            && lang_eq && self.affiliation == other.affiliation
    }
}

impl vstd::std_specs::cmp::PartialEqSpecImpl for Person {
    open spec fn obeys_eq_spec() -> bool {
        true
    }

    open spec fn eq_spec(&self, other: &Self) -> bool {
        person_eq(*self, *other)
    }
}

/// The ways building a person can fail: a mandatory field was left unset.
#[derive(Debug, Clone, Copy, PartialEq, Eq, Structural)]
pub enum BuildPersonError {
    FirstnameUnset,
    LastnameUnset,
    EmailUnset,
    AffiliationUnset,
}

/// Accumulates the fields of a [`Person`]; everything but the preferred
/// language is mandatory at [`PersonBuilder::build`] time.
#[derive(Debug, Clone)]
pub struct PersonBuilder {
    pub first: Option<String>,
    pub last: Option<String>,
    pub email: Option<EmailAddr>,
    pub pref_lang: Option<PreferredLanguage>,
    pub affiliation: Option<Affiliation>,
}

/// What [`PersonBuilder::build`] returns: the first missing mandatory
/// field decides the error, otherwise the person is assembled as given.
pub open spec fn build_spec(b: PersonBuilder) -> Result<Person, BuildPersonError> {
    if b.first is None {
        Err(BuildPersonError::FirstnameUnset)
    } else if b.last is None {
        Err(BuildPersonError::LastnameUnset)
    } else if b.email is None {
        Err(BuildPersonError::EmailUnset)
    } else if b.affiliation is None {
        Err(BuildPersonError::AffiliationUnset)
    } else {
        Ok(
            Person {
                first: b.first->0,
                last: b.last->0,
                email: b.email->0,
                pref_lang: b.pref_lang,
                affiliation: b.affiliation->0,
            },
        )
    }
}

impl PersonBuilder {
    pub fn new() -> (r: Self)
        ensures
            r.first is None,
            r.last is None,
            r.email is None,
            r.pref_lang is None,
            r.affiliation is None,
    {
        PersonBuilder { first: None, last: None, email: None, pref_lang: None, affiliation: None }
    }

    pub fn with_first_name(self, s: &str) -> (r: Self)
        ensures
            r.first matches Some(f) && f@ == s@,
            r.last == self.last,
            r.email == self.email,
            r.pref_lang == self.pref_lang,
            r.affiliation == self.affiliation,
    {
        PersonBuilder { first: Some(String::from_str(s)), ..self }
    }

    pub fn with_last_name(self, s: &str) -> (r: Self)
        ensures
            r.last matches Some(f) && f@ == s@,
            r.first == self.first,
            r.email == self.email,
            r.pref_lang == self.pref_lang,
            r.affiliation == self.affiliation,
    {
        PersonBuilder { last: Some(String::from_str(s)), ..self }
    }

    /// Set the email address from raw text. Text that does not satisfy
    /// the address syntax is reported as a recoverable parse error.
    pub fn with_email_address(self, s: &str) -> (r: Result<Self, EmailParseError>)
        ensures
            match r {
                Ok(b) => {
                    &&& valid_email(s@)
                    &&& b.email matches Some(e) && e@ == s@
                    &&& b.first == self.first
                    &&& b.last == self.last
                    &&& b.pref_lang == self.pref_lang
                    &&& b.affiliation == self.affiliation
                },
                Err(_) => !valid_email(s@),
            },
    {
        match EmailAddr::new(s) {
            Some(e) => Ok(PersonBuilder { email: Some(e), ..self }),
            None => Err(EmailParseError),
        }
    }

    pub fn with_preferred_language(self, pref_lang: PreferredLanguage) -> (r: Self)
        ensures
            r.pref_lang == Some(pref_lang),
            r.first == self.first,
            r.last == self.last,
            r.email == self.email,
            r.affiliation == self.affiliation,
    {
        PersonBuilder { pref_lang: Some(pref_lang), ..self }
    }

    pub fn with_affiliation(self, relationship: Affiliation) -> (r: Self)
        ensures
            r.affiliation matches Some(a) && affiliation_eq(a, relationship),
            r.first == self.first,
            r.last == self.last,
            r.email == self.email,
            r.pref_lang == self.pref_lang,
    {
        PersonBuilder { affiliation: Some(relationship), ..self }
    }

    /// Assemble the person, or report the first missing mandatory field.
    pub fn build(self) -> (r: Result<Person, BuildPersonError>)
        ensures
            r == build_spec(self),
    {
        let PersonBuilder { first, last, email, pref_lang, affiliation } = self;
        let Some(first) = first else {
            return Err(BuildPersonError::FirstnameUnset);
        };
        let Some(last) = last else {
            return Err(BuildPersonError::LastnameUnset);
        };
        let Some(email) = email else {
            return Err(BuildPersonError::EmailUnset);
        };
        let Some(affiliation) = affiliation else {
            return Err(BuildPersonError::AffiliationUnset);
        };
        Ok(Person { first, last, email, pref_lang, affiliation })
    }
}

} // verus!
