//! Validated email addresses.
use vstd::prelude::*;
use crate::text::{chars_of, range_contains};

verus! {

/// The rule of an email address that a string breaks.
#[derive(Debug, Clone, Copy, PartialEq, Eq, Structural)]
pub enum EmailError {
    Empty,
    MissingAt,
    MultipleAt,
    EmptyLocalPart,
    EmptyDomain,
    DomainWithoutDot,
    LeadingDot,
    TrailingDot,
    ConsecutiveDots,
}

pub open spec fn has_two_ats(s: Seq<char>) -> bool {
    exists|i: int, j: int| 0 <= i < j < s.len() && s[i] == '@' && s[j] == '@'
}

/// Where the `@` stands, in a string that holds one.
pub open spec fn at_position(s: Seq<char>) -> int {
    choose|i: int| 0 <= i < s.len() && s[i] == '@'
}

pub open spec fn local_part(s: Seq<char>) -> Seq<char> {
    s.subrange(0, at_position(s))
}

pub open spec fn domain_part(s: Seq<char>) -> Seq<char> {
    s.subrange(at_position(s) + 1, s.len() as int)
}

pub open spec fn has_double_dot(s: Seq<char>) -> bool {
    exists|i: int| 0 <= i && i + 1 < s.len() && #[trigger] s[i] == '.' && s[i + 1] == '.'
}

/// The first rule, in the order of `EmailError`, that the two parts break.
pub open spec fn parts_error(local: Seq<char>, domain: Seq<char>) -> Option<EmailError> {
    if local.len() == 0 {
        Some(EmailError::EmptyLocalPart)
    } else if domain.len() == 0 {
        Some(EmailError::EmptyDomain)
    } else if !domain.contains('.') {
        Some(EmailError::DomainWithoutDot)
    } else if local[0] == '.' || domain[0] == '.' {
        Some(EmailError::LeadingDot)
    } else if local.last() == '.' || domain.last() == '.' {
        Some(EmailError::TrailingDot)
    } else if has_double_dot(local) || has_double_dot(domain) {
        Some(EmailError::ConsecutiveDots)
    } else {
        None
    }
}

/// The first rule that `s` breaks as an email address, or `None` when it is one.
pub open spec fn email_error(s: Seq<char>) -> Option<EmailError> {
    if s.len() == 0 {
        Some(EmailError::Empty)
    } else if !s.contains('@') {
        Some(EmailError::MissingAt)
    } else if has_two_ats(s) {
        Some(EmailError::MultipleAt)
    } else {
        parts_error(local_part(s), domain_part(s))
    }
}

pub open spec fn is_valid_email(s: Seq<char>) -> bool {
    email_error(s) is None
}

/// `s` holds exactly one `@`.
pub open spec fn one_at(s: Seq<char>) -> bool {
    s.contains('@') && !has_two_ats(s)
}

/// Whether `s` breaks the rule `rule`, each rule read on its own.
pub open spec fn breaks(s: Seq<char>, rule: EmailError) -> bool {
    let local = local_part(s);
    let domain = domain_part(s);
    match rule {
        EmailError::Empty => s.len() == 0,
        EmailError::MissingAt => !s.contains('@'),
        EmailError::MultipleAt => has_two_ats(s),
        EmailError::EmptyLocalPart => one_at(s) && local.len() == 0,
        EmailError::EmptyDomain => one_at(s) && domain.len() == 0,
        EmailError::DomainWithoutDot => one_at(s) && !domain.contains('.'),
        EmailError::LeadingDot => one_at(s) && ((local.len() > 0 && local[0] == '.') || (
        domain.len() > 0 && domain[0] == '.')),
        EmailError::TrailingDot => one_at(s) && ((local.len() > 0 && local.last() == '.') || (
        domain.len() > 0 && domain.last() == '.')),
        EmailError::ConsecutiveDots => one_at(s) && (has_double_dot(local) || has_double_dot(
            domain,
        )),
    }
}

/// What `Email::parse` gives for `s`: the address, or the first rule it breaks.
pub open spec fn parse_email(s: Seq<char>) -> Result<Seq<char>, EmailError> {
    match email_error(s) {
        Some(rule) => Err(rule),
        None => Ok(s),
    }
}

/// A string that breaks any rule is refused, with an error that names a rule
/// it breaks; a string that breaks none is accepted, and parsing the accepted
/// address again gives the same address.
pub proof fn lemma_parse_email_rules(s: Seq<char>)
    ensures
        (exists|rule: EmailError| #[trigger] breaks(s, rule)) ==> parse_email(s) is Err,
        parse_email(s) matches Err(rule) ==> breaks(s, rule),
        parse_email(s) matches Ok(e) ==> e == s && parse_email(e) == Ok::<
            Seq<char>,
            EmailError,
        >(e),
{
    if exists|rule: EmailError| #[trigger] breaks(s, rule) {
        let rule = choose|rule: EmailError| #[trigger] breaks(s, rule);
        assert(parse_email(s) is Err);
    }
}

fn has_dot_pair(v: &Vec<char>, lo: usize, hi: usize) -> (r: bool)
    requires
        lo <= hi <= v@.len(),
    ensures
        r == has_double_dot(v@.subrange(lo as int, hi as int)),
{
    let ghost sub = v@.subrange(lo as int, hi as int);
    if hi - lo < 2 {
        return false;
    }
    let mut i: usize = lo;
    while i + 1 < hi
        invariant
            lo <= i < hi <= v@.len(),
            sub == v@.subrange(lo as int, hi as int),
            forall|j: int| lo <= j < i ==> !(#[trigger] v@[j] == '.' && v@[j + 1] == '.'),
        decreases hi - i,
    {
        if v[i] == '.' && v[i + 1] == '.' {
            proof {
                assert(sub[i - lo] == '.' && sub[i - lo + 1] == '.');
            }
            return true;
        }
        i += 1;
    }
    proof {
        assert forall|j: int| 0 <= j && j + 1 < sub.len() implies !(#[trigger] sub[j] == '.' && sub[j + 1]
            == '.') by {
            assert(sub[j] == v@[lo + j]);
            assert(sub[j + 1] == v@[lo + j + 1]);
        }
    }
    false
}

/// Checks the rules of an email address on `v`, in the order of `EmailError`.
pub fn find_email_error(v: &Vec<char>) -> (r: Option<EmailError>)
    ensures
        r == email_error(v@),
{
    let n = v.len();
    if n == 0 {
        return Some(EmailError::Empty);
    }
    let mut at: Option<usize> = None;
    let mut i: usize = 0;
    while i < n
        invariant
            n == v@.len(),
            i <= n,
            match at {
                None => forall|j: int| 0 <= j < i ==> v@[j] != '@',
                Some(k) => k < i && v@[k as int] == '@' && forall|j: int|
                    0 <= j < i && j != k ==> v@[j] != '@',
            },
        decreases n - i,
    {
        if v[i] == '@' {
            match at {
                Some(k) => {
                    proof {
                        assert(v@[k as int] == '@');
                        assert(v@.contains('@'));
                        assert(has_two_ats(v@));
                    }
                    return Some(EmailError::MultipleAt);
                },
                None => {
                    at = Some(i);
                },
            }
        }
        i += 1;
    }
    let k = match at {
        None => {
            return Some(EmailError::MissingAt);
        },
        Some(k) => k,
    };
    let ghost s = v@;
    proof {
        assert(s[k as int] == '@');
        assert(s.contains('@'));
        assert(!has_two_ats(s)) by {
            if has_two_ats(s) {
                let (a, b) = choose|a: int, b: int|
                    0 <= a < b < s.len() && s[a] == '@' && s[b] == '@';
                assert(a == k && b == k);
            }
        }
        let p = at_position(s);
        assert(0 <= p < s.len() && s[p] == '@');
        assert(p == k);
    }
    let ghost local = v@.subrange(0, k as int);
    let ghost domain = v@.subrange(k + 1, n as int);
    if k == 0 {
        return Some(EmailError::EmptyLocalPart);
    }
    if k + 1 == n {
        return Some(EmailError::EmptyDomain);
    }
    if !range_contains(v, k + 1, n, '.') {
        return Some(EmailError::DomainWithoutDot);
    }
    proof {
        assert(local[0] == v@[0]);
        assert(domain[0] == v@[k + 1]);
        assert(local.last() == v@[k - 1]);
        assert(domain.last() == v@[n - 1]);
    }
    if v[0] == '.' || v[k + 1] == '.' {
        return Some(EmailError::LeadingDot);
    }
    if v[k - 1] == '.' || v[n - 1] == '.' {
        return Some(EmailError::TrailingDot);
    }
    if has_dot_pair(v, 0, k) || has_dot_pair(v, k + 1, n) {
        return Some(EmailError::ConsecutiveDots);
    }
    None
}

/// An email address that satisfies every rule of `email_error`.
#[derive(Debug)]
pub struct Email {
    address: String,
}

impl View for Email {
    type V = Seq<char>;

    closed spec fn view(&self) -> Seq<char> {
        self.address@
    }
}

impl Email {
    #[verifier::type_invariant]
    closed spec fn inv(&self) -> bool {
        is_valid_email(self.address@)
    }

    /// Parses `s` as an email address; the error names the first rule it breaks.
    pub fn parse(s: String) -> (r: Result<Email, EmailError>)
        ensures
            match r {
                Ok(e) => parse_email(s@) == Ok::<Seq<char>, EmailError>(e@),
                Err(err) => parse_email(s@) == Err::<Seq<char>, EmailError>(err),
            },
    {
        let v = chars_of(s.as_str());
        match find_email_error(&v) {
            Some(err) => Err(err),
            None => Ok(Email { address: s }),
        }
    }

    /// The address as text; it satisfies every rule.
    pub fn as_str(&self) -> (r: &str)
        ensures
            r@ == self@,
            is_valid_email(r@),
    {
        proof {
            use_type_invariant(self);
        }
        self.address.as_str()
    }
}

impl Clone for Email {
    fn clone(&self) -> (r: Self)
        ensures
            r@ == self@,
    {
        proof {
            use_type_invariant(self);
        }
        Email { address: self.address.clone() }
    }
}

impl PartialEq for Email {
    fn eq(&self, other: &Email) -> (r: bool) {
        self.address == other.address
    }
}

impl vstd::std_specs::cmp::PartialEqSpecImpl for Email {
    open spec fn obeys_eq_spec() -> bool {
        true
    }

    open spec fn eq_spec(&self, other: &Email) -> bool {
        self@ == other@
    }
}

impl Eq for Email {

}

} // verus!
