//! Validated passwords.
use vstd::prelude::*;
use vstd::utf8::encode_utf8;
use crate::text::{chars_of, is_digit_char};

verus! {

/// The rule of a password that a string breaks.
#[derive(Debug, Clone, Copy, PartialEq, Eq, Structural)]
pub enum PasswordError {
    Empty,
    TooShort,
    MissingUppercase,
    MissingLowercase,
    MissingDigit,
    MissingSymbol,
}

/// Fewest bytes (UTF-8) of a password.
pub const MIN_PASSWORD_BYTES: usize = 8;

/// Whether `c` has the Unicode `Uppercase` property.
pub uninterp spec fn uppercase_of(c: char) -> bool;

/// Whether `c` has the Unicode `Lowercase` property.
pub uninterp spec fn lowercase_of(c: char) -> bool;

/// Relies on `char::is_uppercase`: whether `c` has the Unicode `Uppercase` property.
#[verifier::external_body]
fn char_is_uppercase(c: char) -> (r: bool)
    ensures
        r == uppercase_of(c),
{
    c.is_uppercase()
}

/// Relies on `char::is_lowercase`: whether `c` has the Unicode `Lowercase` property.
#[verifier::external_body]
fn char_is_lowercase(c: char) -> (r: bool)
    ensures
        r == lowercase_of(c),
{
    c.is_lowercase()
}

/// One of the punctuation characters that count as a symbol.
pub open spec fn is_symbol_char(c: char) -> bool {
    c == '!' || c == '@' || c == '#' || c == '$' || c == '%' || c == '^' || c == '&' || c == '*'
        || c == '(' || c == ')' || c == '_' || c == '+' || c == '-' || c == '=' || c == '['
        || c == ']' || c == '{' || c == '}' || c == '|' || c == ';' || c == ':' || c == ','
        || c == '.' || c == '<' || c == '>' || c == '?'
}

pub open spec fn has_uppercase(p: Seq<char>) -> bool {
    exists|i: int| 0 <= i < p.len() && uppercase_of(#[trigger] p[i])
}

pub open spec fn has_lowercase(p: Seq<char>) -> bool {
    exists|i: int| 0 <= i < p.len() && lowercase_of(#[trigger] p[i])
}

pub open spec fn has_digit(p: Seq<char>) -> bool {
    exists|i: int| 0 <= i < p.len() && is_digit_char(#[trigger] p[i])
}

pub open spec fn has_symbol(p: Seq<char>) -> bool {
    exists|i: int| 0 <= i < p.len() && is_symbol_char(#[trigger] p[i])
}

/// The first rule, in the order of `PasswordError`, that `p` breaks, or `None`.
pub open spec fn password_error(p: Seq<char>) -> Option<PasswordError> {
    if p.len() == 0 {
        Some(PasswordError::Empty)
    } else if encode_utf8(p).len() < MIN_PASSWORD_BYTES {
        Some(PasswordError::TooShort)
    } else if !has_uppercase(p) {
        Some(PasswordError::MissingUppercase)
    } else if !has_lowercase(p) {
        Some(PasswordError::MissingLowercase)
    } else if !has_digit(p) {
        Some(PasswordError::MissingDigit)
    } else if !has_symbol(p) {
        Some(PasswordError::MissingSymbol)
    } else {
        None
    }
}

pub open spec fn is_valid_password(p: Seq<char>) -> bool {
    password_error(p) is None
}

fn is_symbol(c: char) -> (r: bool)
    ensures
        r == is_symbol_char(c),
{
    c == '!' || c == '@' || c == '#' || c == '$' || c == '%' || c == '^' || c == '&' || c == '*'
        || c == '(' || c == ')' || c == '_' || c == '+' || c == '-' || c == '=' || c == '['
        || c == ']' || c == '{' || c == '}' || c == '|' || c == ';' || c == ':' || c == ','
        || c == '.' || c == '<' || c == '>' || c == '?'
}

/// Checks the rules of a password on `s`, in the order of `PasswordError`.
pub fn find_password_error(s: &str) -> (r: Option<PasswordError>)
    ensures
        r == password_error(s@),
{
    if s.is_empty() {
        return Some(PasswordError::Empty);
    }
    let bytes = s.as_bytes();
    if bytes.len() < MIN_PASSWORD_BYTES {
        return Some(PasswordError::TooShort);
    }
    let v = chars_of(s);
    let n = v.len();
    let mut upper = false;
    let mut lower = false;
    let mut digit = false;
    let mut symbol = false;
    let mut i: usize = 0;
    while i < n
        invariant
            n == v@.len(),
            i <= n,
            upper == exists|j: int| 0 <= j < i && uppercase_of(#[trigger] v@[j]),
            lower == exists|j: int| 0 <= j < i && lowercase_of(#[trigger] v@[j]),
            digit == exists|j: int| 0 <= j < i && is_digit_char(#[trigger] v@[j]),
            symbol == exists|j: int| 0 <= j < i && is_symbol_char(#[trigger] v@[j]),
        decreases n - i,
    {
        let c = v[i];
        upper = upper || char_is_uppercase(c);
        lower = lower || char_is_lowercase(c);
        digit = digit || ('0' <= c && c <= '9');
        symbol = symbol || is_symbol(c);
        i += 1;
    }
    if !upper {
        Some(PasswordError::MissingUppercase)
    } else if !lower {
        Some(PasswordError::MissingLowercase)
    } else if !digit {
        Some(PasswordError::MissingDigit)
    } else if !symbol {
        Some(PasswordError::MissingSymbol)
    } else {
        None
    }
}

/// A password that satisfies every rule of `password_error`. It has no `Debug`:
/// the text leaves it only through `expose_secret`.
pub struct Password {
    secret: String,
}

impl View for Password {
    type V = Seq<char>;

    closed spec fn view(&self) -> Seq<char> {
        self.secret@
    }
}

impl Password {
    #[verifier::type_invariant]
    closed spec fn inv(&self) -> bool {
        is_valid_password(self.secret@)
    }

    /// Parses `s` as a password; the error names the first rule it breaks.
    pub fn parse(s: String) -> (r: Result<Password, PasswordError>)
        ensures
            match r {
                Ok(p) => is_valid_password(s@) && p@ == s@,
                Err(err) => password_error(s@) == Some(err),
            },
    {
        match find_password_error(s.as_str()) {
            Some(err) => Err(err),
            None => Ok(Password { secret: s }),
        }
    }

    /// The plain text of the password.
    pub fn expose_secret(&self) -> (r: &str)
        ensures
            r@ == self@,
            is_valid_password(r@),
    {
        proof {
            use_type_invariant(self);
        }
        self.secret.as_str()
    }
}

impl Clone for Password {
    fn clone(&self) -> (r: Self)
        ensures
            r@ == self@,
    {
        proof {
            use_type_invariant(self);
        }
        Password { secret: self.secret.clone() }
    }
}

impl PartialEq for Password {
    fn eq(&self, other: &Password) -> (r: bool) {
        self.secret == other.secret
    }
}

impl vstd::std_specs::cmp::PartialEqSpecImpl for Password {
    open spec fn obeys_eq_spec() -> bool {
        true
    }

    open spec fn eq_spec(&self, other: &Password) -> bool {
        self@ == other@
    }
}

} // verus!
