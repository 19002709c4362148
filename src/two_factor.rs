//! Login attempt ids and one-time codes of the second factor.
use rand::Rng;
use vstd::prelude::*;
use crate::errors::ValidationError;
use crate::text::{chars_of, digit_char, digit_str, is_digit_char};

verus! {

#[verifier::external_type_specification]
#[verifier::external_body]
pub struct ExUuidError(uuid::Error);

/// The hyphenated lower-case text of the UUID that `s` denotes, or `None`
/// when `s` denotes none.
pub uninterp spec fn uuid_text(s: Seq<char>) -> Option<Seq<char>>;

/// Relies on `uuid::Uuid::parse_str` and the `Display` of `uuid::Uuid`: the
/// canonical text of the UUID that `s` denotes; that text denotes the same UUID.
#[verifier::external_body]
fn canonical_uuid(s: &str) -> (r: Result<String, uuid::Error>)
    ensures
        match r {
            Ok(t) => uuid_text(s@) == Some(t@) && uuid_text(t@) == Some(t@),
            Err(_) => uuid_text(s@) is None,
        },
{
    match uuid::Uuid::parse_str(s) {
        Ok(u) => Ok(u.to_string()),
        Err(e) => Err(e),
    }
}

/// Relies on `uuid::Uuid::new_v4` and the `Display` of `uuid::Uuid`: the text of
/// a fresh random UUID, which is canonical.
#[verifier::external_body]
fn fresh_uuid() -> (r: String)
    ensures
        uuid_text(r@) == Some(r@),
{
    uuid::Uuid::new_v4().to_string()
}

/// Relies on `rand::Rng::gen_range` over `rand::thread_rng()`: a random number
/// below `bound`.
#[verifier::external_body]
fn random_below(bound: u32) -> (r: u32)
    requires
        0 < bound,
    ensures
        r < bound,
{
    rand::thread_rng().gen_range(0..bound)
}

/// Identifies one login attempt that waits for its second factor.
#[derive(Debug)]
pub struct LoginAttemptId {
    id: String,
}

impl View for LoginAttemptId {
    type V = Seq<char>;

    closed spec fn view(&self) -> Seq<char> {
        self.id@
    }
}

impl LoginAttemptId {
    #[verifier::type_invariant]
    closed spec fn inv(&self) -> bool {
        uuid_text(self.id@) == Some(self.id@)
    }

    /// Parses `s` as a UUID and keeps its canonical text.
    pub fn parse(s: &str) -> (r: Result<LoginAttemptId, ValidationError>)
        ensures
            match r {
                Ok(id) => uuid_text(s@) == Some(id@),
                Err(e) => uuid_text(s@) is None && e == ValidationError::LoginAttemptId,
            },
    {
        match canonical_uuid(s) {
            Ok(t) => Ok(LoginAttemptId { id: t }),
            Err(_) => Err(ValidationError::LoginAttemptId),
        }
    }

    /// The canonical text of the id.
    pub fn as_str(&self) -> (r: &str)
        ensures
            r@ == self@,
            uuid_text(r@) == Some(r@),
    {
        proof {
            use_type_invariant(self);
        }
        self.id.as_str()
    }
}

impl Default for LoginAttemptId {
    /// A fresh random id.
    fn default() -> (r: Self)
        ensures
            uuid_text(r@) == Some(r@),
    {
        LoginAttemptId { id: fresh_uuid() }
    }
}

impl Clone for LoginAttemptId {
    fn clone(&self) -> (r: Self)
        ensures
            r@ == self@,
    {
        proof {
            use_type_invariant(self);
        }
        LoginAttemptId { id: self.id.clone() }
    }
}

impl PartialEq for LoginAttemptId {
    fn eq(&self, other: &LoginAttemptId) -> (r: bool) {
        self.id == other.id
    }
}

impl vstd::std_specs::cmp::PartialEqSpecImpl for LoginAttemptId {
    open spec fn obeys_eq_spec() -> bool {
        true
    }

    open spec fn eq_spec(&self, other: &LoginAttemptId) -> bool {
        self@ == other@
    }
}

/// Number of digits of a one-time code.
pub const CODE_DIGITS: usize = 6;

/// Number of distinct one-time codes.
pub const CODE_SPACE: u32 = 1000000;

/// Six ASCII digits.
pub open spec fn is_code_text(s: Seq<char>) -> bool {
    s.len() == CODE_DIGITS && forall|i: int| 0 <= i < s.len() ==> is_digit_char(#[trigger] s[i])
}

pub open spec fn pow10(k: nat) -> int
    decreases k,
{
    if k == 0 {
        1
    } else {
        10 * pow10((k - 1) as nat)
    }
}

proof fn lemma_pow10_positive(k: nat)
    ensures
        pow10(k) > 0,
    decreases k,
{
    if k > 0 {
        lemma_pow10_positive((k - 1) as nat);
    }
}

/// The six digits of `n`, most significant first, padded with zeros.
pub open spec fn code_text_of(n: int) -> Seq<char> {
    Seq::new(CODE_DIGITS as nat, |i: int| digit_char((n / pow10((5 - i) as nat)) % 10))
}

/// A one-time code: six ASCII digits.
#[derive(Debug)]
pub struct TwoFACode {
    code: String,
}

impl View for TwoFACode {
    type V = Seq<char>;

    closed spec fn view(&self) -> Seq<char> {
        self.code@
    }
}

impl TwoFACode {
    #[verifier::type_invariant]
    closed spec fn inv(&self) -> bool {
        is_code_text(self.code@)
    }

    /// Accepts exactly six ASCII digits.
    pub fn parse(code: &str) -> (r: Result<TwoFACode, ValidationError>)
        ensures
            match r {
                Ok(c) => is_code_text(code@) && c@ == code@,
                Err(e) => !is_code_text(code@) && e == ValidationError::TwoFACode,
            },
    {
        let v = chars_of(code);
        if v.len() != CODE_DIGITS {
            return Err(ValidationError::TwoFACode);
        }
        let mut i: usize = 0;
        while i < v.len()
            invariant
                v@ == code@,
                i <= v@.len(),
                forall|j: int| 0 <= j < i ==> is_digit_char(#[trigger] v@[j]),
            decreases v@.len() - i,
        {
            if !('0' <= v[i] && v[i] <= '9') {
                return Err(ValidationError::TwoFACode);
            }
            i += 1;
        }
        Ok(TwoFACode { code: code.to_owned() })
    }

    /// The code whose digits are those of `n`, padded with zeros.
    pub fn from_number(n: u32) -> (r: TwoFACode)
        requires
            n < CODE_SPACE,
        ensures
            r@ == code_text_of(n as int),
    {
        let mut s = String::new();
        let mut div: u32 = 100000;
        let mut i: usize = 0;
        proof {
            reveal_with_fuel(pow10, 6);
        }
        while i < CODE_DIGITS
            invariant
                i <= CODE_DIGITS,
                i < CODE_DIGITS ==> div as int == pow10((5 - i) as nat),
                s@ == code_text_of(n as int).subrange(0, i as int),
            decreases CODE_DIGITS - i,
        {
            proof {
                reveal_with_fuel(pow10, 2);
                lemma_pow10_positive((5 - i) as nat);
            }
            let d = (n / div) % 10;
            s.append(digit_str(d));
            proof {
                assert(s@ =~= code_text_of(n as int).subrange(0, i + 1));
            }
            div = div / 10;
            i += 1;
        }
        proof {
            assert(s@ =~= code_text_of(n as int));
        }
        TwoFACode { code: s }
    }

    /// The digits of the code.
    pub fn as_str(&self) -> (r: &str)
        ensures
            r@ == self@,
            is_code_text(r@),
    {
        proof {
            use_type_invariant(self);
        }
        self.code.as_str()
    }
}

impl Default for TwoFACode {
    /// A random code: each of the `CODE_SPACE` codes can come.
    fn default() -> (r: Self)
        ensures
            is_code_text(r@),
    {
        TwoFACode::from_number(random_below(CODE_SPACE))
    }
}

impl Clone for TwoFACode {
    fn clone(&self) -> (r: Self)
        ensures
            r@ == self@,
    {
        proof {
            use_type_invariant(self);
        }
        TwoFACode { code: self.code.clone() }
    }
}

impl PartialEq for TwoFACode {
    fn eq(&self, other: &TwoFACode) -> (r: bool) {
        self.code == other.code
    }
}

impl vstd::std_specs::cmp::PartialEqSpecImpl for TwoFACode {
    open spec fn obeys_eq_spec() -> bool {
        true
    }

    open spec fn eq_spec(&self, other: &TwoFACode) -> bool {
        self@ == other@
    }
}

} // verus!
