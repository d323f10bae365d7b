//! Claims as values, and the errors of their validation.

use vstd::prelude::*;
use vstd::string::StringExecFns;

verus! {

/// The value of a claim: a JSON value, as far as validation reads it.
#[derive(Debug)]
pub enum ClaimValue {
    Null,
    Bool(bool),
    /// A number that is an integer of 64 bits.
    Integer(i64),
    /// Any other number.
    Number,
    Text(String),
    List(Vec<ClaimValue>),
    /// The members of an object, each name once.
    Object(Vec<(String, ClaimValue)>),
}

/// The errors of claim validation.
#[derive(Debug, Clone, PartialEq)]
#[allow(inconsistent_fields)]
pub enum ClaimsError {
    InvalidClaimFormat { field: String, reason: String },
    InvalidIssuer { expected: Vec<String>, actual: String },
    InvalidAudience { expected: Vec<String>, actual: Vec<String> },
    MissingClaim(String),
    Expired,
    NotYetValid,
}

/// The texts of a sequence of strings.
pub open spec fn texts(v: Seq<String>) -> Seq<Seq<char>> {
    v.map_values(|s: String| s@)
}

/// An error of claim validation with its texts as sequences of characters.
#[allow(inconsistent_fields)]
pub ghost enum ClaimsErrorModel {
    InvalidClaimFormat { field: Seq<char>, reason: Seq<char> },
    InvalidIssuer { expected: Seq<Seq<char>>, actual: Seq<char> },
    InvalidAudience { expected: Seq<Seq<char>>, actual: Seq<Seq<char>> },
    MissingClaim(Seq<char>),
    Expired,
    NotYetValid,
}

impl View for ClaimsError {
    type V = ClaimsErrorModel;

    open spec fn view(&self) -> ClaimsErrorModel {
        match *self {
            ClaimsError::InvalidClaimFormat { field, reason } =>
                ClaimsErrorModel::InvalidClaimFormat { field: field@, reason: reason@ },
            ClaimsError::InvalidIssuer { expected, actual } => ClaimsErrorModel::InvalidIssuer {
                expected: texts(expected@),
                actual: actual@,
            },
            ClaimsError::InvalidAudience { expected, actual } => ClaimsErrorModel::InvalidAudience {
                expected: texts(expected@),
                actual: texts(actual@),
            },
            ClaimsError::MissingClaim(name) => ClaimsErrorModel::MissingClaim(name@),
            ClaimsError::Expired => ClaimsErrorModel::Expired,
            ClaimsError::NotYetValid => ClaimsErrorModel::NotYetValid,
        }
    }
}

/// The error for a claim of the wrong form.
pub open spec fn bad_format(field: Seq<char>, reason: Seq<char>) -> ClaimsErrorModel {
    ClaimsErrorModel::InvalidClaimFormat { field, reason }
}

/// The value under the first `key` among `entries`.
pub open spec fn lookup(entries: Seq<(String, ClaimValue)>, key: Seq<char>) -> Option<ClaimValue>
    decreases entries.len(),
{
    if entries.len() == 0 {
        None
    } else if entries[0].0@ == key {
        Some(entries[0].1)
    } else {
        lookup(entries.drop_first(), key)
    }
}

impl ClaimValue {
    /// The member `key` of an object; `None` for what is no object or has no
    /// such member.
    pub open spec fn member(self, key: Seq<char>) -> Option<ClaimValue> {
        match self {
            ClaimValue::Object(entries) => lookup(entries@, key),
            _ => None,
        }
    }

    /// The text of a string.
    pub open spec fn text(self) -> Option<Seq<char>> {
        match self {
            ClaimValue::Text(s) => Some(s@),
            _ => None,
        }
    }

    /// The integer of a number that is one.
    pub open spec fn integer(self) -> Option<i64> {
        match self {
            ClaimValue::Integer(i) => Some(i),
            _ => None,
        }
    }

    /// The member `key` of an object.
    #[verifier::loop_isolation(false)]
    pub fn get(&self, key: &str) -> (r: Option<&ClaimValue>)
        ensures
            r is Some <==> self.member(key@) is Some,
            r matches Some(v) ==> Some(*v) == self.member(key@),
    {
        match self {
            ClaimValue::Object(entries) => {
                let wanted = String::from_str(key);
                let n = entries.len();
                let mut i: usize = 0;
                assert(entries@.subrange(0, n as int) == entries@);
                while i < n
                    invariant
                        i <= n,
                        n == entries@.len(),
                        wanted@ == key@,
                        lookup(entries@.subrange(i as int, n as int), key@) == lookup(
                            entries@,
                            key@,
                        ),
                    decreases n - i,
                {
                    let ghost rest = entries@.subrange(i as int, n as int);
                    assert(rest.drop_first() == entries@.subrange(i + 1, n as int));
                    if entries[i].0 == wanted {
                        return Some(&entries[i].1);
                    }
                    i += 1;
                }
                None
            },
            _ => None,
        }
    }

    /// The text of a string.
    pub fn as_str(&self) -> (r: Option<&str>)
        ensures
            r is Some <==> self.text() is Some,
            r matches Some(s) ==> Some(s@) == self.text(),
    {
        match self {
            ClaimValue::Text(s) => Some(s.as_str()),
            _ => None,
        }
    }

    /// The integer of a number that is one.
    pub fn as_i64(&self) -> (r: Option<i64>)
        ensures
            r == self.integer(),
    {
        match self {
            ClaimValue::Integer(i) => Some(*i),
            _ => None,
        }
    }
}

/// The error for a claim of the wrong form.
pub fn invalid_format(field: &str, reason: &str) -> (e: ClaimsError)
    ensures
        e@ == bad_format(field@, reason@),
{
    ClaimsError::InvalidClaimFormat {
        field: String::from_str(field),
        reason: String::from_str(reason),
    }
}

/// A copy of a list of strings.
pub fn copy_strings(v: &Vec<String>) -> (copy: Vec<String>)
    ensures
        texts(copy@) == texts(v@),
{
    let n = v.len();
    let mut copy: Vec<String> = Vec::new();
    let mut i: usize = 0;
    while i < n
        invariant
            i <= n,
            n == v@.len(),
            copy@.len() == i,
            forall|j: int| 0 <= j < i ==> copy@[j]@ == v@[j]@,
        decreases n - i,
    {
        copy.push(v[i].clone());
        i += 1;
    }
    copy
}

} // verus!
