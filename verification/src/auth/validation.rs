//! Validation of the standard claims of a token against a configuration.

use uuid::Uuid;
use vstd::prelude::*;
use vstd::string::StringExecFns;

use crate::auth::claims::{
    bad_format, copy_strings, invalid_format, texts, ClaimValue, ClaimsError, ClaimsErrorModel,
};
use crate::ids::{parse_uuid_text, uuid_bits, uuid_of_text};

verus! {

/// Configuration for common validation.
#[derive(Debug, Clone)]
pub struct ValidationConfig {
    /// Allowed issuers (if empty, any issuer is accepted).
    pub allowed_issuers: Vec<String>,
    /// Allowed audiences (if empty, any audience is accepted).
    pub allowed_audiences: Vec<String>,
    /// Leeway in seconds for time-based validations (`exp`, `nbf`).
    pub leeway_seconds: i64,
}

impl Default for ValidationConfig {
    fn default() -> (cfg: ValidationConfig)
        ensures
            cfg.allowed_issuers@.len() == 0,
            cfg.allowed_audiences@.len() == 0,
            cfg.leeway_seconds == 60,
    {
        ValidationConfig {
            allowed_issuers: Vec::new(),
            allowed_audiences: Vec::new(),
            leeway_seconds: 60,
        }
    }
}

/// A point in time: the seconds since the Unix epoch, and the nanoseconds
/// into that second.
#[derive(Debug, Clone, Copy, PartialEq, Eq, Structural)]
pub struct UnixTime {
    pub seconds: i64,
    pub nanos: u32,
}

/// The first second that a timestamp can name: the start of the year -9999.
pub const MIN_TIMESTAMP: i64 = -377_705_116_800;

/// The last second that a timestamp can name: the end of the year 9999.
pub const MAX_TIMESTAMP: i64 = 253_402_300_799;

/// True for the seconds that a timestamp can name.
pub open spec fn is_timestamp(seconds: int) -> bool {
    MIN_TIMESTAMP <= seconds <= MAX_TIMESTAMP
}

impl UnixTime {
    /// True when `self` is later than the start of the second `seconds`.
    pub open spec fn is_after(self, seconds: int) -> bool {
        self.seconds > seconds || (self.seconds == seconds && self.nanos > 0)
    }

    /// True when `self` is earlier than the start of the second `seconds`.
    pub open spec fn is_before(self, seconds: int) -> bool {
        self.seconds < seconds
    }
}

/// Why the issuer of `raw` is not accepted, or `None` where it is. With no
/// allowed issuers, every issuer is accepted, a missing one too.
pub open spec fn issuer_fault(raw: ClaimValue, config: ValidationConfig) -> Option<
    ClaimsErrorModel,
> {
    if config.allowed_issuers@.len() == 0 {
        None
    } else {
        match raw.member("iss"@) {
            None => Some(ClaimsErrorModel::MissingClaim("iss"@)),
            Some(value) => match value.text() {
                None => Some(bad_format("iss"@, "must be a string"@)),
                Some(iss) => if texts(config.allowed_issuers@).contains(iss) {
                    None
                } else {
                    Some(
                        ClaimsErrorModel::InvalidIssuer {
                            expected: texts(config.allowed_issuers@),
                            actual: iss,
                        },
                    )
                },
            },
        }
    }
}

/// The audiences that a claim names: one string, or a list of strings.
pub open spec fn audiences_of(value: ClaimValue) -> Option<Seq<Seq<char>>> {
    match value {
        ClaimValue::Text(s) => Some(seq![s@]),
        ClaimValue::List(items) => if forall|i: int|
            0 <= i < items@.len() ==> (#[trigger] items@[i]).text() is Some {
            Some(Seq::new(items@.len(), |i: int| items@[i].text()->0))
        } else {
            None
        },
        _ => None,
    }
}

/// True when one of `audiences` is among `allowed`.
pub open spec fn shares_audience(audiences: Seq<Seq<char>>, allowed: Seq<Seq<char>>) -> bool {
    exists|i: int| 0 <= i < audiences.len() && allowed.contains(#[trigger] audiences[i])
}

/// Why the audience of `raw` is not accepted, or `None` where it is. With
/// no allowed audiences, every audience is accepted, a missing one too.
pub open spec fn audience_fault(raw: ClaimValue, config: ValidationConfig) -> Option<
    ClaimsErrorModel,
> {
    if config.allowed_audiences@.len() == 0 {
        None
    } else {
        match raw.member("aud"@) {
            None => Some(ClaimsErrorModel::MissingClaim("aud"@)),
            Some(value) => match audiences_of(value) {
                None => Some(bad_format("aud"@, "must be a string or array of strings"@)),
                Some(audiences) => if shares_audience(audiences, texts(config.allowed_audiences@)) {
                    None
                } else {
                    Some(
                        ClaimsErrorModel::InvalidAudience {
                            expected: texts(config.allowed_audiences@),
                            actual: audiences,
                        },
                    )
                },
            },
        }
    }
}

/// Why `value` is no timestamp, or `None` where it is one: an integer that
/// names a second between the years -9999 and 9999.
pub open spec fn timestamp_fault(value: ClaimValue, field: Seq<char>) -> Option<ClaimsErrorModel> {
    match value.integer() {
        None => Some(bad_format(field, "must be a number (unix timestamp)"@)),
        Some(ts) => if is_timestamp(ts as int) {
            None
        } else {
            Some(bad_format(field, "invalid unix timestamp"@))
        },
    }
}

/// Why the expiration of `raw` is not accepted at the time `now`, or `None`
/// where it is: a token without `exp` never expires; one with `exp` has
/// expired once `now` is later than `exp` and the leeway after it.
pub open spec fn expiration_fault(raw: ClaimValue, leeway: i64, now: UnixTime) -> Option<
    ClaimsErrorModel,
> {
    match raw.member("exp"@) {
        None => None,
        Some(value) => if timestamp_fault(value, "exp"@) is Some {
            timestamp_fault(value, "exp"@)
        } else if !is_timestamp(value.integer()->0 + leeway) {
            Some(bad_format("exp"@, "timestamp with leeway is out of range"@))
        } else if now.is_after(value.integer()->0 + leeway) {
            Some(ClaimsErrorModel::Expired)
        } else {
            None
        },
    }
}

/// Why `raw` is not yet valid at the time `now`, or `None` where it is: a
/// token without `nbf` is valid at once; one with `nbf` is not valid while
/// `now` is earlier than `nbf` less the leeway.
pub open spec fn not_before_fault(raw: ClaimValue, leeway: i64, now: UnixTime) -> Option<
    ClaimsErrorModel,
> {
    match raw.member("nbf"@) {
        None => None,
        Some(value) => if timestamp_fault(value, "nbf"@) is Some {
            timestamp_fault(value, "nbf"@)
        } else if !is_timestamp(value.integer()->0 - leeway) {
            Some(bad_format("nbf"@, "timestamp with leeway is out of range"@))
        } else if now.is_before(value.integer()->0 - leeway) {
            Some(ClaimsErrorModel::NotYetValid)
        } else {
            None
        },
    }
}

/// The first fault of the claims `raw` at the time `now`: issuer, audience,
/// expiration and not-before are checked in this order.
pub open spec fn claims_fault(raw: ClaimValue, config: ValidationConfig, now: UnixTime) -> Option<
    ClaimsErrorModel,
> {
    if issuer_fault(raw, config) is Some {
        issuer_fault(raw, config)
    } else if audience_fault(raw, config) is Some {
        audience_fault(raw, config)
    } else if expiration_fault(raw, config.leeway_seconds, now) is Some {
        expiration_fault(raw, config.leeway_seconds, now)
    } else {
        not_before_fault(raw, config.leeway_seconds, now)
    }
}

/// Whether `text` is among `list`.
pub fn contains_text(list: &Vec<String>, text: &String) -> (r: bool)
    ensures
        r == texts(list@).contains(text@),
{
    let n = list.len();
    let mut i: usize = 0;
    while i < n
        invariant
            i <= n,
            n == list@.len(),
            forall|j: int| 0 <= j < i ==> list@[j]@ != text@,
        decreases n - i,
    {
        if list[i] == *text {
            assert(texts(list@)[i as int] == text@);
            return true;
        }
        i += 1;
    }
    false
}

/// Helper to extract string from a claim value.
///
/// Returns `ClaimsError::InvalidClaimFormat` if the value is not a string.
pub fn extract_string(value: &ClaimValue, field_name: &str) -> (r: Result<String, ClaimsError>)
    ensures
        r matches Ok(s) ==> value.text() == Some(s@),
        r matches Err(e) ==> value.text() is None && e@ == bad_format(
            field_name@,
            "must be a string"@,
        ),
{
    match value.as_str() {
        Some(s) => Ok(String::from_str(s)),
        None => Err(invalid_format(field_name, "must be a string")),
    }
}

/// Extract audiences from a claim value.
///
/// Accepts a single string or an array of strings. Returns
/// `ClaimsError::InvalidClaimFormat` for anything else, an array with an
/// entry that is no string too.
#[verifier::loop_isolation(false)]
pub fn extract_audiences(value: &ClaimValue) -> (r: Result<Vec<String>, ClaimsError>)
    ensures
        r matches Ok(list) ==> audiences_of(*value) == Some(texts(list@)),
        r matches Err(e) ==> audiences_of(*value) is None && e@ == bad_format(
            "aud"@,
            "must be a string or array of strings"@,
        ),
{
    match value {
        ClaimValue::Text(s) => {
            let mut out: Vec<String> = Vec::new();
            out.push(s.clone());
            Ok(out)
        },
        ClaimValue::List(items) => {
            let n = items.len();
            let mut out: Vec<String> = Vec::new();
            let mut i: usize = 0;
            while i < n
                invariant
                    i <= n,
                    n == items@.len(),
                    out@.len() == i,
                    forall|j: int| 0 <= j < i ==> (#[trigger] items@[j]).text() == Some(out@[j]@),
                decreases n - i,
            {
                match items[i].as_str() {
                    Some(s) => {
                        out.push(String::from_str(s));
                    },
                    None => {
                        return Err(invalid_format("aud", "must be a string or array of strings"));
                    },
                }
                i += 1;
            }
            Ok(out)
        },
        _ => Err(invalid_format("aud", "must be a string or array of strings")),
    }
}

/// Helper to parse a timestamp (seconds since the epoch).
///
/// Returns `ClaimsError::InvalidClaimFormat` if the value is not an integer
/// or names no second between the years -9999 and 9999.
pub fn parse_timestamp(value: &ClaimValue, field_name: &str) -> (r: Result<i64, ClaimsError>)
    ensures
        r matches Ok(ts) ==> timestamp_fault(*value, field_name@) is None && value.integer()
            == Some(ts),
        r matches Err(e) ==> timestamp_fault(*value, field_name@) == Some(e@),
{
    match value.as_i64() {
        None => Err(invalid_format(field_name, "must be a number (unix timestamp)")),
        Some(ts) => if MIN_TIMESTAMP <= ts && ts <= MAX_TIMESTAMP {
            Ok(ts)
        } else {
            Err(invalid_format(field_name, "invalid unix timestamp"))
        },
    }
}

/// Checks the issuer of `raw` against the allowed issuers.
pub fn check_issuer(raw: &ClaimValue, config: &ValidationConfig) -> (r: Result<(), ClaimsError>)
    ensures
        r is Ok <==> issuer_fault(*raw, *config) is None,
        r matches Err(e) ==> issuer_fault(*raw, *config) == Some(e@),
{
    if config.allowed_issuers.len() == 0 {
        return Ok(());
    }
    match raw.get("iss") {
        None => Err(ClaimsError::MissingClaim(String::from_str("iss"))),
        Some(value) => match value.as_str() {
            None => Err(invalid_format("iss", "must be a string")),
            Some(iss) => {
                let actual = String::from_str(iss);
                if contains_text(&config.allowed_issuers, &actual) {
                    Ok(())
                } else {
                    Err(
                        ClaimsError::InvalidIssuer {
                            expected: copy_strings(&config.allowed_issuers),
                            actual,
                        },
                    )
                }
            },
        },
    }
}

/// Checks the audience of `raw` against the allowed audiences: at least one
/// must match.
#[verifier::loop_isolation(false)]
pub fn check_audience(raw: &ClaimValue, config: &ValidationConfig) -> (r: Result<(), ClaimsError>)
    ensures
        r is Ok <==> audience_fault(*raw, *config) is None,
        r matches Err(e) ==> audience_fault(*raw, *config) == Some(e@),
{
    if config.allowed_audiences.len() == 0 {
        return Ok(());
    }
    match raw.get("aud") {
        None => Err(ClaimsError::MissingClaim(String::from_str("aud"))),
        Some(value) => match extract_audiences(value) {
            Err(e) => Err(e),
            Ok(audiences) => {
                let n = audiences.len();
                let ghost allowed = texts(config.allowed_audiences@);
                let mut i: usize = 0;
                while i < n
                    invariant
                        i <= n,
                        n == audiences@.len(),
                        allowed == texts(config.allowed_audiences@),
                        forall|j: int| 0 <= j < i ==> !allowed.contains(#[trigger] texts(audiences@)[j]),
                    decreases n - i,
                {
                    if contains_text(&config.allowed_audiences, &audiences[i]) {
                        assert(allowed.contains(texts(audiences@)[i as int]));
                        return Ok(());
                    }
                    i += 1;
                }
                Err(
                    ClaimsError::InvalidAudience {
                        expected: copy_strings(&config.allowed_audiences),
                        actual: audiences,
                    },
                )
            },
        },
    }
}

/// Checks the expiration of `raw` at the time `now`, with leeway.
pub fn check_expiration(raw: &ClaimValue, leeway: i64, now: UnixTime) -> (r: Result<
    (),
    ClaimsError,
>)
    ensures
        r is Ok <==> expiration_fault(*raw, leeway, now) is None,
        r matches Err(e) ==> expiration_fault(*raw, leeway, now) == Some(e@),
{
    match raw.get("exp") {
        None => Ok(()),
        Some(value) => match parse_timestamp(value, "exp") {
            Err(e) => Err(e),
            Ok(exp) => {
                let late = match exp.checked_add(leeway) {
                    Some(t) => if MIN_TIMESTAMP <= t && t <= MAX_TIMESTAMP {
                        Some(t)
                    } else {
                        None
                    },
                    None => None,
                };
                match late {
                    None => Err(invalid_format("exp", "timestamp with leeway is out of range")),
                    Some(limit) => if now.seconds > limit || (now.seconds == limit && now.nanos
                        > 0) {
                        Err(ClaimsError::Expired)
                    } else {
                        Ok(())
                    },
                }
            },
        },
    }
}

/// Checks the not-before time of `raw` at the time `now`, with leeway.
pub fn check_not_before(raw: &ClaimValue, leeway: i64, now: UnixTime) -> (r: Result<
    (),
    ClaimsError,
>)
    ensures
        r is Ok <==> not_before_fault(*raw, leeway, now) is None,
        r matches Err(e) ==> not_before_fault(*raw, leeway, now) == Some(e@),
{
    match raw.get("nbf") {
        None => Ok(()),
        Some(value) => match parse_timestamp(value, "nbf") {
            Err(e) => Err(e),
            Ok(nbf) => {
                let early = match nbf.checked_sub(leeway) {
                    Some(t) => if MIN_TIMESTAMP <= t && t <= MAX_TIMESTAMP {
                        Some(t)
                    } else {
                        None
                    },
                    None => None,
                };
                match early {
                    None => Err(invalid_format("nbf", "timestamp with leeway is out of range")),
                    Some(limit) => if now.seconds < limit {
                        Err(ClaimsError::NotYetValid)
                    } else {
                        Ok(())
                    },
                }
            },
        },
    }
}

/// Validate the standard claims of a token against the given configuration,
/// at the time `now`.
///
/// Checks performed, in this order:
/// 1. **Issuer** (`iss`): must be one of `config.allowed_issuers` (skipped if empty)
/// 2. **Audience** (`aud`): at least one must be among `config.allowed_audiences`
///    (skipped if empty)
/// 3. **Expiration** (`exp`): must not be in the past (with leeway)
/// 4. **Not Before** (`nbf`): must not be in the future (with leeway)
pub fn validate_claims(raw: &ClaimValue, config: &ValidationConfig, now: UnixTime) -> (r: Result<
    (),
    ClaimsError,
>)
    ensures
        r is Ok <==> claims_fault(*raw, *config, now) is None,
        r matches Err(e) ==> claims_fault(*raw, *config, now) == Some(e@),
{
    match check_issuer(raw, config) {
        Err(e) => {
            return Err(e);
        },
        Ok(()) => {},
    }
    match check_audience(raw, config) {
        Err(e) => {
            return Err(e);
        },
        Ok(()) => {},
    }
    match check_expiration(raw, config.leeway_seconds, now) {
        Err(e) => {
            return Err(e);
        },
        Ok(()) => {},
    }
    check_not_before(raw, config.leeway_seconds, now)
}

/// Why `value` is no identifier, or `None` where it is one.
pub open spec fn uuid_fault(value: ClaimValue, field: Seq<char>) -> Option<ClaimsErrorModel> {
    match value.text() {
        None => Some(bad_format(field, "must be a string"@)),
        Some(text) => if uuid_of_text(text) is Some {
            None
        } else {
            Some(bad_format(field, "must be a valid UUID"@))
        },
    }
}

/// The identifier of a claim whose text was parsed: the parsed identifier,
/// or the error for a text that denotes none.
pub fn uuid_claim(parsed: Option<Uuid>, field_name: &str) -> (r: Result<Uuid, ClaimsError>)
    ensures
        parsed matches Some(id) ==> r == Ok::<Uuid, ClaimsError>(id),
        parsed is None ==> (r matches Err(e) && e@ == bad_format(
            field_name@,
            "must be a valid UUID"@,
        )),
{
    match parsed {
        Some(id) => Ok(id),
        None => Err(invalid_format(field_name, "must be a valid UUID")),
    }
}

/// Helper to parse an identifier from a claim value.
///
/// Returns `ClaimsError::InvalidClaimFormat` if the value is not a string
/// that denotes an identifier.
pub fn parse_uuid_from_value(value: &ClaimValue, field_name: &str) -> (r: Result<
    Uuid,
    ClaimsError,
>)
    ensures
        r is Ok <==> uuid_fault(*value, field_name@) is None,
        r matches Ok(id) ==> uuid_of_text(value.text()->0) == Some(uuid_bits(id)),
        r matches Err(e) ==> uuid_fault(*value, field_name@) == Some(e@),
{
    match value.as_str() {
        None => Err(invalid_format(field_name, "must be a string")),
        Some(text) => uuid_claim(parse_uuid_text(text), field_name),
    }
}

/// Why `value` is no list of identifiers, or `None` where it is one: the
/// fault of its first entry that is no identifier.
pub open spec fn uuid_list_fault(value: ClaimValue, field: Seq<char>) -> Option<ClaimsErrorModel> {
    match value {
        ClaimValue::List(items) => first_uuid_fault(items@, field),
        _ => Some(bad_format(field, "must be an array"@)),
    }
}

/// The fault of the first of `items` that is no identifier.
pub open spec fn first_uuid_fault(items: Seq<ClaimValue>, field: Seq<char>) -> Option<
    ClaimsErrorModel,
>
    decreases items.len(),
{
    if items.len() == 0 {
        None
    } else if uuid_fault(items[0], field) is Some {
        uuid_fault(items[0], field)
    } else {
        first_uuid_fault(items.drop_first(), field)
    }
}

/// Helper to parse a list of identifiers from a claim value.
///
/// Returns `ClaimsError::InvalidClaimFormat` if the value is not an array
/// of strings that denote identifiers.
#[verifier::loop_isolation(false)]
pub fn parse_uuid_array_from_value(value: &ClaimValue, field_name: &str) -> (r: Result<
    Vec<Uuid>,
    ClaimsError,
>)
    ensures
        r is Ok <==> uuid_list_fault(*value, field_name@) is None,
        r matches Ok(ids) ==> (value matches ClaimValue::List(items) && ids@.len() == items@.len()
            && forall|i: int|
            0 <= i < ids@.len() ==> uuid_of_text(items@[i].text()->0) == Some(
                uuid_bits(#[trigger] ids@[i]),
            )),
        r matches Err(e) ==> uuid_list_fault(*value, field_name@) == Some(e@),
{
    match value {
        ClaimValue::List(items) => {
            let n = items.len();
            let mut ids: Vec<Uuid> = Vec::new();
            let mut i: usize = 0;
            assert(items@.subrange(0, n as int) == items@);
            while i < n
                invariant
                    i <= n,
                    n == items@.len(),
                    ids@.len() == i,
                    first_uuid_fault(items@.subrange(i as int, n as int), field_name@)
                        == first_uuid_fault(items@, field_name@),
                    forall|j: int|
                        0 <= j < i ==> uuid_of_text(items@[j].text()->0) == Some(
                            uuid_bits(#[trigger] ids@[j]),
                        ),
                decreases n - i,
            {
                let ghost rest = items@.subrange(i as int, n as int);
                assert(rest.drop_first() == items@.subrange(i + 1, n as int));
                match parse_uuid_from_value(&items[i], field_name) {
                    Ok(id) => {
                        ids.push(id);
                    },
                    Err(e) => {
                        return Err(e);
                    },
                }
                i += 1;
            }
            Ok(ids)
        },
        _ => Err(invalid_format(field_name, "must be an array")),
    }
}

} // verus!
