//! Syntax validation of subdomain labels and fully-qualified domain names.
//!
//! A label is 1 to 63 characters, lowercase ASCII letters, digits and '-',
//! with no leading or trailing hyphen and no "--". An FQDN is a non-empty
//! dot-separated sequence of such labels, trailing dots ignored.

use vstd::prelude::*;
use crate::text::trim_dots;

verus! {

/// The checks a label can fail, in the order they are applied.
#[derive(Debug, Clone, Copy, PartialEq, Eq, Structural)]
pub enum ValidationError {
    Empty,
    TooLong,
    InvalidCharacters,
    LeadingOrTrailingHyphen,
    DoubleHyphen,
}

impl ValidationError {
    /// Human-readable description, mirrored exactly by the spec function.
    pub fn message(&self) -> (r: String)
        ensures
            r@ == spec_validation_message(*self),
    {
        match self {
            ValidationError::Empty => String::from_str("subdomain is empty"),
            ValidationError::TooLong => String::from_str(
                "subdomain too long (max 63 characters)",
            ),
            ValidationError::InvalidCharacters => String::from_str(
                "subdomain contains invalid characters (only a-z, 0-9, and '-' allowed)",
            ),
            ValidationError::LeadingOrTrailingHyphen => String::from_str(
                "subdomain must not start or end with '-'",
            ),
            ValidationError::DoubleHyphen => String::from_str(
                "subdomain must not contain consecutive '--'",
            ),
        }
    }
}

/// The message text for each validation failure.
pub open spec fn spec_validation_message(e: ValidationError) -> Seq<char> {
    match e {
        ValidationError::Empty => "subdomain is empty"@,
        ValidationError::TooLong => "subdomain too long (max 63 characters)"@,
        ValidationError::InvalidCharacters => "subdomain contains invalid characters (only a-z, 0-9, and '-' allowed)"@,
        ValidationError::LeadingOrTrailingHyphen => "subdomain must not start or end with '-'"@,
        ValidationError::DoubleHyphen => "subdomain must not contain consecutive '--'"@,
    }
}

/// A character allowed inside a label: lowercase ASCII letter, digit, or '-'.
pub open spec fn label_char(c: char) -> bool {
    ('a' <= c && c <= 'z') || ('0' <= c && c <= '9') || c == '-'
}

/// A syntactically valid subdomain label.
pub open spec fn valid_label(s: Seq<char>) -> bool {
    &&& 1 <= s.len() <= 63
    &&& (forall|i: int| 0 <= i < s.len() ==> label_char(#[trigger] s[i]))
    &&& s[0] != '-'
    &&& s[s.len() - 1] != '-'
    &&& (forall|i: int| 0 <= i < s.len() - 1 ==> !(#[trigger] s[i] == '-' && s[i + 1] == '-'))
}

/// The exact outcome of label validation, with the checks in their fixed order.
pub open spec fn spec_validate_label(s: Seq<char>) -> Result<(), ValidationError> {
    if s.len() == 0 {
        Err(ValidationError::Empty)
    } else if s.len() > 63 {
        Err(ValidationError::TooLong)
    } else if exists|i: int| 0 <= i < s.len() && !label_char(#[trigger] s[i]) {
        Err(ValidationError::InvalidCharacters)
    } else if s[0] == '-' || s[s.len() - 1] == '-' {
        Err(ValidationError::LeadingOrTrailingHyphen)
    } else if exists|i: int| 0 <= i < s.len() - 1 && (#[trigger] s[i] == '-' && s[i + 1] == '-') {
        Err(ValidationError::DoubleHyphen)
    } else {
        Ok(())
    }
}

/// Label validation succeeds exactly on valid labels.
pub proof fn lemma_validate_label_ok(s: Seq<char>)
    ensures
        spec_validate_label(s) is Ok <==> valid_label(s),
{
}

/// Whether `c` is allowed inside a label.
pub fn label_char_exec(c: char) -> (r: bool)
    ensures
        r == label_char(c),
{
    ('a' <= c && c <= 'z') || ('0' <= c && c <= '9') || c == '-'
}

/// Validate a user-chosen subdomain label, reporting the first failed check.
pub fn validate_subdomain_name(name: &str) -> (r: Result<(), ValidationError>)
    ensures
        r == spec_validate_label(name@),
{
    let n = name.unicode_len();
    if n == 0 {
        return Err(ValidationError::Empty);
    }
    if n > 63 {
        return Err(ValidationError::TooLong);
    }
    let mut i: usize = 0;
    while i < n
        invariant
            n == name@.len(),
            1 <= n <= 63,
            i <= n,
            forall|j: int| 0 <= j < i ==> label_char(#[trigger] name@[j]),
        decreases n - i,
    {
        if !label_char_exec(name.get_char(i)) {
            proof {
                assert(!label_char(name@[i as int]));
            }
            return Err(ValidationError::InvalidCharacters);
        }
        i = i + 1;
    }
    if name.get_char(0) == '-' || name.get_char(n - 1) == '-' {
        return Err(ValidationError::LeadingOrTrailingHyphen);
    }
    let mut i: usize = 0;
    while i + 1 < n
        invariant
            n == name@.len(),
            1 <= n <= 63,
            i < n,
            name@[0] != '-',
            name@[n - 1] != '-',
            forall|j: int| 0 <= j < n ==> label_char(#[trigger] name@[j]),
            forall|j: int| 0 <= j < i ==> !(#[trigger] name@[j] == '-' && name@[j + 1] == '-'),
        decreases n - i,
    {
        if name.get_char(i) == '-' && name.get_char(i + 1) == '-' {
            proof {
                assert(name@[i as int] == '-' && name@[i + 1] == '-');
            }
            return Err(ValidationError::DoubleHyphen);
        }
        i = i + 1;
    }
    Ok(())
}

/// Index of the first '.' in `s`, or `s.len()` if there is none.
pub open spec fn first_dot(s: Seq<char>) -> int
    decreases s.len(),
{
    if s.len() == 0 {
        0
    } else if s[0] == '.' {
        0
    } else {
        1 + first_dot(s.drop_first())
    }
}

pub proof fn lemma_first_dot(s: Seq<char>)
    ensures
        0 <= first_dot(s) <= s.len(),
        first_dot(s) < s.len() ==> s[first_dot(s)] == '.',
        forall|j: int| 0 <= j < first_dot(s) ==> s[j] != '.',
    decreases s.len(),
{
    if s.len() > 0 && s[0] != '.' {
        lemma_first_dot(s.drop_first());
        assert forall|j: int| 0 <= j < first_dot(s) implies s[j] != '.' by {
            if j > 0 {
                assert(s.drop_first()[j - 1] != '.');
            }
        }
    }
}

/// Validation of a dot-separated sequence of labels, label by label.
pub open spec fn spec_validate_labels(s: Seq<char>) -> Result<(), ValidationError>
    decreases s.len(),
{
    let i = first_dot(s);
    if i == s.len() {
        spec_validate_label(s)
    } else if 0 <= i < s.len() {
        match spec_validate_label(s.subrange(0, i)) {
            Err(e) => Err(e),
            Ok(u) => spec_validate_labels(s.subrange(i + 1, s.len() as int)),
        }
    } else {
        // unreachable: first_dot stays within bounds
        Ok(())
    }
}

/// The exact outcome of FQDN validation: trailing dots are ignored, the rest
/// must be a non-empty dot-separated sequence of valid labels.
pub open spec fn spec_validate_fqdn(s: Seq<char>) -> Result<(), ValidationError> {
    if trim_dots(s).len() == 0 {
        Err(ValidationError::Empty)
    } else {
        spec_validate_labels(trim_dots(s))
    }
}

/// Validate each dot-separated label of `s` in order.
fn validate_labels(s: &str) -> (r: Result<(), ValidationError>)
    ensures
        r == spec_validate_labels(s@),
    decreases s@.len(),
{
    proof {
        lemma_first_dot(s@);
    }
    let n = s.unicode_len();
    let mut i: usize = 0;
    while i < n && s.get_char(i) != '.'
        invariant
            n == s@.len(),
            i <= n,
            forall|j: int| 0 <= j < i ==> s@[j] != '.',
        decreases n - i,
    {
        i = i + 1;
    }
    proof {
        lemma_first_dot_at(s@, i as int);
    }
    if i == n {
        validate_subdomain_name(s)
    } else {
        let head = s.substring_char(0, i);
        match validate_subdomain_name(head) {
            Err(e) => Err(e),
            Ok(u) => {
                let tail = s.substring_char(i + 1, n);
                validate_labels(tail)
            },
        }
    }
}

/// If no '.' occurs before `i` and `i` is the end or a '.', then `i` is the
/// first dot position.
proof fn lemma_first_dot_at(s: Seq<char>, i: int)
    requires
        0 <= i <= s.len(),
        forall|j: int| 0 <= j < i ==> s[j] != '.',
        i < s.len() ==> s[i] == '.',
    ensures
        first_dot(s) == i,
    decreases s.len(),
{
    if s.len() > 0 && s[0] != '.' {
        lemma_first_dot_at(s.drop_first(), i - 1);
    }
}

/// Validate an FQDN: every dot-separated label must be valid, trailing dots
/// are ignored.
pub fn validate_fqdn_ascii(domain: &str) -> (r: Result<(), ValidationError>)
    ensures
        r == spec_validate_fqdn(domain@),
{
    let d = crate::text::trim_end_dots(domain);
    if d.unicode_len() == 0 {
        return Err(ValidationError::Empty);
    }
    validate_labels(d)
}

} // verus!
