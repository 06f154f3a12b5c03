//! Auto-naming of ad-hoc sessions: the pending-name state, the sanitizer
//! that derives a file-name-safe name, and the timestamp-prefix convention
//! of auto-saved session files.

use vstd::prelude::*;
use vstd::string::StrSliceExecFns;

verus! {

/// The auto-naming state of an unnamed session: the chat history a name is
/// to be derived from, whether a naming run is in flight, and the derived
/// name once there is one.
#[derive(Debug, PartialEq, Eq)]
pub struct AutoName {
    pub naming: bool,
    pub chat_history: Option<String>,
    pub name: Option<String>,
}

impl AutoName {
    /// A state that already carries a derived name.
    pub fn new(name: String) -> (r: Self)
        ensures
            r.naming == false,
            r.chat_history is None,
            r.name == Some(name),
    {
        AutoName { naming: false, chat_history: None, name: Some(name) }
    }

    /// A state waiting for a name to be derived from the given history.
    pub fn new_from_chat_history(chat_history: String) -> (r: Self)
        ensures
            r.naming == false,
            r.chat_history == Some(chat_history),
            r.name is None,
    {
        AutoName { naming: false, chat_history: Some(chat_history), name: None }
    }

    /// A naming run is owed: history is present, no name was derived yet,
    /// and no run is already in flight.
    pub fn need(&self) -> (b: bool)
        ensures
            b == (!self.naming && self.chat_history is Some && self.name is None),
    {
        !self.naming && self.chat_history.is_some() && self.name.is_none()
    }
}

/// Whether std classifies the character as alphanumeric. A function of the
/// character alone.
pub uninterp spec fn spec_alphanumeric(c: char) -> bool;

/// Relies on char::is_alphanumeric: whether the character is alphabetic or
/// a Unicode numeric character.
#[verifier::external_body]
fn is_alphanumeric_char(c: char) -> (b: bool)
    ensures
        b == spec_alphanumeric(c),
{
    c.is_alphanumeric()
}

/// Relies on String::push: appends exactly one character.
#[verifier::external_body]
fn push_char(s: &mut String, c: char)
    ensures
        final(s)@ == old(s)@.push(c),
{
    s.push(c);
}

/// The character a derived session name keeps: alphanumeric characters
/// stand, everything else becomes a dash.
pub open spec fn sanitized_char(c: char) -> char {
    if spec_alphanumeric(c) {
        c
    } else {
        '-'
    }
}

/// Derives a file-name-safe session name: every character that is not
/// alphanumeric is replaced by `-`.
pub fn sanitize_autoname(value: &str) -> (r: String)
    ensures
        r@ == value@.map_values(|c: char| sanitized_char(c)),
{
    let ghost chars = value@;
    let n = value.unicode_len();
    let mut out: String = String::new();
    let mut i: usize = 0;
    proof {
        assert(out@ =~= chars.take(0).map_values(|c: char| sanitized_char(c)));
    }
    while i < n
        invariant
            0 <= i <= n,
            n == chars.len(),
            chars == value@,
            out@ == chars.take(i as int).map_values(|c: char| sanitized_char(c)),
        decreases n - i,
    {
        let c = value.get_char(i);
        let mapped = if is_alphanumeric_char(c) {
            c
        } else {
            '-'
        };
        push_char(&mut out, mapped);
        proof {
            assert(out@ =~= chars.take(i as int + 1).map_values(|c: char| sanitized_char(c)));
        }
        i = i + 1;
    }
    proof {
        assert(chars.take(chars.len() as int) =~= chars);
    }
    out
}

/// A decimal digit.
pub open spec fn spec_digit(c: char) -> bool {
    48 <= c as u32 <= 57
}

/// The file-name convention of an auto-saved session: eight digits, `T`,
/// six digits, then a dash — a timestamp prefix such as `20240101T120000-`,
/// after which the derived name follows.
pub open spec fn spec_has_autoname_prefix(s: Seq<char>) -> bool {
    &&& s.len() >= 16
    &&& forall|i: int| 0 <= i < 8 ==> spec_digit(#[trigger] s[i])
    &&& s[8] == 'T'
    &&& forall|i: int| 9 <= i < 15 ==> spec_digit(#[trigger] s[i])
    &&& s[15] == '-'
}

/// True when the name starts with the auto-save timestamp prefix.
pub fn has_autoname_prefix(name: &str) -> (b: bool)
    ensures
        b == spec_has_autoname_prefix(name@),
{
    let n = name.unicode_len();
    if n < 16 {
        return false;
    }
    let mut i: usize = 0;
    while i < 8
        invariant
            0 <= i <= 8,
            n == name@.len() >= 16,
            forall|j: int| 0 <= j < i ==> spec_digit(#[trigger] name@[j]),
        decreases 8 - i,
    {
        let c = name.get_char(i);
        if !(48 <= c as u32 && c as u32 <= 57) {
            return false;
        }
        i = i + 1;
    }
    if name.get_char(8) != 'T' {
        return false;
    }
    let mut i: usize = 9;
    while i < 15
        invariant
            9 <= i <= 15,
            n == name@.len() >= 16,
            forall|j: int| 0 <= j < 8 ==> spec_digit(#[trigger] name@[j]),
            name@[8] == 'T',
            forall|j: int| 9 <= j < i ==> spec_digit(#[trigger] name@[j]),
        decreases 15 - i,
    {
        let c = name.get_char(i);
        if !(48 <= c as u32 && c as u32 <= 57) {
            return false;
        }
        i = i + 1;
    }
    name.get_char(15) == '-'
}

} // verus!
