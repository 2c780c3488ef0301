//! Subscriber domain types: structurally validated email addresses and
//! display names, and the validated subscription request built from raw
//! form input.

use vstd::prelude::*;
use vstd::utf8::encode_utf8;

verus! {

/// Longest accepted email address, in bytes.
pub const MAX_EMAIL_LEN: usize = 320;

/// Longest accepted subscriber name, in bytes.
pub const MAX_NAME_LEN: usize = 256;

/// Printable ASCII, space excluded: the only bytes an address may contain.
pub open spec fn email_byte_ok(b: u8) -> bool {
    33 <= b <= 126
}

/// How many times `b` occurs in `s`.
pub open spec fn count_byte(s: Seq<u8>, b: u8) -> nat
    decreases s.len(),
{
    if s.len() == 0 {
        0
    } else {
        count_byte(s.drop_last(), b) + if s.last() == b {
            1nat
        } else {
            0nat
        }
    }
}

/// Structural validity of an email address: printable ASCII without spaces,
/// length-bounded, and exactly one `@` with text on both sides.
pub open spec fn valid_email(s: Seq<u8>) -> bool {
    &&& 3 <= s.len() <= MAX_EMAIL_LEN
    &&& forall|i: int| 0 <= i < s.len() ==> email_byte_ok(#[trigger] s[i])
    &&& count_byte(s, 64u8) == 1
    &&& s[0] != 64u8
    &&& s[s.len() - 1] != 64u8
}

/// Validity of an email held in a `String`, stated over its UTF-8 bytes.
pub open spec fn valid_email_chars(s: Seq<char>) -> bool {
    valid_email(encode_utf8(s))
}

/// Bytes that a subscriber name may not contain.
pub open spec fn forbidden_name_byte(b: u8) -> bool {
    ||| b == 47u8  // '/'
    ||| b == 40u8  // '('
    ||| b == 41u8  // ')'
    ||| b == 34u8  // '"'
    ||| b == 60u8  // '<'
    ||| b == 62u8  // '>'
    ||| b == 92u8  // '\'
    ||| b == 123u8  // '{'
    ||| b == 125u8  // '}'
}

/// Structural validity of a subscriber name: non-empty once spaces are
/// ignored, length-bounded, and free of the forbidden bytes.
pub open spec fn valid_name(s: Seq<u8>) -> bool {
    &&& 1 <= s.len() <= MAX_NAME_LEN
    &&& exists|i: int| 0 <= i < s.len() && #[trigger] s[i] != 32u8
    &&& forall|i: int| 0 <= i < s.len() ==> !forbidden_name_byte(#[trigger] s[i])
}

/// Validity of a name held in a `String`, stated over its UTF-8 bytes.
pub open spec fn valid_name_chars(s: Seq<char>) -> bool {
    valid_name(encode_utf8(s))
}

/// Checks whether `s` is a structurally valid email address.
pub fn is_valid_email(s: &str) -> (b: bool)
    ensures
        b == valid_email_chars(s@),
{
    let bytes: &[u8] = s.as_bytes();
    let n: usize = bytes.len();
    if n < 3 || n > MAX_EMAIL_LEN {
        return false;
    }
    let mut at_count: usize = 0;
    let mut i: usize = 0;
    while i < n
        invariant
            0 <= i <= n,
            n == bytes@.len(),
            bytes@ == encode_utf8(s@),
            3 <= n <= MAX_EMAIL_LEN,
            at_count <= i,
            at_count == count_byte(bytes@.take(i as int), 64u8),
            forall|j: int| 0 <= j < i ==> email_byte_ok(#[trigger] bytes@[j]),
        decreases n - i,
    {
        let b = bytes[i];
        if b < 33 || b > 126 {
            return false;
        }
        if b == 64u8 {
            at_count = at_count + 1;
        }
        proof {
            assert(bytes@.take(i + 1).drop_last() =~= bytes@.take(i as int));
            assert(bytes@.take(i + 1).last() == bytes@[i as int]);
        }
        i = i + 1;
    }
    proof {
        assert(bytes@.take(n as int) =~= bytes@);
    }
    at_count == 1 && bytes[0] != 64u8 && bytes[n - 1] != 64u8
}

/// Checks whether `s` is a structurally valid subscriber name.
pub fn is_valid_name(s: &str) -> (b: bool)
    ensures
        b == valid_name_chars(s@),
{
    let bytes: &[u8] = s.as_bytes();
    let n: usize = bytes.len();
    if n < 1 || n > MAX_NAME_LEN {
        return false;
    }
    let mut has_non_space: bool = false;
    let mut i: usize = 0;
    while i < n
        invariant
            0 <= i <= n,
            n == bytes@.len(),
            bytes@ == encode_utf8(s@),
            1 <= n <= MAX_NAME_LEN,
            has_non_space == exists|j: int| 0 <= j < i && #[trigger] bytes@[j] != 32u8,
            forall|j: int| 0 <= j < i ==> !forbidden_name_byte(#[trigger] bytes@[j]),
        decreases n - i,
    {
        let b = bytes[i];
        if b == 47 || b == 40 || b == 41 || b == 34 || b == 60 || b == 62 || b == 92 || b == 123
            || b == 125 {
            return false;
        }
        if b != 32 {
            has_non_space = true;
        }
        i = i + 1;
    }
    has_non_space
}

/// A structurally valid subscriber email address.
#[derive(Clone, Debug)]
pub struct SubscriberEmail(pub String);

impl View for SubscriberEmail {
    type V = Seq<char>;

    open spec fn view(&self) -> Seq<char> {
        self.0@
    }
}

impl SubscriberEmail {
    /// The address this value stands for.
    pub open spec fn wf(self) -> bool {
        valid_email_chars(self.0@)
    }

    /// Accepts `s` as an email address exactly when it is structurally valid.
    pub fn parse(s: String) -> (r: Result<SubscriberEmail, String>)
        ensures
            valid_email_chars(s@) ==> (r matches Ok(e) && e.0 == s),
            !valid_email_chars(s@) ==> r is Err,
            r matches Ok(e) ==> e.wf(),
    {
        if is_valid_email(s.as_str()) {
            Ok(SubscriberEmail(s))
        } else {
            Err(s.concat(" is not a valid subscriber email."))
        }
    }

    /// Read access to the underlying address.
    pub fn as_str(&self) -> (r: &str)
        ensures
            r@ == self@,
    {
        self.0.as_str()
    }
}

/// A structurally valid subscriber display name.
#[derive(Clone, Debug)]
pub struct SubscriberName(pub String);

impl View for SubscriberName {
    type V = Seq<char>;

    open spec fn view(&self) -> Seq<char> {
        self.0@
    }
}

impl SubscriberName {
    /// The name this value stands for.
    pub open spec fn wf(self) -> bool {
        valid_name_chars(self.0@)
    }

    /// Accepts `s` as a subscriber name exactly when it is structurally valid.
    pub fn parse(s: String) -> (r: Result<SubscriberName, String>)
        ensures
            valid_name_chars(s@) ==> (r matches Ok(e) && e.0 == s),
            !valid_name_chars(s@) ==> r is Err,
            r matches Ok(e) ==> e.wf(),
    {
        if is_valid_name(s.as_str()) {
            Ok(SubscriberName(s))
        } else {
            Err(s.concat(" is not a valid subscriber name."))
        }
    }

    /// Read access to the underlying name.
    pub fn as_str(&self) -> (r: &str)
        ensures
            r@ == self@,
    {
        self.0.as_str()
    }
}

/// Raw subscription form input, exactly as the HTTP layer hands it over.
#[derive(Clone, Debug)]
pub struct FormData {
    pub email: String,
    pub name: String,
}

/// Subscription request from a user.
#[derive(Clone, Debug)]
pub struct SubscriptionRequest {
    pub name: SubscriberName,
    pub email: SubscriberEmail,
}

impl SubscriptionRequest {
    /// Both fields of a request are structurally valid.
    pub open spec fn wf(self) -> bool {
        self.name.wf() && self.email.wf()
    }

    /// Validates raw form data into a subscription request; fails exactly
    /// when the name or the email is structurally invalid.
    pub fn try_from(value: FormData) -> (r: Result<SubscriptionRequest, String>)
        ensures
            valid_name_chars(value.name@) && valid_email_chars(value.email@) ==> (r matches Ok(
                q) && q.name.0 == value.name && q.email.0 == value.email),
            !(valid_name_chars(value.name@) && valid_email_chars(value.email@)) ==> r is Err,
            r matches Ok(q) ==> q.wf(),
    {
        let name = match SubscriberName::parse(value.name) {
            Ok(n) => n,
            Err(e) => {
                return Err(e);
            },
        };
        let email = match SubscriberEmail::parse(value.email) {
            Ok(e) => e,
            Err(e) => {
                return Err(e);
            },
        };
        Ok(SubscriptionRequest { email, name })
    }
}

} // verus!
