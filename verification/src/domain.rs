//! The domain's grammars: subscriber email addresses and display names.
//!
//! An email address here is printable ASCII with exactly one `@`, neither
//! side empty. A name is up to 256 characters, not all whitespace, free of
//! a small set of dangerous characters.
use vstd::prelude::*;
use vstd::string::StringSliceAdditionalSpecFns;

verus! {

/// The message a rejected address comes back with.
pub open spec fn email_error_message() -> Seq<char> {
    "not a valid subscriber email address"@
}

/// The message a rejected name comes back with.
pub open spec fn name_error_message() -> Seq<char> {
    "not a valid subscriber name"@
}

/// A character an address may contain: printable ASCII, no whitespace.
pub open spec fn is_email_char(c: char) -> bool {
    '!' <= c && c <= '~'
}

/// `k` is the position of the only `@` in `s`.
pub open spec fn is_sole_at_position(s: Seq<char>, k: int) -> bool {
    &&& 0 < k < s.len() - 1
    &&& s[k] == '@'
    &&& forall|i: int| 0 <= i < s.len() && i != k ==> s[i] != '@'
}

/// The address grammar: bounded printable-ASCII text with exactly one `@`,
/// and something on both sides of it.
pub open spec fn valid_email(s: Seq<char>) -> bool {
    &&& 3 <= s.len() <= 320
    &&& forall|i: int| 0 <= i < s.len() ==> is_email_char(#[trigger] s[i])
    &&& exists|k: int| is_sole_at_position(s, k)
}

/// Check a candidate address against the grammar.
pub fn validate_email(s: &str) -> (r: bool)
    ensures
        r == valid_email(s@),
{
    if !s.is_ascii() {
        proof {
            if valid_email(s@) {
                assert forall|i: int| 0 <= i < s@.len() implies '\0' <= #[trigger] s@[i]
                    <= '\u{7f}' by {
                    assert(is_email_char(s@[i]));
                }
                assert(vstd::utf8::is_ascii_chars(s@));
            }
        }
        return false;
    }
    proof {
        vstd::utf8::is_ascii_chars_encode_utf8(s@);
    }
    let b = s.as_bytes();
    if b.len() < 3 || b.len() > 320 {
        return false;
    }
    let mut at_pos: usize = 0;
    let mut seen_at = false;
    let mut i: usize = 0;
    while i < b.len()
        invariant
            0 <= i <= b@.len(),
            b@ == s.spec_bytes(),
            vstd::utf8::is_ascii_chars(s@),
            s@.len() == b@.len(),
            3 <= b@.len() <= 320,
            forall|j: int| #![trigger s@[j]] 0 <= j < s@.len() ==> s@[j] as u8 == b@[j],
            forall|j: int| 0 <= j < i ==> is_email_char(#[trigger] s@[j]),
            !seen_at ==> forall|j: int| 0 <= j < i ==> (#[trigger] s@[j]) != '@',
            seen_at ==> 0 <= at_pos < i && s@[at_pos as int] == '@' && (forall|j: int|
                0 <= j < i && j != at_pos ==> (#[trigger] s@[j]) != '@'),
        decreases b@.len() - i,
    {
        let c = b[i];
        proof {
            assert(s@[i as int] as u8 == b@[i as int]);
            assert('\0' <= s@[i as int] <= '\u{7f}');
        }
        // Printable ASCII runs from '!' (33) to '~' (126).
        if c < 33 || c > 126 {
            return false;
        }
        // '@' is 64.
        if c == 64 {
            if seen_at {
                // A second '@': no position can be the sole one.
                proof {
                    assert forall|k: int| !is_sole_at_position(s@, k) by {
                        if 0 <= k < s@.len() {
                            if k == at_pos {
                                assert(s@[i as int] == '@');
                            } else {
                                assert(s@[at_pos as int] == '@');
                            }
                        }
                    }
                }
                return false;
            }
            seen_at = true;
            at_pos = i;
        }
        i = i + 1;
    }
    if !seen_at {
        proof {
            assert forall|k: int| !is_sole_at_position(s@, k) by {
                if 0 <= k < s@.len() {
                    assert(s@[k] != '@');
                }
            }
        }
        return false;
    }
    if at_pos == 0 || at_pos == b.len() - 1 {
        proof {
            assert forall|k: int| !is_sole_at_position(s@, k) by {
                if 0 <= k < s@.len() && k != at_pos {
                    assert(s@[at_pos as int] == '@');
                }
            }
        }
        return false;
    }
    proof {
        assert(is_sole_at_position(s@, at_pos as int));
    }
    true
}

/// A validated subscriber email address.
#[derive(Debug)]
pub struct SubscriberEmail {
    email: String,
}

impl View for SubscriberEmail {
    type V = Seq<char>;

    closed spec fn view(&self) -> Seq<char> {
        self.email@
    }
}

impl SubscriberEmail {
    /// Every value of the type satisfies the grammar.
    pub open spec fn wf(self) -> bool {
        valid_email(self@)
    }

    /// Accept an address, rejecting anything outside the grammar.
    pub fn parse(s: String) -> (r: Result<SubscriberEmail, String>)
        ensures
            valid_email(s@) ==> (r matches Ok(e) && e@ == s@),
            !valid_email(s@) ==> (r matches Err(m) && m@ == email_error_message()),
            r matches Ok(e) ==> e.wf(),
    {
        if validate_email(s.as_str()) {
            Ok(SubscriberEmail { email: s })
        } else {
            Err(String::from_str("not a valid subscriber email address"))
        }
    }

    /// The address's characters.
    pub fn as_str(&self) -> (r: &str)
        ensures
            r@ == self@,
    {
        self.email.as_str()
    }
}

/// A whitespace character, for the not-all-whitespace rule.
pub open spec fn is_space_char(c: char) -> bool {
    c == ' ' || c == '\t' || c == '\n' || c == '\r'
}

/// A character a name must not contain.
pub open spec fn is_forbidden_name_char(c: char) -> bool {
    c == '/' || c == '(' || c == ')' || c == '"' || c == '<' || c == '>' || c == '\\' || c == '{'
        || c == '}'
}

/// The name grammar: 1 to 256 characters, at least one of them not
/// whitespace, none of them forbidden.
pub open spec fn valid_subscriber_name(s: Seq<char>) -> bool {
    &&& 1 <= s.len() <= 256
    &&& exists|i: int| 0 <= i < s.len() && !is_space_char(#[trigger] s[i])
    &&& forall|i: int| 0 <= i < s.len() ==> !is_forbidden_name_char(#[trigger] s[i])
}

/// Check a candidate name against the grammar. Names may hold any
/// character, so this walks the characters rather than the bytes.
pub fn validate_subscriber_name(s: &str) -> (r: bool)
    ensures
        r == valid_subscriber_name(s@),
{
    broadcast use vstd::string::next_postcondition;
    broadcast use vstd::string::axiom_spec_iter;

    let ghost all = s@;
    let mut it = s.chars();
    let mut i: usize = 0;
    let mut non_space = false;
    loop
        invariant
            all == s@,
            0 <= i <= all.len(),
            i <= 256,
            vstd::std_specs::iter::IteratorSpec::remaining(&it) == all.skip(i as int),
            non_space == exists|j: int| 0 <= j < i && !is_space_char(#[trigger] all[j]),
            forall|j: int| 0 <= j < i ==> !is_forbidden_name_char(#[trigger] all[j]),
        ensures
            i == all.len(),
            i <= 256,
            non_space == exists|j: int| 0 <= j < i && !is_space_char(#[trigger] all[j]),
            forall|j: int| 0 <= j < i ==> !is_forbidden_name_char(#[trigger] all[j]),
        decreases all.len() - i,
    {
        let next = it.next();
        match next {
            None => {
                proof {
                    assert(all.skip(i as int).len() == 0);
                    assert(all.len() == i);
                }
                break;
            },
            Some(c) => {
                proof {
                    assert(all.skip(i as int).len() > 0);
                    assert(c == all.skip(i as int)[0]);
                    assert(all.skip(i as int)[0] == all[i as int]);
                }
                if c == '/' || c == '(' || c == ')' || c == '"' || c == '<' || c == '>' || c
                    == '\\' || c == '{' || c == '}' {
                    return false;
                }
                if !(c == ' ' || c == '\t' || c == '\n' || c == '\r') {
                    non_space = true;
                }
                proof {
                    assert(all.skip(i as int).drop_first() =~= all.skip(i + 1));
                }
                if i >= 256 {
                    // Already 257 characters: too long.
                    proof {
                        assert(all.len() > 256);
                    }
                    return false;
                }
                i = i + 1;
            },
        }
    }
    if i < 1 {
        return false;
    }
    non_space
}

/// A validated subscriber display name.
#[derive(Debug)]
pub struct SubscriberName {
    name: String,
}

impl View for SubscriberName {
    type V = Seq<char>;

    closed spec fn view(&self) -> Seq<char> {
        self.name@
    }
}

impl SubscriberName {
    /// Every value of the type satisfies the grammar.
    pub open spec fn wf(self) -> bool {
        valid_subscriber_name(self@)
    }

    /// Accept a display name, rejecting anything outside the grammar.
    pub fn parse(s: String) -> (r: Result<SubscriberName, String>)
        ensures
            valid_subscriber_name(s@) ==> (r matches Ok(n) && n@ == s@),
            !valid_subscriber_name(s@) ==> (r matches Err(m) && m@ == name_error_message()),
            r matches Ok(n) ==> n.wf(),
    {
        if validate_subscriber_name(s.as_str()) {
            Ok(SubscriberName { name: s })
        } else {
            Err(String::from_str("not a valid subscriber name"))
        }
    }

    /// The name's characters.
    pub fn as_str(&self) -> (r: &str)
        ensures
            r@ == self@,
    {
        self.name.as_str()
    }
}

/// A validated new subscriber: name and email together.
#[derive(Debug)]
pub struct NewSubscriber {
    pub name: SubscriberName,
    pub email: SubscriberEmail,
}

} // verus!
