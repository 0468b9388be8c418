//! Runtime environment selection and database settings.
//!
//! The settings are plain data: turning them into a live connection is the
//! embedding process's concern.
use vstd::prelude::*;
use vstd::string::StringSliceAdditionalSpecFns;

verus! {

/// How the application reaches its embedded database, as plain settings:
/// the path of the database file and the pragmas to open it with. Turning
/// these into a live connection is I/O and happens outside the library.
pub struct DatabaseSettings {
    pub database_path: String,
    pub create_if_missing: bool,
    pub journal_mode: String,
    pub synchronous: String,
    pub busy_timeout: u64,
    pub foreign_keys: bool,
    pub auto_vacuum: String,
    pub page_size: u32,
    pub cache_size: String,
    pub mmap_size: String,
    pub temp_store: String,
}

/// The possible runtime environments for the application.
pub enum Environment {
    Local,
    Production,
}

/// A character folded to ASCII lower case.
pub open spec fn to_ascii_lower_char(c: char) -> char {
    if 'A' <= c && c <= 'Z' {
        ((c as u8) + 32) as char
    } else {
        c
    }
}

/// A string folded to ASCII lower case.
pub open spec fn ascii_lowercased(s: Seq<char>) -> Seq<char> {
    s.map_values(|c: char| to_ascii_lower_char(c))
}

/// Does `s` equal `expected` once folded to ASCII lower case? `expected`
/// must itself be ASCII and already lower case.
fn eq_ignore_ascii_case_with(s: &str, expected: &str) -> (r: bool)
    requires
        vstd::utf8::is_ascii_chars(expected@),
        forall|i: int|
            0 <= i < expected@.len() ==> to_ascii_lower_char(#[trigger] expected@[i])
                == expected@[i],
    ensures
        r == (ascii_lowercased(s@) == expected@),
{
    if !s.is_ascii() {
        proof {
            assert(!vstd::utf8::is_ascii_chars(s@));
            if ascii_lowercased(s@) == expected@ {
                assert forall|i: int| 0 <= i < s@.len() implies '\0' <= #[trigger] s@[i]
                    <= '\u{7f}' by {
                    assert(ascii_lowercased(s@)[i] == to_ascii_lower_char(s@[i]));
                    assert('\0' <= expected@[i] <= '\u{7f}');
                }
                assert(vstd::utf8::is_ascii_chars(s@));
            }
        }
        return false;
    }
    proof {
        vstd::utf8::is_ascii_chars_encode_utf8(s@);
        vstd::utf8::is_ascii_chars_encode_utf8(expected@);
    }
    let b = s.as_bytes();
    let e = expected.as_bytes();
    if b.len() != e.len() {
        return false;
    }
    let mut i: usize = 0;
    while i < b.len()
        invariant
            0 <= i <= b@.len(),
            b@ == s.spec_bytes(),
            e@ == expected.spec_bytes(),
            vstd::utf8::is_ascii_chars(s@),
            vstd::utf8::is_ascii_chars(expected@),
            s@.len() == b@.len(),
            expected@.len() == e@.len(),
            b@.len() == e@.len(),
            forall|j: int| #![trigger s@[j]] 0 <= j < s@.len() ==> s@[j] as u8 == b@[j],
            forall|j: int|
                #![trigger expected@[j]]
                0 <= j < expected@.len() ==> expected@[j] as u8 == e@[j],
            forall|j: int|
                0 <= j < expected@.len() ==> to_ascii_lower_char(#[trigger] expected@[j])
                    == expected@[j],
            forall|j: int|
                0 <= j < i ==> to_ascii_lower_char(#[trigger] s@[j]) == expected@[j],
        decreases b@.len() - i,
    {
        let mut c = b[i];
        // Fold A-Z (65-90) onto a-z.
        if 65 <= c && c <= 90 {
            c = c + 32;
        }
        proof {
            assert(s@[i as int] as u8 == b@[i as int]);
            assert('\0' <= s@[i as int] <= '\u{7f}');
            assert(expected@[i as int] as u8 == e@[i as int]);
            assert('\0' <= expected@[i as int] <= '\u{7f}');
        }
        if c != e[i] {
            proof {
                assert(to_ascii_lower_char(s@[i as int]) != expected@[i as int]);
                assert(ascii_lowercased(s@)[i as int] == to_ascii_lower_char(s@[i as int]));
            }
            return false;
        }
        i = i + 1;
    }
    proof {
        assert(ascii_lowercased(s@) =~= expected@);
    }
    true
}

impl Environment {
    pub fn as_str(&self) -> (r: &'static str)
        ensures
            self is Local ==> r@ == "local"@,
            self is Production ==> r@ == "production"@,
    {
        match self {
            Environment::Local => "local",
            Environment::Production => "production",
        }
    }

    /// Read an environment name, case-insensitively: `local` or
    /// `production`, anything else rejected.
    pub fn try_from(s: &str) -> (r: Result<Environment, String>)
        ensures
            ascii_lowercased(s@) == "local"@ ==> (r matches Ok(e) && e is Local),
            ascii_lowercased(s@) == "production"@ ==> (r matches Ok(e) && e is Production),
            ascii_lowercased(s@) != "local"@ && ascii_lowercased(s@) != "production"@ ==> r
                is Err,
    {
        proof {
            reveal_strlit("local");
            reveal_strlit("production");
            assert(vstd::utf8::is_ascii_chars("local"@));
            assert(vstd::utf8::is_ascii_chars("production"@));
            assert forall|i: int| 0 <= i < "local"@.len() implies to_ascii_lower_char(
                #[trigger] "local"@[i],
            ) == "local"@[i] by {}
            assert forall|i: int| 0 <= i < "production"@.len() implies to_ascii_lower_char(
                #[trigger] "production"@[i],
            ) == "production"@[i] by {}
        }
        if eq_ignore_ascii_case_with(s, "local") {
            Ok(Environment::Local)
        } else if eq_ignore_ascii_case_with(s, "production") {
            Ok(Environment::Production)
        } else {
            Err(
                String::from_str(
                    "not a supported environment; use either `local` or `production`",
                ),
            )
        }
    }
}

} // verus!
