//! Versions of the published crates and what a release does to them. Text
//! is taken as bytes.

use crate::text::{
    all_digits, before, behind, digits_of, find, format_number, index_of, is_digit,
    lemma_digits_of, lemma_index_of, lemma_index_reaches, number, parse_number, DOT, SLASH,
};
use vstd::prelude::*;

verus! {

/// How much a release raises a version. A breaking change is never made by
/// a release: it is left to a person.
#[derive(Copy, Clone, Debug, PartialEq, Eq, Structural)]
#[allow(non_camel_case_types)]
pub enum Bump {
    PATCH,
    MINOR,
}

/// The version of a crate.
#[derive(Copy, Clone, Debug, PartialEq, Eq, Structural)]
pub struct Version {
    pub major: u64,
    pub minor: u64,
    pub patch: u64,
}

/// Why a text is no version.
#[derive(Copy, Clone, Debug, PartialEq, Eq, Structural)]
pub enum VersionError {
    /// A part of the version is no number that fits in 64 bits.
    NotANumber,
    /// The text has fewer than three parts.
    MissingPart,
}

/// The name of a crate at `path`: what stands behind the first `/`.
pub fn crate_name_from_path(path: &[u8]) -> (name: &[u8])
    requires
        path@.contains(SLASH),
    ensures
        behind(path@, SLASH) == Some(name@),
{
    let len = path.len();
    let slash = find(path, SLASH, 0);
    proof {
        assert(path@.skip(0) =~= path@);
        let i = choose|i: int| 0 <= i < path@.len() && path@[i] == SLASH;
        lemma_index_reaches(path@, SLASH, i);
        assert(slash == index_of(path@, SLASH));
        assert(slash < path@.len());
    }
    &path[slash + 1..len]
}

/// The version that `text` spells: three numbers with a `.` between
/// them. What follows a `.` behind the third number is not read.
pub open spec fn version_of(text: Seq<u8>) -> Result<Version, VersionError> {
    match number(before(text, DOT)) {
        None => Err(VersionError::NotANumber),
        Some(major) => match behind(text, DOT) {
            None => Err(VersionError::MissingPart),
            Some(second) => match number(before(second, DOT)) {
                None => Err(VersionError::NotANumber),
                Some(minor) => match behind(second, DOT) {
                    None => Err(VersionError::MissingPart),
                    Some(third) => match number(before(third, DOT)) {
                        None => Err(VersionError::NotANumber),
                        Some(patch) => Ok(Version { major, minor, patch }),
                    },
                },
            },
        },
    }
}

/// The text of a version: its three numbers in decimal digits, with a `.`
/// between them.
pub open spec fn text_of(version: Version) -> Seq<u8> {
    digits_of(version.major as nat) + seq![DOT] + digits_of(version.minor as nat) + seq![DOT]
        + digits_of(version.patch as nat)
}

/// Digits before a `.` are what stands before the first `.`, and what
/// follows that `.` is what stands behind it.
proof fn lemma_part_before_dot(digits: Seq<u8>, rest: Seq<u8>)
    requires
        all_digits(digits),
    ensures
        before(digits + seq![DOT] + rest, DOT) == digits,
        behind(digits + seq![DOT] + rest, DOT) == Some(rest),
{
    let text = digits + seq![DOT] + rest;
    assert forall|i: int| 0 <= i < digits.len() implies text[i] != DOT by {
        assert(is_digit(digits[i]));
    }
    lemma_index_of(text, DOT, digits.len() as int);
    assert(text.take(digits.len() as int) =~= digits);
    assert(text.skip(digits.len() as int + 1) =~= rest);
}

/// Digits without a `.` are what stands before the first `.`.
proof fn lemma_last_part(digits: Seq<u8>)
    requires
        all_digits(digits),
    ensures
        before(digits, DOT) == digits,
{
    assert forall|i: int| 0 <= i < digits.len() implies digits[i] != DOT by {
        assert(is_digit(digits[i]));
    }
    lemma_index_of(digits, DOT, digits.len() as int);
    assert(digits.take(digits.len() as int) =~= digits);
}

/// Writing and then reading gives the version back: the text of a
/// version spells that version.
pub proof fn lemma_text_parses(version: Version)
    ensures
        version_of(text_of(version)) == Ok::<Version, VersionError>(version),
{
    let major = digits_of(version.major as nat);
    let minor = digits_of(version.minor as nat);
    let patch = digits_of(version.patch as nat);
    lemma_digits_of(version.major as nat);
    lemma_digits_of(version.minor as nat);
    lemma_digits_of(version.patch as nat);
    let second = minor + seq![DOT] + patch;
    assert(text_of(version) =~= major + seq![DOT] + second);
    lemma_part_before_dot(major, second);
    lemma_part_before_dot(minor, patch);
    lemma_last_part(patch);
}

/// A part of a version and what follows it: the number before the first
/// `.` at or behind `from`, and the index behind that `.`, if there is
/// one.
fn parse_part(text: &[u8], from: usize) -> (part: (Option<u64>, Option<usize>))
    requires
        from <= text@.len(),
    ensures
        part.0 == number(before(text@.skip(from as int), DOT)),
        match part.1 {
            Some(next) => from < next <= text@.len() && behind(text@.skip(from as int), DOT)
                == Some(text@.skip(next as int)),
            None => behind(text@.skip(from as int), DOT) is None,
        },
{
    let len = text.len();
    let dot = find(text, DOT, from);
    let value = parse_number(&text[from..dot]);
    proof {
        let rest = text@.skip(from as int);
        assert(text@.subrange(from as int, dot as int) =~= rest.take(dot - from));
        if dot < len {
            assert(rest.skip(dot - from + 1) =~= text@.skip(dot + 1));
        }
    }
    if dot < len {
        (value, Some(dot + 1))
    } else {
        (value, None)
    }
}

impl Version {
    /// The version that a bump makes of this one.
    pub open spec fn bumped(self, bump: Bump) -> Version {
        match bump {
            Bump::PATCH => Version { patch: (self.patch + 1) as u64, ..self },
            Bump::MINOR => Version { minor: (self.minor + 1) as u64, ..self },
        }
    }

    /// Whether the bump stays within 64 bits.
    pub open spec fn can_bump(self, bump: Bump) -> bool {
        match bump {
            Bump::PATCH => self.patch < u64::MAX,
            Bump::MINOR => self.minor < u64::MAX,
        }
    }

    /// Raises the patch number or the minor number by one.
    pub fn bump(&mut self, bump: Bump)
        requires
            old(self).can_bump(bump),
        ensures
            *final(self) == old(self).bumped(bump),
    {
        match bump {
            Bump::PATCH => {
                self.patch += 1
            },
            Bump::MINOR => {
                self.minor += 1
            },
        };
    }

    /// Reads a version as `version_of` says.
    pub fn parse(text: &[u8]) -> (version: Result<Version, VersionError>)
        ensures
            version == version_of(text@),
    {
        proof {
            assert(text@.skip(0) =~= text@);
        }
        let (major, second) = parse_part(text, 0);
        let major = match major {
            Some(number) => number,
            None => { return Err(VersionError::NotANumber); },
        };
        let second = match second {
            Some(index) => index,
            None => { return Err(VersionError::MissingPart); },
        };
        let (minor, third) = parse_part(text, second);
        let minor = match minor {
            Some(number) => number,
            None => { return Err(VersionError::NotANumber); },
        };
        let third = match third {
            Some(index) => index,
            None => { return Err(VersionError::MissingPart); },
        };
        let (patch, _) = parse_part(text, third);
        match patch {
            Some(patch) => Ok(Version { major, minor, patch }),
            None => Err(VersionError::NotANumber),
        }
    }

    /// Writes the version as `text_of` says. The text is read back as this
    /// version.
    pub fn to_text(&self) -> (text: Vec<u8>)
        ensures
            text@ == text_of(*self),
            version_of(text@) == Ok::<Version, VersionError>(*self),
    {
        let mut text = format_number(self.major);
        text.push(DOT);
        let mut minor = format_number(self.minor);
        text.append(&mut minor);
        text.push(DOT);
        let mut patch = format_number(self.patch);
        text.append(&mut patch);
        proof {
            assert(text@ =~= text_of(*self));
            lemma_text_parses(*self);
        }
        text
    }

    /// Raises the patch number or the minor number by one, unless that
    /// number is the greatest there is.
    pub fn checked_bump(&mut self, bump: Bump) -> (done: bool)
        ensures
            done == old(self).can_bump(bump),
            done ==> *final(self) == old(self).bumped(bump),
            !done ==> *final(self) == *old(self),
    {
        let fits = match bump {
            Bump::PATCH => self.patch < u64::MAX,
            Bump::MINOR => self.minor < u64::MAX,
        };
        if fits {
            self.bump(bump);
        }
        fits
    }
}

} // verus!
