//! Versions of the form `major.minor.patch`, such as a target Python ABI.

use crate::text::{
    decimal, lemma_split_fields_nonempty, parse_usize, parse_usize_spec, push_char, push_decimal,
    split_fields, split_on, trim_str, trimmed_of, views,
};
use vstd::prelude::*;

verus! {

/// A version with three numeric components.
#[derive(Clone, Copy, Debug, PartialEq, Eq, Structural, PartialOrd, Ord)]
pub struct Version {
    pub major: usize,
    pub minor: usize,
    pub patch: usize,
}

/// Why a version string was refused.
#[derive(Clone, Copy, Debug, PartialEq, Eq, Structural)]
pub enum VersionError {
    /// Nothing but whitespace.
    Empty,
    /// The major component is not a number.
    InvalidMajor,
    /// The minor component is not a number.
    InvalidMinor,
    /// The patch component is not a number.
    InvalidPatch,
    /// More than three components.
    TooManyComponents,
}

/// A missing component counts as zero; a present one must parse.
pub open spec fn component(parts: Seq<Seq<char>>, k: int) -> Option<nat> {
    if parts.len() > k {
        parse_usize_spec(parts[k])
    } else {
        Some(0)
    }
}

/// What parsing a version string gives: the string is trimmed, then read by
/// `parse_version_text`.
pub open spec fn parse_version(s: Seq<char>) -> Result<(nat, nat, nat), VersionError> {
    parse_version_text(trimmed_of(s))
}

/// What parsing a trimmed version string gives: it is split at `.`; the
/// components are checked in order, then their number.
pub open spec fn parse_version_text(t: Seq<char>) -> Result<(nat, nat, nat), VersionError> {
    let parts = split_fields(t, '.');
    if t.len() == 0 {
        Err(VersionError::Empty)
    } else if parse_usize_spec(parts[0]) is None {
        Err(VersionError::InvalidMajor)
    } else if component(parts, 1) is None {
        Err(VersionError::InvalidMinor)
    } else if component(parts, 2) is None {
        Err(VersionError::InvalidPatch)
    } else if parts.len() > 3 {
        Err(VersionError::TooManyComponents)
    } else {
        Ok(
            (
                parse_usize_spec(parts[0])->Some_0,
                component(parts, 1)->Some_0,
                component(parts, 2)->Some_0,
            ),
        )
    }
}

fn parse_component(parts: &Vec<String>, k: usize) -> (r: Option<usize>)
    ensures
        r is None <==> component(views(parts@), k as int) is None,
        r matches Some(v) ==> component(views(parts@), k as int) == Some(v as nat),
{
    if parts.len() > k {
        proof {
            assert(views(parts@)[k as int] == parts@[k as int]@);
        }
        parse_usize(parts[k].as_str())
    } else {
        Some(0)
    }
}

impl Version {
    /// The dotted form `major.minor.patch`.
    pub open spec fn text(&self) -> Seq<char> {
        decimal(self.major as nat) + seq!['.'] + decimal(self.minor as nat) + seq!['.'] + decimal(
            self.patch as nat,
        )
    }

    /// Parses `major[.minor[.patch]]`, surrounded by optional whitespace;
    /// absent components are zero.
    pub fn from_str(version: &str) -> (r: Result<Version, VersionError>)
        ensures
            r matches Err(e) ==> parse_version(version@) == Err::<(nat, nat, nat), VersionError>(e),
            r matches Ok(v) ==> parse_version(version@) == Ok::<(nat, nat, nat), VersionError>(
                (v.major as nat, v.minor as nat, v.patch as nat),
            ),
            r is Ok <==> parse_version(version@) is Ok,
    {
        Self::parse_text(trim_str(version))
    }

    /// Parses an already trimmed `major[.minor[.patch]]`; absent components
    /// are zero.
    pub fn parse_text(t: &str) -> (r: Result<Version, VersionError>)
        ensures
            r matches Err(e) ==> parse_version_text(t@) == Err::<(nat, nat, nat), VersionError>(e),
            r matches Ok(v) ==> parse_version_text(t@) == Ok::<(nat, nat, nat), VersionError>(
                (v.major as nat, v.minor as nat, v.patch as nat),
            ),
            r is Ok <==> parse_version_text(t@) is Ok,
    {
        if t.unicode_len() == 0 {
            return Err(VersionError::Empty);
        }
        let parts = split_on(t, '.');
        proof {
            lemma_split_fields_nonempty(t@, '.');
            assert(views(parts@)[0] == parts@[0]@);
        }
        let major = match parse_usize(parts[0].as_str()) {
            Some(v) => v,
            None => {
                return Err(VersionError::InvalidMajor);
            },
        };
        let minor = match parse_component(&parts, 1) {
            Some(v) => v,
            None => {
                return Err(VersionError::InvalidMinor);
            },
        };
        let patch = match parse_component(&parts, 2) {
            Some(v) => v,
            None => {
                return Err(VersionError::InvalidPatch);
            },
        };
        if parts.len() > 3 {
            return Err(VersionError::TooManyComponents);
        }
        Ok(Version { major, minor, patch })
    }

    /// The dotted form `major.minor.patch`.
    pub fn to_string(&self) -> (r: String)
        ensures
            r@ == self.text(),
    {
        let mut s = String::new();
        push_decimal(&mut s, self.major);
        push_char(&mut s, '.');
        push_decimal(&mut s, self.minor);
        push_char(&mut s, '.');
        push_decimal(&mut s, self.patch);
        proof {
            assert(s@ =~= self.text());
        }
        s
    }
}

} // verus!
