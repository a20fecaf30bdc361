//! Action tags: the short UTF-8 names by which an intent selects its
//! downstream adapter.

use crate::bytes::{copy_range, same_bytes};
use crate::utf8_check::is_valid_utf8;
use vstd::prelude::*;
use vstd::string::*;
use vstd::utf8::*;

verus! {

/// Highest number of bytes an action tag may occupy.
pub const MAX_ACTION_TAG_LEN: usize = 64;

/// Whether `bytes` may serve as an action tag: well-formed UTF-8 of at most
/// [`MAX_ACTION_TAG_LEN`] bytes.
pub open spec fn valid_tag(bytes: Seq<u8>) -> bool {
    bytes.len() <= MAX_ACTION_TAG_LEN && valid_utf8(bytes)
}

/// A validated action tag. Its view is the tag's UTF-8 bytes.
#[derive(Debug)]
pub struct ActionTag {
    bytes: Vec<u8>,
}

impl View for ActionTag {
    type V = Seq<u8>;

    closed spec fn view(&self) -> Seq<u8> {
        self.bytes@
    }
}

impl ActionTag {
    #[verifier::type_invariant]
    spec fn well_formed(self) -> bool {
        valid_tag(self.bytes@)
    }

    /// Makes a tag of `bytes`, or `None` where they are too long or are not
    /// UTF-8.
    pub fn from_bytes(bytes: &[u8]) -> (tag: Option<ActionTag>)
        ensures
            tag is Some <==> valid_tag(bytes@),
            tag matches Some(t) ==> t@ == bytes@,
    {
        if bytes.len() > MAX_ACTION_TAG_LEN {
            return None;
        }
        if !is_valid_utf8(bytes) {
            return None;
        }
        let owned = copy_range(bytes, 0, bytes.len());
        assert(owned@ =~= bytes@);
        Some(ActionTag { bytes: owned })
    }

    /// Makes a tag of the text `name`, or `None` where its UTF-8 form is
    /// longer than [`MAX_ACTION_TAG_LEN`] bytes.
    pub fn from_name(name: &str) -> (tag: Option<ActionTag>)
        ensures
            tag is Some <==> name.spec_bytes().len() <= MAX_ACTION_TAG_LEN,
            tag matches Some(t) ==> t@ == name.spec_bytes() && valid_tag(t@),
    {
        let bytes = name.as_bytes();
        if bytes.len() > MAX_ACTION_TAG_LEN {
            return None;
        }
        proof {
            encode_utf8_valid_utf8(name@);
        }
        let owned = copy_range(bytes, 0, bytes.len());
        assert(owned@ =~= bytes@);
        Some(ActionTag { bytes: owned })
    }

    /// The tag's bytes, which are always a valid tag.
    pub fn as_bytes(&self) -> (bytes: &[u8])
        ensures
            bytes@ == self@,
            valid_tag(self@),
    {
        proof {
            use_type_invariant(self);
        }
        self.bytes.as_slice()
    }

    /// Number of bytes in the tag.
    pub fn len(&self) -> (n: usize)
        ensures
            n == self@.len(),
            n <= MAX_ACTION_TAG_LEN,
    {
        proof {
            use_type_invariant(self);
        }
        self.bytes.len()
    }

    /// Whether this tag and `other` are the same name.
    pub fn same_as(&self, other: &ActionTag) -> (same: bool)
        ensures
            same == (self@ == other@),
    {
        same_bytes(self.bytes.as_slice(), other.bytes.as_slice())
    }
}

impl Clone for ActionTag {
    fn clone(&self) -> (copy: Self)
        ensures
            copy@ == self@,
    {
        proof {
            use_type_invariant(self);
        }
        let bytes = copy_range(self.bytes.as_slice(), 0, self.bytes.len());
        assert(bytes@ =~= self.bytes@);
        ActionTag { bytes }
    }
}

} // verus!
