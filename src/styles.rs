//! Colours of the list: each tag gets a colour picked from the hash of its
//! text, brightened when it would be too dark to read.

use std::collections::hash_map::DefaultHasher;
use std::hash::Hash;
use std::hash::Hasher;

use vstd::prelude::*;
use vstd::std_specs::hash::DefaultHasherAdditionalSpecFns;

verus! {

/// The frame drawn around each bookmark.
pub struct BookmarkContainer;

/// A tag drawn as a button in its own colour.
pub struct TagButton {
    pub text: String,
}

/// What hashing a string writes into a hasher, as `<String as Hash>::hash`
/// writes it.
pub uninterp spec fn hash_writes(s: Seq<char>) -> Seq<Seq<u8>>;

/// Relies on `<String as Hash>::hash`: what it writes into the hasher depends
/// on the characters alone.
#[verifier::external_body]
fn feed_text(text: &String, hasher: &mut DefaultHasher)
    ensures
        final(hasher)@ == old(hasher)@ + hash_writes(text@),
{
    text.hash(hasher)
}

/// A colour whose three bytes all stay below this is too dark to read.
pub const THRESHOLD: u8 = 90;

/// The colour, as red, green and blue, that the hash `h` gives: its three
/// lowest bytes; when all three are dark, one of them is lifted by
/// `255 - THRESHOLD`; a deep blue is then softened.
pub open spec fn color_of(h: u64) -> Seq<int> {
    let b0 = (h % 256) as int;
    let b1 = ((h / 256) % 256) as int;
    let b2 = ((h / 65536) % 256) as int;
    let lift = 255 - THRESHOLD;
    let first = if b0 < THRESHOLD && b1 < THRESHOLD && b2 < THRESHOLD {
        if b0 > 60 {
            seq![b0 + lift, b1, b2]
        } else if b0 > 30 {
            seq![b0, b1 + lift, b2]
        } else {
            seq![b0, b1, b2 + lift]
        }
    } else {
        seq![b0, b1, b2]
    };
    if first[2] > 100 && first[0] < 45 && first[1] < 45 {
        seq![first[0] + 40, first[1] + 40, first[2] - 30]
    } else {
        first
    }
}

/// The colour that the hash `h` gives.
pub fn color_from_hash(h: u64) -> (r: [u8; 3])
    ensures
        r@.map_values(|b: u8| b as int) == color_of(h),
{
    let b0 = (h % 256) as u8;
    let b1 = ((h / 256) % 256) as u8;
    let b2 = ((h / 65536) % 256) as u8;
    let lift: u8 = 255 - THRESHOLD;
    let mut rgb: [u8; 3];
    if b0 < THRESHOLD && b1 < THRESHOLD && b2 < THRESHOLD {
        if b0 > 60 {
            rgb = [b0 + lift, b1, b2];
        } else if b0 > 30 {
            rgb = [b0, b1 + lift, b2];
        } else {
            rgb = [b0, b1, b2 + lift];
        }
    } else {
        rgb = [b0, b1, b2];
    }
    if rgb[2] > 100 && rgb[0] < 45 && rgb[1] < 45 {
        rgb = [rgb[0] + 40, rgb[1] + 40, rgb[2] - 30];
    }
    assert(rgb@.map_values(|b: u8| b as int) =~= color_of(h));
    rgb
}

impl TagButton {
    /// The colour of this tag: the one that the hash of its text gives.
    pub fn text_to_color(&self) -> (r: [u8; 3])
        ensures
            r@.map_values(|b: u8| b as int) == color_of(
                DefaultHasher::spec_finish(hash_writes(self.text@)),
            ),
    {
        let mut hasher = DefaultHasher::new();
        feed_text(&self.text, &mut hasher);
        assert(hasher@ =~= hash_writes(self.text@));
        color_from_hash(hasher.finish())
    }
}

} // verus!
