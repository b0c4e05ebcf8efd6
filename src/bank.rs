//! The bank of short clips that key presses play, and its load-time filter.

use vstd::prelude::*;
use crate::error::SoundError;
use crate::select::{select_index, select_index_spec};

verus! {

/// The longest clip, in nanoseconds, that the bank keeps: five seconds.
pub const MAX_CLIP_NANOS: u128 = 5_000_000_000;

/// The default size of the key space, the base of clip selection.
pub const DEFAULT_TOTAL_KEYS: i32 = 104;

/// A clip is kept when its length is unknown or at most five seconds.
pub open spec fn clip_fits_spec(duration_nanos: Option<u128>) -> bool {
    match duration_nanos {
        None => true,
        Some(n) => n <= MAX_CLIP_NANOS,
    }
}

/// Whether a decoded clip of the given length, in nanoseconds if known,
/// belongs in the bank.
pub fn clip_fits(duration_nanos: Option<u128>) -> (r: bool)
    ensures
        r == clip_fits_spec(duration_nanos),
{
    match duration_nanos {
        None => true,
        Some(n) => n <= MAX_CLIP_NANOS,
    }
}

/// The decoded clips, indexed from 0, with the number of paths that were
/// scanned and the configured number of keys.
pub struct ClipBank<T> {
    clips: Vec<T>,
    total_files: usize,
    total_keys: i32,
}

impl<T> View for ClipBank<T> {
    type V = Seq<T>;

    closed spec fn view(&self) -> Seq<T> {
        self.clips@
    }
}

impl<T> ClipBank<T> {
    /// The number of input paths scanned when the bank was built.
    pub closed spec fn spec_total_files(&self) -> usize {
        self.total_files
    }

    /// The configured key-space size.
    pub closed spec fn spec_total_keys(&self) -> i32 {
        self.total_keys
    }

    /// An empty bank for `total_files` scanned paths and `total_keys` keys.
    pub fn new(total_files: usize, total_keys: i32) -> (b: ClipBank<T>)
        ensures
            b@ == Seq::<T>::empty(),
            b.spec_total_files() == total_files,
            b.spec_total_keys() == total_keys,
    {
        ClipBank { clips: Vec::new(), total_files, total_keys }
    }

    /// Offers one candidate file: `decoded` is its clip, or `None` where it
    /// could not be decoded, and `duration_nanos` the clip's length where
    /// known. The clip is appended when it decoded and fits; otherwise the
    /// bank is unchanged. Returns whether it was kept.
    pub fn offer(&mut self, decoded: Option<T>, duration_nanos: Option<u128>) -> (kept: bool)
        ensures
            kept == (decoded is Some && clip_fits_spec(duration_nanos)),
            kept ==> final(self)@ == old(self)@.push(decoded->Some_0),
            !kept ==> final(self)@ == old(self)@,
            final(self).spec_total_files() == old(self).spec_total_files(),
            final(self).spec_total_keys() == old(self).spec_total_keys(),
    {
        match decoded {
            Some(clip) => {
                if clip_fits(duration_nanos) {
                    self.clips.push(clip);
                    true
                } else {
                    false
                }
            },
            None => false,
        }
    }

    /// The number of clips in the bank.
    pub fn len(&self) -> (n: usize)
        ensures
            n == self@.len(),
    {
        self.clips.len()
    }

    /// The number of input paths scanned when the bank was built.
    pub fn total_files(&self) -> (n: usize)
        ensures
            n == self.spec_total_files(),
    {
        self.total_files
    }

    /// The configured key-space size.
    pub fn total_keys(&self) -> (n: i32)
        ensures
            n == self.spec_total_keys(),
    {
        self.total_keys
    }

    /// The index of the clip that `key` plays, or `EmptyBank` when the bank
    /// holds no clip.
    pub fn select_index(&self, key: i32) -> (r: Result<usize, SoundError>)
        ensures
            self@.len() == 0 <==> r == Err::<usize, SoundError>(SoundError::EmptyBank),
            self@.len() > 0 ==> (r matches Ok(i) && i as int == select_index_spec(
                key as int,
                self.spec_total_keys() as int,
                self@.len() as int,
            )),
            r matches Ok(i) ==> i < self@.len(),
    {
        select_index(key, self.total_keys, self.clips.len())
    }

    /// The clip that `key` plays, or `EmptyBank` when the bank holds no clip.
    pub fn clip_for(&self, key: i32) -> (r: Result<&T, SoundError>)
        ensures
            self@.len() == 0 <==> r is Err,
            r matches Err(e) ==> e == SoundError::EmptyBank,
            self@.len() > 0 ==> (r matches Ok(c) && *c == self@[select_index_spec(
                key as int,
                self.spec_total_keys() as int,
                self@.len() as int,
            )]),
    {
        match self.select_index(key) {
            Ok(i) => Ok(&self.clips[i]),
            Err(e) => Err(e),
        }
    }
}

} // verus!
