//! Virtual archive overlays.
//!
//! An overlay is the mutable layer of one archive: entries of bytes under
//! internal paths. The internal paths are the overlay's own business: nothing
//! here confines them. Where an overlay cannot serve a request it gives its
//! own account of the failure as text.

use vstd::prelude::*;
use vstd::string::*;
use crate::keyed::KeyedList;

verus! {

/// The mutable layer of one virtual archive, held in memory.
#[derive(Debug)]
pub struct Overlay {
    entries: KeyedList<Vec<u8>>,
}

/// What an overlay says when asked for an entry that it does not hold.
pub open spec fn missing_entry_text(internal_path: Seq<char>) -> Seq<char> {
    "no such entry: "@ + internal_path
}

/// What an overlay says when it cannot grow by another entry.
pub open spec fn no_room_text(internal_path: Seq<char>) -> Seq<char> {
    "no room for entry: "@ + internal_path
}

impl Overlay {
    /// The overlay as a map from internal path to the bytes written there.
    pub closed spec fn view(&self) -> Map<Seq<char>, Seq<u8>> {
        self.entries@.map_values(|bytes: Vec<u8>| bytes@)
    }

    /// An overlay without entries.
    pub fn new() -> (overlay: Self)
        ensures
            overlay@ == Map::<Seq<char>, Seq<u8>>::empty(),
    {
        let overlay = Overlay { entries: KeyedList::new() };
        assert(overlay@ =~= Map::<Seq<char>, Seq<u8>>::empty());
        overlay
    }

    /// Reads the entry at `internal_path`.
    ///
    /// Succeeds exactly when the overlay holds such an entry, with the bytes
    /// last written there.
    pub fn read(&self, internal_path: &str) -> (r: Result<Vec<u8>, String>)
        ensures
            match r {
                Ok(bytes) => self@.contains_key(internal_path@) && bytes@ == self@[internal_path@],
                Err(cause) => !self@.contains_key(internal_path@) && cause@ == missing_entry_text(
                    internal_path@,
                ),
            },
    {
        match self.entries.get(internal_path) {
            Some(bytes) => Ok(copy_bytes(bytes)),
            None => Err(String::from_str("no such entry: ").concat(internal_path)),
        }
    }

    /// Writes `contents` at `internal_path`, in place of what stood there.
    ///
    /// Writing over an entry always succeeds. A new entry needs room; where
    /// none can be had, the write fails and the overlay stays as it was.
    pub fn write(&mut self, internal_path: &str, contents: Vec<u8>) -> (r: Result<(), String>)
        ensures
            match r {
                Ok(()) => final(self)@ == old(self)@.insert(internal_path@, contents@),
                Err(cause) => {
                    &&& final(self)@ == old(self)@
                    &&& !old(self)@.contains_key(internal_path@)
                    &&& cause@ == no_room_text(internal_path@)
                },
            },
    {
        match self.entries.insert(internal_path, contents) {
            Ok(()) => {
                assert(self@ =~= old(self)@.insert(internal_path@, contents@));
                Ok(())
            },
            Err(_) => Err(String::from_str("no room for entry: ").concat(internal_path)),
        }
    }
}

/// A copy of `bytes`.
fn copy_bytes(bytes: &Vec<u8>) -> (copy: Vec<u8>)
    ensures
        copy@ == bytes@,
{
    let mut copy: Vec<u8> = Vec::new();
    let mut i: usize = 0;
    while i < bytes.len()
        invariant
            i <= bytes.len(),
            copy@ == bytes@.take(i as int),
        decreases bytes.len() - i,
    {
        copy.push(bytes[i]);
        assert(bytes@.take(i + 1) =~= bytes@.take(i as int).push(bytes@[i as int]));
        i = i + 1;
    }
    assert(bytes@.take(bytes.len() as int) =~= bytes@);
    copy
}

} // verus!
