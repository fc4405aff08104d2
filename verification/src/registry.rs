//! The overlay registry: the overlays of the process, each under the name of
//! its archive.
//!
//! The registry is shared by all mods. An archive is found by its exact name;
//! that a name is not there is an ordinary answer.

use vstd::prelude::*;
use crate::keyed::KeyedList;
use crate::overlay::Overlay;

verus! {

/// The overlays of the process by archive name.
#[derive(Debug)]
pub struct OverlayRegistry {
    archives: KeyedList<Overlay>,
}

impl OverlayRegistry {
    /// The registry as a map from archive name to the contents of its overlay.
    pub closed spec fn view(&self) -> Map<Seq<char>, Map<Seq<char>, Seq<u8>>> {
        self.archives@.map_values(|overlay: Overlay| overlay@)
    }

    /// A registry without archives.
    pub fn new() -> (registry: Self)
        ensures
            registry@ == Map::<Seq<char>, Map<Seq<char>, Seq<u8>>>::empty(),
    {
        let registry = OverlayRegistry { archives: KeyedList::new() };
        assert(registry@ =~= Map::<Seq<char>, Map<Seq<char>, Seq<u8>>>::empty());
        registry
    }

    /// Enters `overlay` under `archive`, in place of what stood there.
    ///
    /// An overlay that takes the place of another is always entered. For a
    /// new name the registry has to grow; where no memory can be had for
    /// that, it stays as it was and the overlay is handed back.
    pub fn insert(&mut self, archive: &str, overlay: Overlay) -> (r: Result<(), Overlay>)
        ensures
            match r {
                Ok(()) => final(self)@ == old(self)@.insert(archive@, overlay@),
                Err(back) => {
                    &&& back == overlay
                    &&& final(self)@ == old(self)@
                    &&& !old(self)@.contains_key(archive@)
                },
            },
    {
        match self.archives.insert(archive, overlay) {
            Ok(()) => {
                assert(self@ =~= old(self)@.insert(archive@, overlay@));
                Ok(())
            },
            Err(back) => Err(back),
        }
    }

    /// Whether an overlay stands under exactly the name `archive`.
    pub fn contains(&self, archive: &str) -> (found: bool)
        ensures
            found == self@.contains_key(archive@),
    {
        self.archives.contains(archive)
    }

    /// The overlay under exactly the name `archive`.
    pub fn get(&self, archive: &str) -> (found: Option<&Overlay>)
        ensures
            match found {
                Some(overlay) => self@.contains_key(archive@) && overlay@ == self@[archive@],
                None => !self@.contains_key(archive@),
            },
    {
        self.archives.get(archive)
    }

    /// The overlay under exactly the name `archive`, to be written to. What
    /// is done to it is done to the registry's entry, and to no other.
    pub fn get_mut(&mut self, archive: &str) -> (found: Option<&mut Overlay>)
        ensures
            match found {
                Some(overlay) => {
                    &&& old(self)@.contains_key(archive@)
                    &&& overlay@ == old(self)@[archive@]
                    &&& final(self)@ == old(self)@.insert(archive@, final(overlay)@)
                },
                None => !old(self)@.contains_key(archive@) && final(self)@ == old(self)@,
            },
    {
        proof {
            let before = self.archives@;
            assert forall|overlay: Overlay| (#[trigger] before.insert(archive@, overlay)).map_values(
                |o: Overlay| o@,
            ) == self@.insert(archive@, overlay@) by {
                assert(before.insert(archive@, overlay).map_values(|o: Overlay| o@) =~= self@.insert(
                    archive@,
                    overlay@,
                ));
            }
        }
        self.archives.get_mut(archive)
    }
}

} // verus!
