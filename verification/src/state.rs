//! The per-mod record: the trust flag and the native modules that the mod has
//! loaded. Privileged operations pass through `check_trust` first.
//!
//! The handle of a loaded module is opaque here; the record keeps it alive and
//! hands it back by the path under which it was loaded. Loading one path twice
//! is recorded twice.

use vstd::prelude::*;
use vstd::string::*;
use crate::error::BridgeError;
use crate::keyed::latest;
use crate::path::SandboxedPath;

verus! {

/// One native module in a mod's record.
#[derive(Debug)]
struct LoadedModule<H> {
    path: String,
    handle: H,
}

/// The state of one mod for the length of its session.
///
/// The trust flag is fixed when the state is made. A mod that is not trusted
/// never holds a loaded module.
#[derive(Debug)]
pub struct ModState<H> {
    trusted: bool,
    dlls: Vec<LoadedModule<H>>,
}

impl<H> ModState<H> {
    /// The trust flag.
    pub closed spec fn trusted(&self) -> bool {
        self.trusted
    }

    /// The loaded modules in the order of loading, each with the normalized
    /// path under which it was loaded.
    pub closed spec fn modules(&self) -> Seq<(Seq<char>, H)> {
        self.dlls@.map_values(|m: LoadedModule<H>| (m.path@, m.handle))
    }

    #[verifier::type_invariant]
    spec fn untrusted_holds_nothing(&self) -> bool {
        self.trusted || self.dlls@.len() == 0
    }

    /// The state of a mod at the start of its session: nothing is loaded.
    pub fn new(trusted: bool) -> (state: Self)
        ensures
            state.trusted() == trusted,
            state.modules() == Seq::<(Seq<char>, H)>::empty(),
    {
        let state = ModState { trusted, dlls: Vec::new() };
        assert(state.modules() =~= Seq::<(Seq<char>, H)>::empty());
        state
    }

    /// Reads the trust flag. A mod that is not trusted holds no module.
    pub fn is_trusted(&self) -> (t: bool)
        ensures
            t == self.trusted(),
            !t ==> self.modules().len() == 0,
    {
        proof {
            use_type_invariant(self);
        }
        self.trusted
    }

    /// How many modules the mod has loaded.
    pub fn dll_count(&self) -> (n: usize)
        ensures
            n == self.modules().len(),
    {
        self.dlls.len()
    }

    /// The module most recently loaded under the normalized path `path`.
    pub fn dll(&self, path: &str) -> (found: Option<&H>)
        ensures
            match found {
                Some(h) => latest(self.modules(), path@) == Some(*h),
                None => latest(self.modules(), path@) is None,
            },
    {
        let key = String::from_str(path);
        let ghost all = self.modules();
        let mut i: usize = self.dlls.len();
        assert(all.take(i as int) =~= all);
        while i > 0
            invariant
                i <= self.dlls.len(),
                all == self.modules(),
                key@ == path@,
                latest(all, path@) == latest(all.take(i as int), path@),
            decreases i,
        {
            i = i - 1;
            assert(all.take(i + 1).drop_last() =~= all.take(i as int));
            assert(all.take(i + 1).last() == all[i as int]);
            if self.dlls[i].path == key {
                return Some(&self.dlls[i].handle);
            }
        }
        None
    }

    /// Records `dll` as loaded under `path`. Only a trusted mod records
    /// modules.
    pub(crate) fn add_dll(&mut self, path: &SandboxedPath, dll: H)
        requires
            old(self).trusted(),
        ensures
            final(self).trusted(),
            final(self).modules() == old(self).modules().push((path@, dll)),
    {
        proof {
            use_type_invariant(&*self);
        }
        let entry = LoadedModule { path: String::from_str(path.as_str()), handle: dll };
        let mut dlls: Vec<LoadedModule<H>> = Vec::new();
        std::mem::swap(&mut self.dlls, &mut dlls);
        dlls.push(entry);
        std::mem::swap(&mut self.dlls, &mut dlls);
        assert(self.modules() =~= old(self).modules().push((path@, dll)));
    }
}

/// The trust gate: passes exactly the mods whose trust flag is set, and
/// changes nothing.
pub fn check_trust<H>(state: &ModState<H>) -> (r: Result<(), BridgeError>)
    ensures
        r is Ok <==> state.trusted(),
        r matches Err(e) ==> e is TrustError,
{
    if state.is_trusted() {
        Ok(())
    } else {
        Err(BridgeError::TrustError)
    }
}

} // verus!
