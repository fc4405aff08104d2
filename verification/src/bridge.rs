//! The capability bridge: the four operations that a mod's script can reach.
//!
//! Each operation is decided on the stores that the caller holds for the
//! length of the call: the mod's own state and the overlay registry. Two of
//! them need outside work. For these the bridge first decides whether the work
//! may be done and on what, and records or passes on the outcome afterwards;
//! where it turns a request down, no work is handed out.

use vstd::prelude::*;
use crate::error::BridgeError;
use crate::keyed::{latest, lemma_latest_after_push};
use crate::overlay::{missing_entry_text, no_room_text};
use crate::path::{
    cleaned, confined, escapes, join, joined, parts, sandbox, stays_within, SandboxedPath,
};
use crate::registry::OverlayRegistry;
use crate::state::{check_trust, ModState};

verus! {

/// The bridge of one mod. Its paths are resolved against the mod's own
/// directory, `mods/<name>` below the working directory of the host.
#[derive(Debug)]
pub struct Bridge {
    root: String,
}

/// Leave to map one native image: handed out by [`Bridge::load_mod_dll`] to a
/// trusted mod for a path inside its directory, and by nothing else.
#[derive(Debug)]
pub struct LoadRequest {
    key: SandboxedPath,
    real_path: String,
}

/// Makes the bridge of the mod named `mod_name`.
pub fn new(mod_name: &str) -> (bridge: Bridge)
    ensures
        bridge.root() == joined("mods"@, mod_name@),
{
    Bridge { root: join("mods", mod_name) }
}

/// The registry after `contents` was written at `internal_path` of `archive`.
pub open spec fn written(
    registry: Map<Seq<char>, Map<Seq<char>, Seq<u8>>>,
    archive: Seq<char>,
    internal_path: Seq<char>,
    contents: Seq<u8>,
) -> Map<Seq<char>, Map<Seq<char>, Seq<u8>>> {
    registry.insert(archive, registry[archive].insert(internal_path, contents))
}

impl LoadRequest {
    /// The normalized path under which the module will be recorded.
    pub closed spec fn key(&self) -> Seq<char> {
        self.key@
    }

    /// The location of the image: the normalized path resolved against the
    /// mod's directory.
    pub closed spec fn target(&self) -> Seq<char> {
        self.real_path@
    }

    /// The location of the image to map.
    pub fn real_path(&self) -> (s: &str)
        ensures
            s@ == self.target(),
    {
        self.real_path.as_str()
    }

    /// The normalized path under which the module will be recorded.
    pub fn sandboxed_path(&self) -> (s: &str)
        ensures
            s@ == self.key(),
    {
        self.key.as_str()
    }

    /// Takes the outcome of the native loader and records the module.
    ///
    /// With a handle, the module is recorded in the state of a trusted mod
    /// under the request's path, after those recorded before, and is what is
    /// found under that path from then on. Without one the load has failed.
    /// Whenever this fails, nothing is recorded.
    pub fn complete<H>(self, state: &mut ModState<H>, loaded: Option<H>) -> (r: Result<
        (),
        BridgeError,
    >)
        ensures
            final(state).trusted() == old(state).trusted(),
            match r {
                Ok(()) => {
                    &&& old(state).trusted()
                    &&& loaded is Some
                    &&& final(state).modules() == old(state).modules().push(
                        (self.key(), loaded->0),
                    )
                    &&& latest(final(state).modules(), self.key()) == loaded
                },
                Err(e) => {
                    &&& final(state).modules() == old(state).modules()
                    &&& if !old(state).trusted() {
                        e is TrustError
                    } else {
                        loaded is None && e is NativeLoadError
                    }
                },
            },
    {
        match check_trust(state) {
            Err(e) => Err(e),
            Ok(()) => match loaded {
                None => Err(BridgeError::NativeLoadError),
                Some(dll) => {
                    proof {
                        lemma_latest_after_push(state.modules(), self.key(), dll, self.key());
                    }
                    state.add_dll(&self.key, dll);
                    Ok(())
                },
            },
        }
    }
}

impl Bridge {
    /// The mod's own directory.
    pub closed spec fn root(&self) -> Seq<char> {
        self.root@
    }

    /// Where `path` lies once it is normalized and resolved against the mod's
    /// directory.
    pub open spec fn resolved(&self, path: Seq<char>) -> Seq<char> {
        joined(self.root(), cleaned(path))
    }

    /// The mod's own directory.
    pub fn root_dir(&self) -> (s: &str)
        ensures
            s@ == self.root(),
    {
        self.root.as_str()
    }

    /// Decides whether the mod may map the native image at `path`.
    ///
    /// A mod that is not trusted is turned down whatever the path; a trusted
    /// mod is turned down exactly when the path leaves its directory. What is
    /// handed out otherwise names the image to map, the mod's directory
    /// followed by a relative path without parent-directory markers, and the
    /// path to record it under; the outcome goes to [`LoadRequest::complete`].
    pub fn load_mod_dll<H>(&self, state: &ModState<H>, path: &str) -> (r: Result<
        LoadRequest,
        BridgeError,
    >)
        ensures
            match r {
                Ok(request) => {
                    &&& state.trusted()
                    &&& !escapes(path@)
                    &&& confined(parts(cleaned(path@)))
                    &&& stays_within(parts(cleaned(path@)))
                    &&& request.key() == cleaned(path@)
                    &&& request.target() == self.resolved(path@)
                },
                Err(e) => if !state.trusted() {
                    e is TrustError
                } else {
                    escapes(path@) && e is SandboxViolation
                },
            },
    {
        match check_trust(state) {
            Err(e) => Err(e),
            Ok(()) => match sandbox(path) {
                Err(e) => Err(e),
                Ok(key) => {
                    let real_path = join(self.root.as_str(), key.as_str());
                    Ok(LoadRequest { key, real_path })
                },
            },
        }
    }

    /// Decides whether the mod may read its file at `path`, and where that
    /// file lies.
    ///
    /// The path is turned down exactly when it leaves the mod's directory.
    /// The location handed out otherwise is the mod's directory followed by a
    /// relative path without parent-directory markers. What is read there
    /// goes to [`read_outcome`].
    pub fn read_mod_contents(&self, path: &str) -> (r: Result<String, BridgeError>)
        ensures
            match r {
                Ok(real_path) => {
                    &&& !escapes(path@)
                    &&& confined(parts(cleaned(path@)))
                    &&& stays_within(parts(cleaned(path@)))
                    &&& real_path@ == self.resolved(path@)
                },
                Err(e) => escapes(path@) && e is SandboxViolation,
            },
    {
        match sandbox(path) {
            Err(e) => Err(e),
            Ok(key) => Ok(join(self.root.as_str(), key.as_str())),
        }
    }

    /// Writes `contents` at `internal_path` of the archive named `archive`.
    ///
    /// Fails where the registry does not hold that archive. The internal path
    /// goes to the overlay as it is, and what the overlay makes of the write
    /// is passed on by [`dat_write_outcome`]: writing over an entry always
    /// succeeds, a new entry may find no room. One entry of one overlay
    /// changes; a failed write changes nothing.
    pub fn write_dat_contents(
        &self,
        registry: &mut OverlayRegistry,
        archive: &str,
        internal_path: &str,
        contents: Vec<u8>,
    ) -> (r: Result<(), BridgeError>)
        ensures
            match r {
                Ok(()) => {
                    &&& old(registry)@.contains_key(archive@)
                    &&& final(registry)@ == written(
                        old(registry)@,
                        archive@,
                        internal_path@,
                        contents@,
                    )
                },
                Err(BridgeError::OverlayNotFound { archive: named }) => {
                    &&& !old(registry)@.contains_key(archive@)
                    &&& named@ == archive@
                    &&& final(registry)@ == old(registry)@
                },
                Err(BridgeError::OverlayIoError { cause }) => {
                    &&& old(registry)@.contains_key(archive@)
                    &&& !old(registry)@[archive@].contains_key(internal_path@)
                    &&& cause@ == no_room_text(internal_path@)
                    &&& final(registry)@ == old(registry)@
                },
                Err(_) => false,
            },
    {
        let outcome = match registry.get_mut(archive) {
            Some(overlay) => overlay.write(internal_path, contents),
            None => {
                return Err(BridgeError::OverlayNotFound { archive: archive.to_owned() });
            },
        };
        assert(outcome is Err ==> registry@ =~= old(registry)@);
        dat_write_outcome(outcome)
    }

    /// Reads the entry at `internal_path` of the archive named `archive`.
    ///
    /// An archive that the registry does not hold is no failure: there is
    /// nothing to read, and `None` says so. In an archive that it holds, what
    /// the overlay makes of the read is passed on by [`dat_read_outcome`]: an
    /// entry is read as it was last written, and a missing entry is the
    /// overlay's failure.
    pub fn read_dat_contents(
        &self,
        registry: &OverlayRegistry,
        archive: &str,
        internal_path: &str,
    ) -> (r: Result<Option<Vec<u8>>, BridgeError>)
        ensures
            match r {
                Ok(None) => !registry@.contains_key(archive@),
                Ok(Some(bytes)) => {
                    &&& registry@.contains_key(archive@)
                    &&& registry@[archive@].contains_key(internal_path@)
                    &&& bytes@ == registry@[archive@][internal_path@]
                },
                Err(BridgeError::OverlayIoError { cause }) => {
                    &&& registry@.contains_key(archive@)
                    &&& !registry@[archive@].contains_key(internal_path@)
                    &&& cause@ == missing_entry_text(internal_path@)
                },
                Err(_) => false,
            },
    {
        match registry.get(archive) {
            None => Ok(None),
            Some(overlay) => dat_read_outcome(overlay.read(internal_path)),
        }
    }
}

/// Passes on what an overlay made of a write: success, or the overlay's own
/// account of the failure.
pub fn dat_write_outcome(outcome: Result<(), String>) -> (r: Result<(), BridgeError>)
    ensures
        match outcome {
            Ok(()) => r is Ok,
            Err(cause) => r == Err::<(), BridgeError>(BridgeError::OverlayIoError { cause }),
        },
{
    match outcome {
        Ok(()) => Ok(()),
        Err(cause) => Err(BridgeError::OverlayIoError { cause }),
    }
}

/// Passes on what an overlay made of a read: the bytes as the overlay gave
/// them, or the overlay's own account of the failure.
pub fn dat_read_outcome(outcome: Result<Vec<u8>, String>) -> (r: Result<
    Option<Vec<u8>>,
    BridgeError,
>)
    ensures
        match outcome {
            Ok(bytes) => r == Ok::<Option<Vec<u8>>, BridgeError>(Some(bytes)),
            Err(cause) => r == Err::<Option<Vec<u8>>, BridgeError>(
                BridgeError::OverlayIoError { cause },
            ),
        },
{
    match outcome {
        Ok(bytes) => Ok(Some(bytes)),
        Err(cause) => Err(BridgeError::OverlayIoError { cause }),
    }
}

/// Passes on what came of reading a mod's file: the bytes as they were read,
/// or the file system's own error.
pub fn read_outcome(outcome: Result<Vec<u8>, std::io::Error>) -> (r: Result<
    Vec<u8>,
    BridgeError,
>)
    ensures
        match outcome {
            Ok(bytes) => r == Ok::<Vec<u8>, BridgeError>(bytes),
            Err(error) => r == Err::<Vec<u8>, BridgeError>(BridgeError::FileIoError { error }),
        },
{
    match outcome {
        Ok(bytes) => Ok(bytes),
        Err(error) => Err(BridgeError::FileIoError { error }),
    }
}

/// Round trip: after a write to an archive that the registry holds, a read of
/// the same entry finds exactly the bytes written. Every other entry of that
/// archive and every other archive is as it was.
pub proof fn lemma_read_after_write(
    registry: Map<Seq<char>, Map<Seq<char>, Seq<u8>>>,
    archive: Seq<char>,
    internal_path: Seq<char>,
    contents: Seq<u8>,
)
    requires
        registry.contains_key(archive),
    ensures
        written(registry, archive, internal_path, contents).contains_key(archive),
        written(registry, archive, internal_path, contents)[archive].contains_key(internal_path),
        written(registry, archive, internal_path, contents)[archive][internal_path] == contents,
        forall|other: Seq<char>|
            other != internal_path ==> (#[trigger] written(
                registry,
                archive,
                internal_path,
                contents,
            )[archive].contains_key(other) <==> registry[archive].contains_key(other)),
        forall|other: Seq<char>|
            other != internal_path && registry[archive].contains_key(other) ==> #[trigger] written(
                registry,
                archive,
                internal_path,
                contents,
            )[archive][other] == registry[archive][other],
        written(registry, archive, internal_path, contents).remove(archive) == registry.remove(
            archive,
        ),
{
    assert(written(registry, archive, internal_path, contents).remove(archive) =~= registry.remove(
        archive,
    ));
}

/// Writes to two different archives do not disturb each other: in whichever
/// order they are served, the registry ends up the same, with both in it.
pub proof fn lemma_writes_to_distinct_archives_commute(
    registry: Map<Seq<char>, Map<Seq<char>, Seq<u8>>>,
    first: Seq<char>,
    first_path: Seq<char>,
    first_contents: Seq<u8>,
    second: Seq<char>,
    second_path: Seq<char>,
    second_contents: Seq<u8>,
)
    requires
        first != second,
    ensures
        written(
            written(registry, first, first_path, first_contents),
            second,
            second_path,
            second_contents,
        ) == written(
            written(registry, second, second_path, second_contents),
            first,
            first_path,
            first_contents,
        ),
        written(
            written(registry, first, first_path, first_contents),
            second,
            second_path,
            second_contents,
        )[first] == registry[first].insert(first_path, first_contents),
        written(
            written(registry, first, first_path, first_contents),
            second,
            second_path,
            second_contents,
        )[second] == registry[second].insert(second_path, second_contents),
{
    assert(written(
        written(registry, first, first_path, first_contents),
        second,
        second_path,
        second_contents,
    ) =~= written(
        written(registry, second, second_path, second_contents),
        first,
        first_path,
        first_contents,
    ));
}

} // verus!
