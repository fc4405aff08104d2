//! The path sandbox: lexical normalization of a mod's paths and the rule that
//! keeps them inside the mod's own directory.
//!
//! A path is normalized without looking at the file system, then split into
//! its parts. A normalized path is turned down where its first part is a
//! parent-directory marker, and where it is a root or a prefix: resolved
//! against the mod's directory, such a path would take the directory's place.
//! That a look at the first part is enough rests on the normalization: in a
//! normalized relative path the parent-directory markers all stand at the
//! front, so a path that does not begin with one holds none.

use vstd::prelude::*;
use crate::error::BridgeError;

verus! {

/// The kind of one part of a path, in the order in which the parts occur.
#[derive(Clone, Copy, Debug, PartialEq, Eq, Structural)]
pub enum Part {
    /// A volume or share in front of the path (`C:`); only some systems have it.
    Prefix,
    /// The root directory, the separator at the front of a rooted path.
    RootDir,
    /// The current directory, `.`.
    CurDir,
    /// The parent directory, `..`.
    ParentDir,
    /// A name.
    Normal,
}

/// The lexical normalization of `path`, as `clean_path::clean` computes it.
pub uninterp spec fn cleaned(path: Seq<char>) -> Seq<char>;

/// The kinds of the parts of `path`, as `std::path::Path::components` yields them.
pub uninterp spec fn parts(path: Seq<char>) -> Seq<Part>;

/// `rel` resolved against `base`, as `std::path::Path::join` computes it.
pub uninterp spec fn joined(base: Seq<char>, rel: Seq<char>) -> Seq<char>;

/// The path begins with a parent-directory marker.
pub open spec fn leads_outward(ps: Seq<Part>) -> bool {
    ps.len() > 0 && ps[0] == Part::ParentDir
}

/// The path has neither a prefix nor a root in front: it is meant to be
/// resolved against a directory.
pub open spec fn is_relative(ps: Seq<Part>) -> bool {
    ps.len() == 0 || (ps[0] != Part::Prefix && ps[0] != Part::RootDir)
}

/// Every parent-directory marker is preceded by parent-directory markers only.
pub open spec fn parents_lead(ps: Seq<Part>) -> bool {
    forall|i: int, j: int|
        0 <= i < j < ps.len() && ps[j] == Part::ParentDir ==> ps[i] == Part::ParentDir
}

/// What normalization leaves behind: in a relative path the parent-directory
/// markers stand at the front.
pub open spec fn collapsed(ps: Seq<Part>) -> bool {
    is_relative(ps) ==> parents_lead(ps)
}

/// The rule of the sandbox: the path begins with a parent-directory marker,
/// a root or a prefix.
pub open spec fn turned_down(ps: Seq<Part>) -> bool {
    leads_outward(ps) || !is_relative(ps)
}

/// The sandbox turns `path` down: its normalization leaves the directory
/// against which it would be resolved, or takes that directory's place.
pub open spec fn escapes(path: Seq<char>) -> bool {
    turned_down(parts(cleaned(path)))
}

/// The path is relative and holds no parent-directory marker.
pub open spec fn confined(ps: Seq<Part>) -> bool {
    is_relative(ps) && forall|i: int| 0 <= i < ps.len() ==> ps[i] != Part::ParentDir
}

/// How many directories below the starting directory one is after walking
/// `ps`; negative above it.
pub open spec fn depth(ps: Seq<Part>) -> int
    decreases ps.len(),
{
    if ps.len() == 0 {
        0
    } else {
        depth(ps.drop_last()) + match ps.last() {
            Part::Normal => 1int,
            Part::ParentDir => -1int,
            _ => 0int,
        }
    }
}

/// Walking the parts one after the other never climbs above the directory
/// in which the walk began.
pub open spec fn stays_within(ps: Seq<Part>) -> bool {
    forall|n: int| 0 <= n <= ps.len() ==> depth(#[trigger] ps.take(n)) >= 0
}

/// Trusted: calls `clean_path::clean`. The result is named `cleaned`. Beyond
/// the name the contract claims one thing, which the crate documents of every
/// result: a `..` element is removed together with the name before it, and is
/// left intact only where it begins a non-rooted path. So in a result without
/// prefix and root no `..` follows a part of another kind.
#[verifier::external_body]
fn clean(path: &str) -> (out: String)
    ensures
        out@ == cleaned(path@),
        collapsed(parts(out@)),
{
    clean_path::clean(path).to_string_lossy().into_owned()
}

/// Trusted: calls `std::path::Path::components` and keeps the kind of each
/// component. The result is named `parts`; nothing else is claimed of it.
#[verifier::external_body]
fn part_kinds(path: &str) -> (kinds: Vec<Part>)
    ensures
        kinds@ == parts(path@),
{
    std::path::Path::new(path)
        .components()
        .map(|c| match c {
            std::path::Component::Prefix(_) => Part::Prefix,
            std::path::Component::RootDir => Part::RootDir,
            std::path::Component::CurDir => Part::CurDir,
            std::path::Component::ParentDir => Part::ParentDir,
            std::path::Component::Normal(_) => Part::Normal,
        })
        .collect()
}

/// Trusted: calls `std::path::Path::join`. The result is named `joined`;
/// nothing else is claimed of it.
#[verifier::external_body]
pub(crate) fn join(base: &str, rel: &str) -> (out: String)
    ensures
        out@ == joined(base@, rel@),
{
    std::path::Path::new(base).join(rel).to_string_lossy().into_owned()
}

/// A normalized path that the sandbox has let through.
#[derive(Debug)]
pub struct SandboxedPath {
    text: String,
}

impl SandboxedPath {
    /// The normalized path as text.
    pub closed spec fn view(&self) -> Seq<char> {
        self.text@
    }

    #[verifier::type_invariant]
    spec fn admitted(&self) -> bool {
        !turned_down(parts(self.text@)) && collapsed(parts(self.text@))
    }

    /// The normalized path as text. Every value of this type is relative and
    /// holds no parent-directory marker, so that resolving it never leaves
    /// the directory against which it is resolved.
    pub fn as_str(&self) -> (s: &str)
        ensures
            s@ == self@,
            is_relative(parts(self@)),
            confined(parts(self@)),
            stays_within(parts(self@)),
    {
        proof {
            use_type_invariant(self);
            lemma_admitted_path_stays_within(parts(self.text@));
        }
        self.text.as_str()
    }
}

/// The sandbox rule on the parts of a normalized path: it is turned down if
/// and only if its first part is a parent-directory marker, a root or a
/// prefix.
pub fn check_parts(kinds: &Vec<Part>) -> (r: Result<(), BridgeError>)
    ensures
        r is Err <==> turned_down(kinds@),
        r matches Err(e) ==> e is SandboxViolation,
{
    if kinds.len() == 0 {
        return Ok(());
    }
    let first = kinds[0];
    if first == Part::ParentDir || first == Part::RootDir || first == Part::Prefix {
        Err(BridgeError::SandboxViolation)
    } else {
        Ok(())
    }
}

/// Normalizes `path` and applies the sandbox rule to it.
///
/// The path is turned down exactly when its normalization begins with a
/// parent-directory marker, a root or a prefix. Otherwise the normalization
/// is handed out: a relative path without parent-directory markers, which
/// stays within the directory against which it is resolved.
pub fn sandbox(path: &str) -> (r: Result<SandboxedPath, BridgeError>)
    ensures
        r is Err <==> escapes(path@),
        r matches Err(e) ==> e is SandboxViolation,
        r matches Ok(p) ==> {
            &&& p@ == cleaned(path@)
            &&& confined(parts(p@))
            &&& stays_within(parts(p@))
        },
{
    let text = clean(path);
    let kinds = part_kinds(text.as_str());
    match check_parts(&kinds) {
        Err(e) => Err(e),
        Ok(()) => {
            proof {
                lemma_admitted_path_stays_within(kinds@);
            }
            Ok(SandboxedPath { text })
        },
    }
}

/// A path without parent-directory markers never climbs.
proof fn lemma_depth_without_parents(ps: Seq<Part>)
    requires
        forall|i: int| 0 <= i < ps.len() ==> ps[i] != Part::ParentDir,
    ensures
        depth(ps) >= 0,
    decreases ps.len(),
{
    if ps.len() > 0 {
        lemma_depth_without_parents(ps.drop_last());
    }
}

/// Containment: a relative path that is collapsed and does not begin with a
/// parent-directory marker holds no such marker at all, so resolving it part
/// by part never leaves the directory against which it is resolved.
pub proof fn lemma_admitted_path_stays_within(ps: Seq<Part>)
    requires
        is_relative(ps),
        collapsed(ps),
        !leads_outward(ps),
    ensures
        confined(ps),
        stays_within(ps),
{
    assert forall|i: int| 0 <= i < ps.len() implies ps[i] != Part::ParentDir by {
        if ps[i] == Part::ParentDir && i > 0 {
            assert(ps[0] == Part::ParentDir);
        }
    }
    assert forall|n: int| 0 <= n <= ps.len() implies depth(#[trigger] ps.take(n)) >= 0 by {
        lemma_depth_without_parents(ps.take(n));
    }
}

/// A path that begins with a parent-directory marker is above the starting
/// directory after its first step: what the sandbox turns down does leave.
pub proof fn lemma_outward_path_leaves(ps: Seq<Part>)
    requires
        leads_outward(ps),
    ensures
        !stays_within(ps),
{
    let first = ps.take(1);
    assert(first.drop_last() =~= Seq::<Part>::empty());
    assert(first.last() == Part::ParentDir);
    assert(depth(first.drop_last()) == 0);
    assert(depth(first) == -1);
}

} // verus!
