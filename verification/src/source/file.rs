use crate::error::FmtError;
use crate::text::chars_of;
use vstd::prelude::*;
use vstd::string::*;

verus! {

/// Whether the two characters at `at` form a parent-directory segment of
/// `key`: a `..` that is bounded on each side by a `/` or by an end of the
/// key.
pub open spec fn is_parent_segment_at(key: Seq<char>, at: int) -> bool {
    &&& 0 <= at
    &&& at + 2 <= key.len()
    &&& key[at] == '.'
    &&& key[at + 1] == '.'
    &&& (at == 0 || key[at - 1] == '/')
    &&& (at + 2 == key.len() || key[at + 2] == '/')
}

/// Whether some `/`-separated segment of `key` is the parent-directory token.
pub open spec fn has_parent_segment(key: Seq<char>) -> bool {
    exists|at: int| is_parent_segment_at(key, at)
}

/// The path that `key` names under `root`, before any link is resolved: an
/// absolute key stands for itself, and any other key is appended to the
/// root, after a `/` where the root does not end in one.
pub open spec fn joined(root: Seq<char>, key: Seq<char>) -> Seq<char> {
    if key.len() > 0 && key[0] == '/' {
        key
    } else if root.len() == 0 || root.last() == '/' {
        root + key
    } else {
        root + seq!['/'] + key
    }
}

/// A canonical path: absolute, with every symbolic link resolved, held as
/// its segments from the top of the file system down.
#[derive(Debug)]
pub struct CanonicalPath {
    pub segments: Vec<String>,
}

impl View for CanonicalPath {
    type V = Seq<Seq<char>>;

    open spec fn view(&self) -> Seq<Seq<char>> {
        self.segments@.map_values(|segment: String| segment@)
    }
}

impl CanonicalPath {
    /// Whether `self` is `root` or lies below it: `root`'s segments open
    /// `self`'s. This compares whole segments, so `/root2` is not below
    /// `/root`.
    pub fn starts_with(&self, root: &CanonicalPath) -> (within: bool)
        ensures
            within == root@.is_prefix_of(self@),
    {
        if root.segments.len() > self.segments.len() {
            return false;
        }
        let mut i: usize = 0;
        while i < root.segments.len()
            invariant
                i <= root.segments.len() <= self.segments.len(),
                forall|j: int| 0 <= j < i ==> root@[j] == self@[j],
            decreases root.segments.len() - i,
        {
            if root.segments[i] != self.segments[i] {
                assert(root@[i as int] != self@[i as int]);
                return false;
            }
            i = i + 1;
        }
        assert(root@ =~= self@.subrange(0, root@.len() as int));
        true
    }
}

/// Where the resolution of a key stands: what the file system has to be
/// asked next, or how it ended.
#[derive(Debug)]
pub enum Resolve {
    /// Canonicalize the root directory, [`FileSource::root`], and report
    /// with [`FileSource::root_resolved`].
    NeedRoot,
    /// Canonicalize the path of the key under the root,
    /// [`FileSource::target_path`], and report with
    /// [`FileSource::target_resolved`]. `root` is the canonical root.
    NeedTarget { root: CanonicalPath },
    /// Resolution is over, with the canonical path to read or the reason why
    /// there is none.
    Done(Result<CanonicalPath, FmtError>),
}

/// Whether an I/O error says that the entity it was asked for was not found:
/// whether its `kind()` is `ErrorKind::NotFound`.
pub uninterp spec fn says_not_found(e: std::io::Error) -> bool;

/// `std::io::Error::kind`, asked whether the error says that the entity was
/// not found. The kind is a function of the error alone; the answer is what
/// [`says_not_found`] names.
#[verifier::external_body]
fn is_not_found(e: &std::io::Error) -> (missing: bool)
    ensures
        missing == says_not_found(*e),
{
    matches!(e.kind(), std::io::ErrorKind::NotFound)
}

/// A source that reads files below a root directory and nowhere else.
///
/// This type holds the rules; it never touches the file system. A key is
/// resolved in steps: [`FileSource::resolve_secure`] opens with a syntactic
/// check, and each [`Resolve`] that is not `Done` names the one question to
/// put to the file system before the next step.
#[derive(Debug)]
pub struct FileSource {
    root: String,
}

impl FileSource {
    /// The root directory as it was given.
    pub closed spec fn root_text(&self) -> Seq<char> {
        self.root@
    }

    /// A source rooted at `root`.
    pub fn new(root: &str) -> (source: Self)
        ensures
            source.root_text() == root@,
    {
        FileSource { root: root.to_owned() }
    }

    /// The root directory as it was given.
    pub fn root(&self) -> (root: &str)
        ensures
            root@ == self.root_text(),
    {
        self.root.as_str()
    }

    /// The path to canonicalize for `key`: the key under the root.
    pub fn target_path(&self, key: &str) -> (path: String)
        ensures
            path@ == joined(self.root_text(), key@),
    {
        proof {
            reveal_strlit("/");
        }
        assert("/"@ =~= seq!['/']);
        let root = self.root.as_str();
        let length: usize = root.unicode_len();
        if key.unicode_len() > 0 && key.get_char(0) == '/' {
            key.to_owned()
        } else if length == 0 || root.get_char(length - 1) == '/' {
            String::from_str(root).concat(key)
        } else {
            String::from_str(root).concat("/").concat(key)
        }
    }

    /// Whether some segment of `key` is `..`.
    pub fn escapes(key: &str) -> (found: bool)
        ensures
            found == has_parent_segment(key@),
    {
        let chars = chars_of(key);
        let n: usize = chars.len();
        if n < 2 {
            return false;
        }
        let mut at: usize = 0;
        while at <= n - 2
            invariant
                2 <= n == chars.len(),
                chars@ == key@,
                at <= n - 1,
                forall|k: int| 0 <= k < at ==> !is_parent_segment_at(key@, k),
            decreases n - at,
        {
            if chars[at] == '.' && chars[at + 1] == '.' && (at == 0 || chars[at - 1] == '/') && (at
                + 2 == n || chars[at + 2] == '/') {
                assert(is_parent_segment_at(key@, at as int));
                return true;
            }
            at = at + 1;
        }
        false
    }

    /// The step that opens the resolution of `key`.
    pub open spec fn opening_step(key: Seq<char>) -> Resolve {
        if has_parent_segment(key) {
            Resolve::Done(Err(FmtError::SandboxViolation))
        } else {
            Resolve::NeedRoot
        }
    }

    /// The step after `step`, once the root directory has been
    /// canonicalized with the result `canonical`.
    pub open spec fn after_root(
        step: Resolve,
        canonical: Result<CanonicalPath, std::io::Error>,
    ) -> Resolve {
        match step {
            Resolve::NeedRoot => match canonical {
                Ok(root) => Resolve::NeedTarget { root },
                Err(e) => Resolve::Done(Err(FmtError::Io(e))),
            },
            _ => step,
        }
    }

    /// What a failed look at the file system means: the entity is absent
    /// where the error says that it was not found, and else the store
    /// malfunctioned.
    pub open spec fn failure(e: std::io::Error) -> FmtError {
        if says_not_found(e) {
            FmtError::NotFound
        } else {
            FmtError::Io(e)
        }
    }

    /// The step after `step`, once the root joined with the key has been
    /// canonicalized with the result `canonical`.
    pub open spec fn after_target(
        step: Resolve,
        canonical: Result<CanonicalPath, std::io::Error>,
    ) -> Resolve {
        match step {
            Resolve::NeedTarget { root } => match canonical {
                Ok(target) => {
                    if root@.is_prefix_of(target@) {
                        Resolve::Done(Ok(target))
                    } else {
                        Resolve::Done(Err(FmtError::SandboxViolation))
                    }
                },
                Err(e) => Resolve::Done(Err(Self::failure(e))),
            },
            _ => step,
        }
    }

    /// Opens the resolution of `key`. A key with a `..` segment is refused
    /// at once, before the file system is asked anything.
    pub fn resolve_secure(&self, key: &str) -> (step: Resolve)
        ensures
            step == Self::opening_step(key@),
    {
        if Self::escapes(key) {
            Resolve::Done(Err(FmtError::SandboxViolation))
        } else {
            Resolve::NeedRoot
        }
    }

    /// Takes the canonical form of the root directory. A root that cannot
    /// be canonicalized is an I/O error. Outside `NeedRoot` nothing changes.
    pub fn root_resolved(step: Resolve, canonical: Result<CanonicalPath, std::io::Error>) -> (next:
        Resolve)
        ensures
            next == Self::after_root(step, canonical),
    {
        match step {
            Resolve::NeedRoot => match canonical {
                Ok(root) => Resolve::NeedTarget { root },
                Err(e) => Resolve::Done(Err(FmtError::Io(e))),
            },
            other => other,
        }
    }

    /// What a failed look at the file system is reported as: the entity is
    /// absent where `missing` says that it was not found, and the failure is
    /// an I/O error otherwise.
    pub fn lookup_failure(e: std::io::Error, missing: bool) -> (refusal: FmtError)
        ensures
            missing ==> refusal is NotFound,
            !missing ==> refusal == FmtError::Io(e),
    {
        if missing {
            FmtError::NotFound
        } else {
            FmtError::Io(e)
        }
    }

    /// Takes the canonical form of the root joined with the key. A target
    /// outside the canonical root is a sandbox violation, however it got
    /// there; a target that is not there is not found. Outside `NeedTarget`
    /// nothing changes.
    pub fn target_resolved(step: Resolve, canonical: Result<CanonicalPath, std::io::Error>) -> (next:
        Resolve)
        ensures
            next == Self::after_target(step, canonical),
    {
        match step {
            Resolve::NeedTarget { root } => match canonical {
                Ok(target) => {
                    if target.starts_with(&root) {
                        Resolve::Done(Ok(target))
                    } else {
                        Resolve::Done(Err(FmtError::SandboxViolation))
                    }
                },
                Err(e) => {
                    let missing = is_not_found(&e);
                    Resolve::Done(Err(Self::lookup_failure(e, missing)))
                },
            },
            other => other,
        }
    }

    /// How the resolution of `key` ends when the file system answers `root`
    /// for the root directory and `target` for the root joined with the
    /// key: the three steps, one after the other.
    pub open spec fn resolution(
        key: Seq<char>,
        root: Result<CanonicalPath, std::io::Error>,
        target: Result<CanonicalPath, std::io::Error>,
    ) -> Resolve {
        Self::after_target(Self::after_root(Self::opening_step(key), root), target)
    }

    /// What an existence check answers for a key whose resolution ended in
    /// `resolved`: yes only for a key that resolved. Every refusal, a
    /// sandbox violation too, is a plain no.
    pub open spec fn exists_answer(resolved: Result<CanonicalPath, FmtError>) -> bool {
        resolved is Ok
    }

    /// What a read answers once the key has resolved and reading the file
    /// gave `bytes`: the bytes; or `NotFound` for a file that is no longer
    /// there, however short the time since it resolved; or the failure as an
    /// I/O error.
    pub open spec fn read_resolved(bytes: Result<Vec<u8>, std::io::Error>) -> Result<
        Vec<u8>,
        FmtError,
    > {
        match bytes {
            Ok(b) => Ok(b),
            Err(e) => Err(Self::failure(e)),
        }
    }

    /// What a read answers for a key whose resolution ended in `resolved`,
    /// where reading the resolved file gave `bytes`: the refusal of the
    /// resolution, or what the read of the resolved file answers.
    pub open spec fn read_answer(
        resolved: Result<CanonicalPath, FmtError>,
        bytes: Result<Vec<u8>, std::io::Error>,
    ) -> Result<Vec<u8>, FmtError> {
        match resolved {
            Err(refusal) => Err(refusal),
            Ok(_) => Self::read_resolved(bytes),
        }
    }

    /// Answers an existence check from how the resolution of the key ended.
    pub fn exists_outcome(resolved: &Result<CanonicalPath, FmtError>) -> (present: bool)
        ensures
            present == Self::exists_answer(*resolved),
    {
        resolved.is_ok()
    }

    /// Answers a read from what reading the resolved file gave. A file that
    /// vanished after it resolved is absent, not an I/O malfunction.
    pub fn read_outcome(bytes: Result<Vec<u8>, std::io::Error>) -> (answer: Result<
        Vec<u8>,
        FmtError,
    >)
        ensures
            answer == Self::read_resolved(bytes),
    {
        match bytes {
            Ok(b) => Ok(b),
            Err(e) => {
                let missing = is_not_found(&e);
                Err(Self::lookup_failure(e, missing))
            },
        }
    }
}

/// Three steps end every resolution.
pub proof fn lemma_resolution_ends(
    key: Seq<char>,
    root: Result<CanonicalPath, std::io::Error>,
    target: Result<CanonicalPath, std::io::Error>,
)
    ensures
        FileSource::resolution(key, root, target) is Done,
{
}

/// A key with a parent-directory segment is refused by the opening step
/// itself: the resolution is over before the file system has been asked to
/// canonicalize anything, and whatever the file system would have answered
/// changes nothing. A read reports the violation; an existence check says
/// no.
pub proof fn lemma_parent_segment_is_refused_first(
    key: Seq<char>,
    root: Result<CanonicalPath, std::io::Error>,
    target: Result<CanonicalPath, std::io::Error>,
    bytes: Result<Vec<u8>, std::io::Error>,
)
    requires
        has_parent_segment(key),
    ensures
        FileSource::opening_step(key) == Resolve::Done(Err(FmtError::SandboxViolation)),
        FileSource::resolution(key, root, target) == FileSource::opening_step(key),
        !FileSource::exists_answer(FileSource::opening_step(key)->Done_0),
        FileSource::read_answer(FileSource::opening_step(key)->Done_0, bytes) == Err::<
            Vec<u8>,
            FmtError,
        >(FmtError::SandboxViolation),
{
}

/// A target whose canonical form lies outside the canonical root is a
/// sandbox violation, with or without a `..` in the key: it never resolves.
pub proof fn lemma_outside_root_is_refused(
    key: Seq<char>,
    root: CanonicalPath,
    target: CanonicalPath,
)
    requires
        !root@.is_prefix_of(target@),
    ensures
        FileSource::resolution(key, Ok(root), Ok(target)) == Resolve::Done(
            Err(FmtError::SandboxViolation),
        ),
{
}

/// The sandbox holds: a key resolves only to the canonical form of its
/// target, and only where that lies at or below the canonical root.
pub proof fn lemma_resolved_path_is_below_root(
    key: Seq<char>,
    root: Result<CanonicalPath, std::io::Error>,
    target: Result<CanonicalPath, std::io::Error>,
)
    requires
        FileSource::resolution(key, root, target) matches Resolve::Done(Ok(_)),
    ensures
        !has_parent_segment(key),
        root is Ok,
        target is Ok,
        root->Ok_0@.is_prefix_of(target->Ok_0@),
        FileSource::resolution(key, root, target) == Resolve::Done(Ok(target->Ok_0)),
{
}

/// Existence and reading agree where nothing races: a key that an existence
/// check reports, and whose file is still there when it is read, is a key
/// whose read succeeds or fails with something other than `NotFound`.
pub proof fn lemma_resolved_key_is_never_missing(
    resolved: Result<CanonicalPath, FmtError>,
    bytes: Result<Vec<u8>, std::io::Error>,
)
    requires
        FileSource::exists_answer(resolved),
        bytes matches Err(e) ==> !says_not_found(e),
    ensures
        !(FileSource::read_answer(resolved, bytes) matches Err(FmtError::NotFound)),
{
}

/// A file that vanishes between the existence check and the read is not
/// found: the read of a key that resolved reports `NotFound` for it, and no
/// I/O error.
pub proof fn lemma_vanished_file_is_not_found(
    resolved: Result<CanonicalPath, FmtError>,
    e: std::io::Error,
)
    requires
        FileSource::exists_answer(resolved),
        says_not_found(e),
    ensures
        FileSource::read_answer(resolved, Err(e)) == Err::<Vec<u8>, FmtError>(FmtError::NotFound),
{
}

} // verus!
