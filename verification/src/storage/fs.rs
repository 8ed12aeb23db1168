//! The filesystem storage backend.
//!
//! Pages are stored as plain files: a page named `faq/long-answer` with the
//! default configuration lives at `<root>/faq/long-answer.md`. This module
//! holds every decision the backend makes — how a name maps to a path, how a
//! walk entry's path maps back to a name, which entries a walk keeps, and
//! what each walk step yields. The directory walk and the file reads
//! themselves are I/O and live outside the library; they hand their outcomes
//! in as plain values. Paths are treated as text with `/` as the separator.

use vstd::prelude::*;
use vstd::string::*;

use crate::storage::{default_metadata_template, Error as StorageError, Metadata, Page};

verus! {

/// A fault of the filesystem backend.
#[derive(Debug, PartialEq)]
pub enum Error {
    /// The configured storage root does not exist.
    StorageDirNotFound,
    /// The entry was skipped because its name marks it as hidden.
    IgnoringHiddenName,
    /// The entry's path is not valid unicode, so no page name can be made
    /// of it.
    PathNotValidUnicode,
    /// An I/O failure while opening or reading a file, carried as its
    /// message.
    IoError(String),
    /// A failed step of the directory walk, carried as its message.
    WalkdirError(String),
    /// A walk entry whose path does not lie under the storage root.
    StripPrefixError,
}

/// A wiki storage backend on the filesystem.
///
/// Pages are stored as `<page_name>.<extension>` under `path` and formatted
/// as markdown with frontmatter headers. This backend is primarily useful
/// for simple and/or low-load environments and ones where the content can be
/// read and edited in a human-friendly format.
#[derive(Debug)]
pub struct Fs {
    /// The path to use as the backend storage root.
    pub path: String,
    /// Whether or not to ignore hidden files.
    pub ignore_hidden: bool,
    /// The file extension for the storage content files.
    pub extension: Option<String>,
}

/// The file that backs a page: the name joined under the storage root, with
/// the configured extension appended as a trailing `.<extension>`. A root
/// that already ends in a separator gets no second one.
pub open spec fn page_path(fs: Fs, name: Seq<char>) -> Seq<char> {
    let joined = if fs.path@.len() > 0 && fs.path@.last() == '/' {
        fs.path@ + name
    } else {
        fs.path@.push('/') + name
    };
    match fs.extension {
        Some(ext) => joined.push('.') + ext@,
        None => joined,
    }
}

pub open spec fn starts_with(s: Seq<char>, prefix: Seq<char>) -> bool {
    prefix.len() <= s.len() && s.take(prefix.len() as int) == prefix
}

/// Whether the walk entry at `path` lies under `root`: it continues `root`
/// at a component boundary, so the root can be stripped off the front.
pub open spec fn prefix_strips(path: Seq<char>, root: Seq<char>) -> bool {
    starts_with(path, root) && (path.len() == root.len() || (root.len() > 0 && root.last()
        == '/') || path[root.len() as int] == '/')
}

/// The entry's path relative to the root: what is left of `path` once `root`
/// and at most one separator after it are removed from the front.
pub open spec fn rel_of(path: Seq<char>, root: Seq<char>) -> Seq<char> {
    let rest = path.skip(root.len() as int);
    if rest.len() > 0 && rest[0] == '/' {
        rest.skip(1)
    } else {
        rest
    }
}

/// An extension in plain form: no separator and no further dot, so that it
/// can be the final dot-segment of a file's name.
pub open spec fn plain_ext(ext: Seq<char>) -> bool {
    forall|i: int| 0 <= i < ext.len() ==> ext[i] != '.' && ext[i] != '/'
}

/// Whether `ext` is the file extension of the relative path `name`: `name`
/// ends in `.<ext>`, and that dot does not begin the file's own base name (a
/// leading dot marks a hidden file, not an extension).
pub open spec fn ext_matches(name: Seq<char>, ext: Seq<char>) -> bool {
    &&& plain_ext(ext)
    &&& name.len() >= ext.len() + 2
    &&& name.skip(name.len() - ext.len()) == ext
    &&& name[name.len() - ext.len() - 1] == '.'
    &&& name[name.len() - ext.len() - 2] != '/'
}

/// A relative path turned into a page name: the trailing `.<ext>` is removed
/// exactly once, and only when it is the file's own extension; internal dots
/// stay untouched.
pub open spec fn strip_ext(name: Seq<char>, ext: Seq<char>) -> Seq<char> {
    if ext_matches(name, ext) {
        name.take(name.len() - ext.len() - 1)
    } else {
        name
    }
}

/// The page name of the walk entry at `path`: its path relative to the
/// storage root, with the configured extension stripped when it matches.
pub open spec fn page_name(fs: Fs, path: Seq<char>) -> Seq<char> {
    match fs.extension {
        Some(ext) => strip_ext(rel_of(path, fs.path@), ext@),
        None => rel_of(path, fs.path@),
    }
}

/// A name that marks its entry as hidden: it begins with a dot.
pub open spec fn hidden_name(name: Seq<char>) -> bool {
    name.len() > 0 && name[0] == '.'
}

/// Whether the walk keeps the entry whose base name is `name`.
pub open spec fn keeps(fs: Fs, name: Seq<char>) -> bool {
    !fs.ignore_hidden || !hidden_name(name)
}

/// A path the walk can hand over for a file under the root: it continues the
/// root at exactly one separator, so the path and the relative part
/// determine each other.
pub open spec fn walked_under(path: Seq<char>, root: Seq<char>) -> bool {
    &&& root.len() > 0
    &&& path.len() > root.len()
    &&& prefix_strips(path, root)
    &&& (root.last() == '/' ==> path[root.len() as int] != '/')
}

/// Whether the file at `path` is one of the backend's pages: it lies under
/// the root and, when an extension is configured, carries it as its own.
pub open spec fn page_file(fs: Fs, path: Seq<char>) -> bool {
    prefix_strips(path, fs.path@) && match fs.extension {
        Some(ext) => ext_matches(rel_of(path, fs.path@), ext@),
        None => true,
    }
}

/// Whether `t` occurs in `s` at offset `off`, character for character.
fn occurs_at(s: &str, off: usize, t: &str) -> (r: bool)
    requires
        off + t@.len() <= s@.len(),
    ensures
        r == (s@.subrange(off as int, off + t@.len()) == t@),
{
    let sl = s.unicode_len();
    let tl = t.unicode_len();
    let mut i: usize = 0;
    while i < tl
        invariant
            i <= tl,
            tl == t@.len(),
            sl == s@.len(),
            off + tl <= s@.len(),
            forall|j: int| 0 <= j < i ==> s@[off + j] == t@[j],
        decreases tl - i,
    {
        if s.get_char(off + i) != t.get_char(i) {
            proof {
                assert(s@.subrange(off as int, off + t@.len())[i as int] == s@[off + i]);
            }
            return false;
        }
        i = i + 1;
    }
    proof {
        assert(s@.subrange(off as int, off + t@.len()) =~= t@);
    }
    true
}

/// Whether `ext` holds neither a dot nor a separator.
fn ext_is_plain(ext: &str) -> (r: bool)
    ensures
        r == plain_ext(ext@),
{
    let el = ext.unicode_len();
    let mut i: usize = 0;
    while i < el
        invariant
            i <= el,
            el == ext@.len(),
            forall|j: int| 0 <= j < i ==> ext@[j] != '.' && ext@[j] != '/',
        decreases el - i,
    {
        let c = ext.get_char(i);
        if c == '.' || c == '/' {
            return false;
        }
        i = i + 1;
    }
    true
}

/// Strip the storage root from a walk entry's path, leaving the entry's
/// root-relative path; an entry that does not lie under the root is a fault.
pub fn strip_path_prefix(path: &str, root: &str) -> (r: Result<String, Error>)
    ensures
        prefix_strips(path@, root@) ==> (r matches Ok(rel) && rel@ == rel_of(path@, root@)),
        !prefix_strips(path@, root@) ==> (r matches Err(e) && e is StripPrefixError),
{
    let pl = path.unicode_len();
    let rl = root.unicode_len();
    if rl > pl || !occurs_at(path, 0, root) {
        proof {
            assert(path@.take(rl as int) =~= path@.subrange(0, rl as int));
        }
        return Err(Error::StripPrefixError);
    }
    proof {
        assert(path@.take(rl as int) =~= path@.subrange(0, rl as int));
    }
    let boundary = if pl == rl {
        true
    } else if rl > 0 && root.get_char(rl - 1) == '/' {
        true
    } else {
        path.get_char(rl) == '/'
    };
    if !boundary {
        return Err(Error::StripPrefixError);
    }
    let rest = if pl > rl && path.get_char(rl) == '/' {
        path.substring_char(rl + 1, pl)
    } else {
        path.substring_char(rl, pl)
    };
    proof {
        assert(path@.skip(rl as int) =~= path@.subrange(rl as int, pl as int));
        assert(rest@ =~= rel_of(path@, root@));
    }
    Ok(rest.to_owned())
}

/// Whether `ext` is the file extension of the root-relative path `name`:
/// only then does the iteration treat the file as a page and strip the
/// trailing `.<ext>` from its name.
pub fn extension_matches(name: &str, ext: &str) -> (r: bool)
    ensures
        r == ext_matches(name@, ext@),
{
    let nl = name.unicode_len();
    let el = ext.unicode_len();
    if !ext_is_plain(ext) {
        return false;
    }
    if nl < 2 || el > nl - 2 {
        return false;
    }
    if name.get_char(nl - el - 1) != '.' {
        return false;
    }
    if name.get_char(nl - el - 2) == '/' {
        return false;
    }
    let tail_is_ext = occurs_at(name, nl - el, ext);
    proof {
        assert(name@.skip(nl - el) =~= name@.subrange((nl - el) as int, nl as int));
    }
    tail_is_ext
}

/// Strip the configured extension from a root-relative path, exactly once
/// and only when it is the file's own extension: `v1.2.md` becomes `v1.2`,
/// while `v1.2` and a hidden `.md` are left as they are.
pub fn strip_extension(name: &str, ext: &str) -> (r: String)
    ensures
        r@ == strip_ext(name@, ext@),
{
    if !extension_matches(name, ext) {
        return name.to_owned();
    }
    let nl = name.unicode_len();
    let el = ext.unicode_len();
    let stem = name.substring_char(0, nl - el - 1);
    proof {
        assert(stem@ =~= strip_ext(name@, ext@));
    }
    stem.to_owned()
}

impl Fs {
    /// Create a new Fs storage rooted at `path`, ignoring hidden entries and
    /// expecting the `md` extension on its content files.
    pub fn new(path: String) -> (fs: Fs)
        ensures
            fs.path == path,
            fs.ignore_hidden,
            fs.extension matches Some(ext) && ext@ == "md"@,
    {
        Fs { path: path, ignore_hidden: true, extension: Some(String::from_str("md")) }
    }

    /// The path of the file that `read` would open for `name`.
    pub fn read_path(&self, name: &str) -> (p: String)
        ensures
            p@ == page_path(*self, name@),
    {
        let mut p = self.path.clone();
        let rl = self.path.as_str().unicode_len();
        if rl == 0 || self.path.as_str().get_char(rl - 1) != '/' {
            p.append("/");
        }
        p.append(name);
        match &self.extension {
            Some(ext) => {
                p.append(".");
                p.append(ext.as_str());
            },
            None => {},
        }
        proof {
            reveal_strlit("/");
            reveal_strlit(".");
            assert(p@ =~= page_path(*self, name@));
        }
        p
    }

    /// The page assembled once a file's content is in hand: the name and
    /// source as given, under the placeholder metadata of this backend.
    pub fn page_from_source(&self, name: String, source: String) -> (page: Page)
        ensures
            page.name == name,
            page.source == source,
            page.metadata.title is None,
            page.metadata.template@ == "page"@,
    {
        let meta = Metadata { title: None, template: default_metadata_template() };
        Page { name: name, source: source, metadata: meta }
    }

    /// Persist nothing: writing is a placeholder that always succeeds and
    /// performs no filesystem mutation.
    pub fn write(&self, name: &str, data: &str) -> (r: Result<(), StorageError>)
        ensures
            r is Ok,
    {
        let _ = name;
        let _ = data;
        Ok(())
    }
}

impl Clone for Fs {
    /// A clone carries the same root, the same hidden-file policy and the
    /// same extension: a walk filter holding one behaves as the backend.
    fn clone(&self) -> (fs: Fs)
        ensures
            fs == *self,
    {
        Fs {
            path: self.path.clone(),
            ignore_hidden: self.ignore_hidden,
            extension: match &self.extension {
                Some(ext) => Some(ext.clone()),
                None => None,
            },
        }
    }
}

/// One outcome of pulling the next entry from the directory walk, as the
/// walking shell hands it to the backend.
#[derive(Debug, PartialEq)]
pub enum WalkEvent {
    /// The walk is exhausted.
    Finished,
    /// The walk step itself failed, with the failure's message.
    WalkFailed(String),
    /// The entry is a directory.
    Dir,
    /// The entry is a file at this absolute path.
    File(String),
    /// The entry is a file whose path is not valid unicode.
    FileNotUnicode,
}

/// What the iteration does with one walk event.
#[derive(Debug, PartialEq)]
pub enum StepAction {
    /// The sequence of pages ends; there is no further item.
    Stop,
    /// Yield this error as one item; the walk stays ready for a next event.
    Emit(StorageError),
    /// Yield nothing and pull the next event: the entry carries no page.
    Skip,
    /// Read the page under this name and yield the result of that read.
    Read(String),
}

/// What one walk step amounts to, stated over the entry's text alone.
pub enum StepModel {
    /// The sequence ends.
    Stop,
    /// One error item: the walk step failed with this message.
    FailWalk(Seq<char>),
    /// One error item: the entry's path cannot be read as text.
    FailNotUnicode,
    /// One error item: the entry does not lie under the storage root.
    FailStrip,
    /// No item: the entry is a directory.
    Skip,
    /// The page under this name is read and its result yielded.
    Read(Seq<char>),
}

/// The step the backend owes for a walk event: directories are skipped, walk
/// failures and stray entries become error items, a file without the
/// configured extension carries no page and is skipped, and every page file
/// under the root is read under its page name.
pub open spec fn step_model(fs: Fs, ev: WalkEvent) -> StepModel {
    match ev {
        WalkEvent::Finished => StepModel::Stop,
        WalkEvent::WalkFailed(m) => StepModel::FailWalk(m@),
        WalkEvent::Dir => StepModel::Skip,
        WalkEvent::FileNotUnicode => StepModel::FailNotUnicode,
        WalkEvent::File(p) => if !prefix_strips(p@, fs.path@) {
            StepModel::FailStrip
        } else if page_file(fs, p@) {
            StepModel::Read(page_name(fs, p@))
        } else {
            StepModel::Skip
        },
    }
}

/// Whether an executable step action carries out the modelled step.
pub open spec fn action_fits(act: StepAction, m: StepModel) -> bool {
    match m {
        StepModel::Stop => act is Stop,
        StepModel::Skip => act is Skip,
        StepModel::FailWalk(msg) => act matches StepAction::Emit(
            StorageError::ImplError(Error::WalkdirError(s)),
        ) && s@ == msg,
        StepModel::FailNotUnicode => act matches StepAction::Emit(
            StorageError::ImplError(Error::PathNotValidUnicode),
        ),
        StepModel::FailStrip => act matches StepAction::Emit(
            StorageError::ImplError(Error::StripPrefixError),
        ),
        StepModel::Read(name) => act matches StepAction::Read(n) && n@ == name,
    }
}

impl Fs {
    /// Whether the walk keeps the entry whose base name is `file_name`: with
    /// `ignore_hidden` set, an entry whose name begins with a dot is pruned
    /// — a directory among them together with everything beneath it.
    pub fn keep_entry(&self, file_name: &str) -> (keep: bool)
        ensures
            keep == keeps(*self, file_name@),
    {
        if !self.ignore_hidden {
            true
        } else if file_name.unicode_len() == 0 {
            true
        } else {
            file_name.get_char(0) != '.'
        }
    }

    /// Decide one step of the page iteration from the next walk event: end
    /// the sequence, yield an error item, skip an entry that carries no page
    /// (a directory, or a file without the configured extension), or name
    /// the one page to read.
    pub fn iter_step(&self, ev: WalkEvent) -> (act: StepAction)
        ensures
            action_fits(act, step_model(*self, ev)),
    {
        match ev {
            WalkEvent::Finished => StepAction::Stop,
            WalkEvent::WalkFailed(m) => StepAction::Emit(
                StorageError::ImplError(Error::WalkdirError(m)),
            ),
            WalkEvent::Dir => StepAction::Skip,
            WalkEvent::FileNotUnicode => StepAction::Emit(
                StorageError::ImplError(Error::PathNotValidUnicode),
            ),
            WalkEvent::File(p) => match strip_path_prefix(p.as_str(), self.path.as_str()) {
                Err(e) => StepAction::Emit(StorageError::ImplError(e)),
                Ok(rel) => match &self.extension {
                    Some(ext) => if extension_matches(rel.as_str(), ext.as_str()) {
                        StepAction::Read(strip_extension(rel.as_str(), ext.as_str()))
                    } else {
                        StepAction::Skip
                    },
                    None => StepAction::Read(rel),
                },
            },
        }
    }
}

/// The path a file event carries; other events carry none.
pub open spec fn event_path(ev: WalkEvent) -> Seq<char> {
    match ev {
        WalkEvent::File(p) => p@,
        _ => Seq::<char>::empty(),
    }
}

/// Reading a page the walk discovered opens the very file the walk saw: the
/// page name computed from a page file's path under the root leads back to
/// that same path.
pub proof fn lemma_page_name_roundtrip(fs: Fs, path: Seq<char>)
    requires
        walked_under(path, fs.path@),
        page_file(fs, path),
    ensures
        page_path(fs, page_name(fs, path)) == path,
{
    let root = fs.path@;
    let rl = root.len() as int;
    let rel = rel_of(path, root);
    assert(path.skip(rl)[0] == path[rl]);
    assert(forall|i: int| 0 <= i < rl ==> path[i] == root[i]) by {
        assert(forall|i: int| 0 <= i < rl ==> #[trigger] path.take(rl)[i] == path[i]);
    }
    if root.last() == '/' {
        assert(rel =~= path.skip(rl));
        assert(root + rel =~= path);
    } else {
        assert(path[rl] == '/');
        assert(rel =~= path.skip(rl + 1));
        assert(root.push('/') + rel =~= path);
    }
    match fs.extension {
        Some(ext) => {
            let name = strip_ext(rel, ext@);
            let el = ext@.len() as int;
            assert(forall|j: int| 0 <= j < el ==> rel[rel.len() - el + j] == ext@[j]) by {
                assert(forall|j: int|
                    0 <= j < el ==> #[trigger] rel.skip(rel.len() - el)[j] == rel[rel.len() - el
                        + j]);
            }
            assert(name.push('.') + ext@ =~= rel);
            if root.last() == '/' {
                assert(page_path(fs, name) =~= root + rel);
            } else {
                assert(page_path(fs, name) =~= root.push('/') + rel);
            }
        },
        None => {
            if root.last() == '/' {
                assert(page_path(fs, rel) =~= root + rel);
            } else {
                assert(page_path(fs, rel) =~= root.push('/') + rel);
            }
        },
    }
}

/// The walk never collapses two files into one page: distinct page-file
/// paths under the root have distinct page names.
pub proof fn lemma_distinct_files_distinct_names(fs: Fs, p1: Seq<char>, p2: Seq<char>)
    requires
        walked_under(p1, fs.path@),
        walked_under(p2, fs.path@),
        page_file(fs, p1),
        page_file(fs, p2),
        p1 != p2,
    ensures
        page_name(fs, p1) != page_name(fs, p2),
{
    if page_name(fs, p1) == page_name(fs, p2) {
        lemma_page_name_roundtrip(fs, p1);
        lemma_page_name_roundtrip(fs, p2);
        assert(false);
    }
}

/// Over a whole walk, every file under the root carrying the configured
/// extension is read exactly once, under its own page name, and no other
/// entry yields an item: directories and files without the configured
/// extension are skipped, and the walk's end only ends the sequence. The
/// walk hands over each file at most once, so its events name pairwise
/// distinct paths.
pub proof fn lemma_walk_reads_each_file_once(fs: Fs, events: Seq<WalkEvent>)
    requires
        forall|i: int|
            0 <= i < events.len() && (#[trigger] events[i]) is File ==> walked_under(
                event_path(events[i]),
                fs.path@,
            ),
        forall|i: int, j: int|
            0 <= i < events.len() && 0 <= j < events.len() && i != j && (#[trigger] events[i])
                is File && (#[trigger] events[j]) is File ==> event_path(events[i]) != event_path(
                events[j],
            ),
    ensures
        forall|i: int|
            0 <= i < events.len() && (#[trigger] events[i]) is Dir ==> step_model(fs, events[i])
                is Skip,
        forall|i: int|
            0 <= i < events.len() && (#[trigger] events[i]) is Finished ==> step_model(
                fs,
                events[i],
            ) is Stop,
        forall|i: int|
            0 <= i < events.len() && (#[trigger] events[i]) is File && page_file(
                fs,
                event_path(events[i]),
            ) ==> step_model(fs, events[i]) == StepModel::Read(page_name(fs, event_path(events[i]))),
        forall|i: int|
            0 <= i < events.len() && (#[trigger] events[i]) is File && !page_file(
                fs,
                event_path(events[i]),
            ) ==> step_model(fs, events[i]) is Skip,
        forall|i: int, j: int|
            0 <= i < events.len() && 0 <= j < events.len() && i != j && (#[trigger] events[i])
                is File && (#[trigger] events[j]) is File && page_file(fs, event_path(events[i]))
                && page_file(fs, event_path(events[j])) ==> page_name(fs, event_path(events[i]))
                != page_name(fs, event_path(events[j])),
{
    assert forall|i: int, j: int|
        0 <= i < events.len() && 0 <= j < events.len() && i != j && (#[trigger] events[i]) is File
            && (#[trigger] events[j]) is File && page_file(fs, event_path(events[i])) && page_file(
            fs,
            event_path(events[j]),
        ) implies page_name(fs, event_path(events[i])) != page_name(
        fs,
        event_path(events[j]),
    ) by {
        lemma_distinct_files_distinct_names(fs, event_path(events[i]), event_path(events[j]));
    }
}

/// With hidden entries ignored, the walk filter prunes every entry whose
/// name begins with a dot — files and directories alike, so nothing beneath
/// a hidden directory is ever visited; with them allowed, it prunes
/// nothing.
pub proof fn lemma_hidden_entry_filtering(fs: Fs, name: Seq<char>)
    ensures
        fs.ignore_hidden && hidden_name(name) ==> !keeps(fs, name),
        !fs.ignore_hidden ==> keeps(fs, name),
{
}

/// The error a failed read surfaces as: a missing file is a missing page,
/// any other failure is the backend's own I/O fault.
pub fn read_error(name: String, not_found: bool, message: String) -> (e: StorageError)
    ensures
        not_found ==> (e matches StorageError::PageNotFound(n) && n == name),
        !not_found ==> (e matches StorageError::ImplError(Error::IoError(m)) && m == message),
{
    if not_found {
        StorageError::PageNotFound(name)
    } else {
        StorageError::ImplError(Error::IoError(message))
    }
}

} // verus!
