//! The process-facing aggregate: three independently generationed resource
//! pools (archives, string lists, watchers), the last-error slot, and the
//! composite operations that tie arena lookups to the collaborators.
//! Handles of different kinds are distinct key types, so cross-kind use is
//! a type error inside the library and a checked failure at the boundary.
use vstd::prelude::*;

verus! {

use crate::INVALID_HANDLE;
use crate::archive::Archive;
use crate::archive::kind_byte;
use crate::arena::Arena;
use crate::arena::inserted;
use crate::arena::inserted_handle;
use crate::arena::mutated_at;
use crate::arena::removed;
use crate::bytefmt::{COLON, SP};
use crate::strlist::{has_nul, null_free, StringList};
use crate::watcher::FileWatcher;

/// ASCII '/'.
pub const SLASH: u8 = 47;

/// ASCII '.'.
pub const DOT: u8 = 46;

/// ASCII 'S': the entry is a symbolic link.
pub const SYM_LINK: u8 = 83;

/// ASCII '_': the entry is not a symbolic link.
pub const SYM_NONE: u8 = 95;

/// Handle for an archive owned by a `Context`.
#[derive(Clone, Copy, PartialEq, Eq, Structural)]
pub struct ArchiveKey(pub u64);

/// Handle for a string list owned by a `Context`.
#[derive(Clone, Copy, PartialEq, Eq, Structural)]
pub struct StringListKey(pub u64);

/// Handle for a watcher owned by a `Context`.
#[derive(Clone, Copy, PartialEq, Eq, Structural)]
pub struct WatcherKey(pub u64);

impl From<u64> for ArchiveKey {
    fn from(v: u64) -> (r: Self) {
        ArchiveKey(v)
    }
}

impl vstd::std_specs::convert::FromSpecImpl<u64> for ArchiveKey {
    open spec fn obeys_from_spec() -> bool {
        true
    }

    open spec fn from_spec(v: u64) -> Self {
        ArchiveKey(v)
    }
}

impl From<ArchiveKey> for u64 {
    fn from(k: ArchiveKey) -> (r: u64) {
        k.0
    }
}

impl vstd::std_specs::convert::FromSpecImpl<ArchiveKey> for u64 {
    open spec fn obeys_from_spec() -> bool {
        true
    }

    open spec fn from_spec(k: ArchiveKey) -> u64 {
        k.0
    }
}

impl From<u64> for StringListKey {
    fn from(v: u64) -> (r: Self) {
        StringListKey(v)
    }
}

impl vstd::std_specs::convert::FromSpecImpl<u64> for StringListKey {
    open spec fn obeys_from_spec() -> bool {
        true
    }

    open spec fn from_spec(v: u64) -> Self {
        StringListKey(v)
    }
}

impl From<StringListKey> for u64 {
    fn from(k: StringListKey) -> (r: u64) {
        k.0
    }
}

impl vstd::std_specs::convert::FromSpecImpl<StringListKey> for u64 {
    open spec fn obeys_from_spec() -> bool {
        true
    }

    open spec fn from_spec(k: StringListKey) -> u64 {
        k.0
    }
}

impl From<u64> for WatcherKey {
    fn from(v: u64) -> (r: Self) {
        WatcherKey(v)
    }
}

impl vstd::std_specs::convert::FromSpecImpl<u64> for WatcherKey {
    open spec fn obeys_from_spec() -> bool {
        true
    }

    open spec fn from_spec(v: u64) -> Self {
        WatcherKey(v)
    }
}

impl From<WatcherKey> for u64 {
    fn from(k: WatcherKey) -> (r: u64) {
        k.0
    }
}

impl vstd::std_specs::convert::FromSpecImpl<WatcherKey> for u64 {
    open spec fn obeys_from_spec() -> bool {
        true
    }

    open spec fn from_spec(k: WatcherKey) -> u64 {
        k.0
    }
}

/// What a successful stat of a directory entry reports.
pub struct FsMeta {
    pub is_file: bool,
    pub is_dir: bool,
    pub is_symlink: bool,
}

/// One enumerated directory entry: its file name and, when the stat
/// succeeded, its metadata.
pub struct DirEntry {
    pub name: Vec<u8>,
    pub meta: Option<FsMeta>,
}

/// An entry appears in a listing only if its stat succeeded, it passes the
/// files-only filter, and its name can be null-terminated.
pub open spec fn keep_dir_entry(e: DirEntry, files_only: bool) -> bool {
    &&& e.meta is Some
    &&& (files_only ==> e.meta->Some_0.is_file)
    &&& null_free(e.name@)
}

/// The record of one kept entry: `"{kind} {symlink_flag}:{name}"` with
/// metadata, the bare name without.
pub open spec fn format_dir_entry(e: DirEntry, include_metadata: bool) -> Seq<u8> {
    if include_metadata {
        seq![
            kind_byte(e.meta->Some_0.is_file, e.meta->Some_0.is_dir),
            SP,
            if e.meta->Some_0.is_symlink {
                SYM_LINK
            } else {
                SYM_NONE
            },
            COLON,
        ] + e.name@
    } else {
        e.name@
    }
}

/// The listing of a directory enumeration: the kept entries' records, in
/// enumeration order.
pub open spec fn dir_listing(
    entries: Seq<DirEntry>,
    files_only: bool,
    include_metadata: bool,
) -> Seq<Seq<u8>>
    decreases entries.len(),
{
    if entries.len() == 0 {
        Seq::empty()
    } else {
        let rest = dir_listing(entries.drop_last(), files_only, include_metadata);
        if keep_dir_entry(entries.last(), files_only) {
            rest.push(format_dir_entry(entries.last(), include_metadata))
        } else {
            rest
        }
    }
}

/// How many entries of an enumeration are kept in its listing.
pub open spec fn kept_count(entries: Seq<DirEntry>, files_only: bool) -> int
    decreases entries.len(),
{
    if entries.len() == 0 {
        0
    } else {
        kept_count(entries.drop_last(), files_only) + (if keep_dir_entry(
            entries.last(),
            files_only,
        ) {
            1int
        } else {
            0int
        })
    }
}

/// A listing holds exactly one record per kept (non-skipped) entry.
pub proof fn lemma_dir_listing_length(
    entries: Seq<DirEntry>,
    files_only: bool,
    include_metadata: bool,
)
    ensures
        dir_listing(entries, files_only, include_metadata).len() == kept_count(
            entries,
            files_only,
        ),
    decreases entries.len(),
{
    if entries.len() > 0 {
        lemma_dir_listing_length(entries.drop_last(), files_only, include_metadata);
    }
}

/// Render one kept entry's record.
fn render_dir_entry(e: &DirEntry, include_metadata: bool) -> (r: Vec<u8>)
    requires
        e.meta is Some,
    ensures
        r@ == format_dir_entry(*e, include_metadata),
        null_free(e.name@) ==> null_free(r@),
{
    let mut out: Vec<u8> = Vec::new();
    if include_metadata {
        match &e.meta {
            Some(m) => {
                out.push(
                    if m.is_file {
                        crate::archive::KIND_FILE
                    } else if m.is_dir {
                        crate::archive::KIND_DIR
                    } else {
                        crate::archive::KIND_OTHER
                    },
                );
                out.push(SP);
                out.push(
                    if m.is_symlink {
                        SYM_LINK
                    } else {
                        SYM_NONE
                    },
                );
                out.push(COLON);
            },
            None => {},
        }
    }
    out.extend_from_slice(e.name.as_slice());
    proof {
        assert(out@ =~= format_dir_entry(*e, include_metadata));
    }
    out
}

/// Build the listing of an enumeration: filter, format, and collect the
/// records in order.
pub fn build_dir_listing(entries: &Vec<DirEntry>, files_only: bool, include_metadata: bool) -> (r:
    StringList)
    ensures
        r.wf(),
        r.items() == dir_listing(entries@, files_only, include_metadata),
{
    let mut out = StringList::new();
    let n = entries.len();
    let mut i: usize = 0;
    while i < n
        invariant
            n == entries@.len(),
            i <= n,
            out.wf(),
            out.items() == dir_listing(entries@.take(i as int), files_only, include_metadata),
        decreases n - i,
    {
        let e = &entries[i];
        let keep = match &e.meta {
            Some(_) => {
                let passes = if files_only {
                    match &e.meta {
                        Some(m) => m.is_file,
                        None => false,
                    }
                } else {
                    true
                };
                passes && !has_nul(&e.name)
            },
            None => false,
        };
        if keep {
            let rec = render_dir_entry(e, include_metadata);
            out.push_clean(rec);
        }
        proof {
            assert(entries@.take(i + 1).drop_last() =~= entries@.take(i as int));
            assert(entries@.take(i + 1).last() == entries@[i as int]);
        }
        i = i + 1;
    }
    proof {
        assert(entries@.take(n as int) =~= entries@);
    }
    out
}

/// End of the run of non-separator bytes starting at `from`.
pub open spec fn run_end(s: Seq<u8>, from: int) -> int
    decreases s.len() - from,
{
    if from < 0 || from >= s.len() {
        from
    } else if s[from] == SLASH {
        from
    } else {
        run_end(s, from + 1)
    }
}

pub proof fn lemma_run_end(s: Seq<u8>, from: int)
    requires
        0 <= from <= s.len(),
    ensures
        from <= run_end(s, from) <= s.len(),
        from < s.len() && s[from] != SLASH ==> run_end(s, from) > from,
    decreases s.len() - from,
{
    if from < s.len() && s[from] != SLASH {
        lemma_run_end(s, from + 1);
    }
}

/// The path segments from position `from` on: the maximal non-empty runs
/// between '/' separators, in order. A lone '.' run is dropped unless it
/// starts the path, as the platform's path iteration does.
pub open spec fn segments_from(s: Seq<u8>, from: int) -> Seq<Seq<u8>>
    decreases s.len() - from via segments_from_decreases
{
    if from < 0 || from >= s.len() {
        Seq::empty()
    } else if s[from] == SLASH {
        segments_from(s, from + 1)
    } else {
        let seg = s.subrange(from, run_end(s, from));
        let rest = segments_from(s, run_end(s, from));
        if seg == seq![DOT] && from != 0 {
            rest
        } else {
            seq![seg] + rest
        }
    }
}

#[via_fn]
proof fn segments_from_decreases(s: Seq<u8>, from: int) {
    if 0 <= from < s.len() && s[from] != SLASH {
        lemma_run_end(s, from);
    }
}

/// The components of a path: a leading "/" for an absolute path, then its
/// segments in order; a lone '.' segment is kept only when the path begins
/// with it.
pub open spec fn split_components(s: Seq<u8>) -> Seq<Seq<u8>> {
    if s.len() > 0 && s[0] == SLASH {
        seq![seq![SLASH]] + segments_from(s, 0)
    } else {
        segments_from(s, 0)
    }
}

fn run_end_exec(s: &Vec<u8>, from: usize) -> (r: usize)
    requires
        from <= s@.len(),
    ensures
        r == run_end(s@, from as int),
        from <= r <= s@.len(),
    decreases s@.len() - from,
{
    if from >= s.len() {
        from
    } else if s[from] == SLASH {
        from
    } else {
        run_end_exec(s, from + 1)
    }
}

fn copy_range(s: &Vec<u8>, from: usize, to: usize) -> (r: Vec<u8>)
    requires
        from <= to <= s@.len(),
    ensures
        r@ == s@.subrange(from as int, to as int),
{
    let mut out: Vec<u8> = Vec::new();
    let mut j: usize = from;
    while j < to
        invariant
            from <= j <= to <= s@.len(),
            out@ == s@.subrange(from as int, j as int),
        decreases to - j,
    {
        out.push(s[j]);
        proof {
            assert(out@ =~= s@.subrange(from as int, j + 1));
        }
        j = j + 1;
    }
    out
}

/// Append the segments of `s` from `from` on to `out`.
fn push_segments(out: &mut StringList, s: &Vec<u8>, from: usize)
    requires
        old(out).wf(),
        null_free(s@),
        from <= s@.len(),
    ensures
        final(out).wf(),
        final(out).items() == old(out).items() + segments_from(s@, from as int),
    decreases s@.len() - from,
{
    if from >= s.len() {
        proof {
            assert(out.items() =~= old(out).items() + segments_from(s@, from as int));
        }
        return ;
    }
    if s[from] == SLASH {
        push_segments(out, s, from + 1);
        return ;
    }
    let end = run_end_exec(s, from);
    proof {
        lemma_run_end(s@, from as int);
    }
    if end == from + 1 && from != 0 && s[from] == DOT {
        proof {
            assert(s@.subrange(from as int, end as int) =~= seq![DOT]);
        }
        push_segments(out, s, end);
        proof {
            assert(out.items() =~= old(out).items() + segments_from(s@, from as int));
        }
        return ;
    }
    let seg = copy_range(s, from, end);
    proof {
        assert(null_free(seg@)) by {
            assert forall|j: int| 0 <= j < seg@.len() implies seg@[j] != 0u8 by {
                assert(seg@[j] == s@[from + j]);
            }
        }
        if seg@ == seq![DOT] {
            assert(seg@[0] == s@[from as int]);
            assert(end - from == 1);
        }
    }
    out.push_clean(seg);
    push_segments(out, s, end);
    proof {
        assert(out.items() =~= old(out).items() + segments_from(s@, from as int));
    }
}

/// A short null-free message for an exhausted pool.
fn pool_full_message() -> (r: Vec<u8>)
    ensures
        null_free(r@),
{
    let mut out: Vec<u8> = Vec::new();
    out.push(112);  // 'p'
    out.push(111);  // 'o'
    out.push(111);  // 'o'
    out.push(108);  // 'l'
    out.push(SP);
    out.push(102);  // 'f'
    out.push(117);  // 'u'
    out.push(108);  // 'l'
    out.push(108);  // 'l'
    out
}

/// A short null-free message for a value with an embedded null byte.
fn nul_byte_message() -> (r: Vec<u8>)
    ensures
        null_free(r@),
{
    let mut out: Vec<u8> = Vec::new();
    out.push(101);  // 'e'
    out.push(109);  // 'm'
    out.push(98);  // 'b'
    out.push(101);  // 'e'
    out.push(100);  // 'd'
    out.push(100);  // 'd'
    out.push(101);  // 'e'
    out.push(100);  // 'd'
    out.push(SP);
    out.push(110);  // 'n'
    out.push(117);  // 'u'
    out.push(108);  // 'l'
    out.push(108);  // 'l'
    out
}

/// A short null-free message for a missing or stale handle.
fn bad_handle_message() -> (r: Vec<u8>)
    ensures
        null_free(r@),
{
    let mut out: Vec<u8> = Vec::new();
    out.push(98);  // 'b'
    out.push(97);  // 'a'
    out.push(100);  // 'd'
    out.push(SP);
    out.push(104);  // 'h'
    out.push(97);  // 'a'
    out.push(110);  // 'n'
    out.push(100);  // 'd'
    out.push(108);  // 'l'
    out.push(101);  // 'e'
    out
}

/// `msg` with any embedded null bytes removed; usually the identity, since
/// collaborator messages are ordinary text.
fn sanitize_message(msg: Vec<u8>) -> (r: Vec<u8>)
    ensures
        null_free(r@),
        null_free(msg@) ==> r@ == msg@,
{
    if !has_nul(&msg) {
        return msg;
    }
    let mut out: Vec<u8> = Vec::new();
    let mut i: usize = 0;
    while i < msg.len()
        invariant
            i <= msg@.len(),
            null_free(out@),
        decreases msg@.len() - i,
    {
        let b = msg[i];
        if b != 0 {
            out.push(b);
        }
        i = i + 1;
    }
    out
}

proof fn lemma_list_values_wf_insert(
    pre: Arena<StringList>,
    post: Arena<StringList>,
    h: u64,
    l: StringList,
)
    requires
        forall|h2: u64| pre.valid(h2) ==> (#[trigger] pre.value_of(h2)).wf(),
        inserted(pre, post, h, l),
        l.wf(),
    ensures
        forall|h2: u64| post.valid(h2) ==> (#[trigger] post.value_of(h2)).wf(),
{
    assert forall|h2: u64| post.valid(h2) implies (#[trigger] post.value_of(h2)).wf() by {
        if h2 != h {
            assert(pre.valid(h2));
        }
    }
}

proof fn lemma_list_values_wf_remove(pre: Arena<StringList>, post: Arena<StringList>, h: u64)
    requires
        forall|h2: u64| pre.valid(h2) ==> (#[trigger] pre.value_of(h2)).wf(),
        removed(pre, post, h),
    ensures
        forall|h2: u64| post.valid(h2) ==> (#[trigger] post.value_of(h2)).wf(),
{
    assert forall|h2: u64| post.valid(h2) implies (#[trigger] post.value_of(h2)).wf() by {
        assert(pre.valid(h2) && h2 != h);
    }
}

proof fn lemma_list_values_wf_mutate(pre: Arena<StringList>, post: Arena<StringList>, h: u64)
    requires
        forall|h2: u64| pre.valid(h2) ==> (#[trigger] pre.value_of(h2)).wf(),
        mutated_at(pre, post, h),
        post.valid(h) ==> post.value_of(h).wf(),
    ensures
        forall|h2: u64| post.valid(h2) ==> (#[trigger] post.value_of(h2)).wf(),
{
    assert forall|h2: u64| post.valid(h2) implies (#[trigger] post.value_of(h2)).wf() by {
        if h2 != h {
            assert(pre.valid(h2));
        }
    }
}

/// Root owner of every resource the boundary can reach: one arena per
/// resource kind, the directory strings, and the single last-error slot.
pub struct Context {
    last_error: Option<Vec<u8>>,
    working_dir: Option<Vec<u8>>,
    binary_dir: Option<Vec<u8>>,
    archives: Arena<Archive>,
    stringlists: Arena<StringList>,
    watchers: Arena<FileWatcher>,
}

impl Context {
    /// The pending error message, if any.
    pub closed spec fn error(self) -> Option<Seq<u8>> {
        match self.last_error {
            Some(m) => Some(m@),
            None => None,
        }
    }

    /// The stored working directory, if any.
    pub closed spec fn working(self) -> Option<Seq<u8>> {
        match self.working_dir {
            Some(m) => Some(m@),
            None => None,
        }
    }

    /// The stored binary directory, if any.
    pub closed spec fn binary(self) -> Option<Seq<u8>> {
        match self.binary_dir {
            Some(m) => Some(m@),
            None => None,
        }
    }

    /// The archive pool.
    pub closed spec fn archive_pool(self) -> Arena<Archive> {
        self.archives
    }

    /// The string-list pool.
    pub closed spec fn list_pool(self) -> Arena<StringList> {
        self.stringlists
    }

    /// The watcher pool.
    pub closed spec fn watcher_pool(self) -> Arena<FileWatcher> {
        self.watchers
    }

    pub closed spec fn wf(self) -> bool {
        &&& self.archives.wf()
        &&& self.stringlists.wf()
        &&& self.watchers.wf()
        &&& forall|h: u64|
            self.stringlists.valid(h) ==> (#[trigger] self.stringlists.value_of(h)).wf()
        &&& match self.last_error {
            Some(m) => null_free(m@),
            None => true,
        }
        &&& match self.working_dir {
            Some(m) => null_free(m@),
            None => true,
        }
        &&& match self.binary_dir {
            Some(m) => null_free(m@),
            None => true,
        }
    }

    /// Everything but the string-list pool is unchanged.
    pub open spec fn only_lists_touched(pre: Context, post: Context) -> bool {
        &&& post.archive_pool() == pre.archive_pool()
        &&& post.watcher_pool() == pre.watcher_pool()
        &&& post.error() == pre.error()
        &&& post.working() == pre.working()
        &&& post.binary() == pre.binary()
    }

    /// A fresh context: empty pools, no pending error, no directories.
    pub fn new() -> (c: Context)
        ensures
            c.wf(),
            c.error() is None,
            c.working() is None,
            c.binary() is None,
            c.archive_pool().slot_count() == 0,
            c.list_pool().slot_count() == 0,
            c.watcher_pool().slot_count() == 0,
            forall|h: u64| !c.archive_pool().valid(h),
            forall|h: u64| !c.list_pool().valid(h),
            forall|h: u64| !c.watcher_pool().valid(h),
    {
        Context {
            last_error: None,
            working_dir: None,
            binary_dir: None,
            archives: Arena::new(),
            stringlists: Arena::new(),
            watchers: Arena::new(),
        }
    }

    /// Consume the context; every archive, string list and watcher it still
    /// owns is dropped with it, which stops watcher workers and releases
    /// their subscriptions. Handles it issued are dead from here on.
    pub fn shutdown(self) {
    }

    /// The pending error message; failures overwrite it, successes leave it
    /// in place.
    pub fn get_error(&self) -> (r: Option<&Vec<u8>>)
        ensures
            match r {
                Some(m) => self.error() == Some(m@),
                None => self.error() is None,
            },
    {
        self.last_error.as_ref()
    }

    /// Reset the error slot.
    pub fn clear_error(&mut self)
        requires
            old(self).wf(),
        ensures
            final(self).wf(),
            final(self).error() is None,
            final(self).archive_pool() == old(self).archive_pool(),
            final(self).list_pool() == old(self).list_pool(),
            final(self).watcher_pool() == old(self).watcher_pool(),
            final(self).working() == old(self).working(),
            final(self).binary() == old(self).binary(),
    {
        self.last_error = None;
    }

    /// Store a failure message in the error slot.
    fn record_failure(&mut self, msg: Vec<u8>)
        requires
            old(self).wf(),
        ensures
            final(self).wf(),
            final(self).error() is Some,
            null_free(msg@) ==> final(self).error() == Some(msg@),
            final(self).archive_pool() == old(self).archive_pool(),
            final(self).list_pool() == old(self).list_pool(),
            final(self).watcher_pool() == old(self).watcher_pool(),
            final(self).working() == old(self).working(),
            final(self).binary() == old(self).binary(),
    {
        let m = sanitize_message(msg);
        self.last_error = Some(m);
    }

    /// Overwrite the stored directories with freshly queried values; a
    /// value that cannot be null-terminated is dropped.
    pub fn update_dirs(&mut self, working: Option<Vec<u8>>, binary: Option<Vec<u8>>)
        requires
            old(self).wf(),
        ensures
            final(self).wf(),
            final(self).archive_pool() == old(self).archive_pool(),
            final(self).list_pool() == old(self).list_pool(),
            final(self).watcher_pool() == old(self).watcher_pool(),
            final(self).error() == old(self).error(),
            final(self).working() == (match working {
                Some(w) => if null_free(w@) {
                    Some(w@)
                } else {
                    None::<Seq<u8>>
                },
                None => None::<Seq<u8>>,
            }),
            final(self).binary() == (match binary {
                Some(b) => if null_free(b@) {
                    Some(b@)
                } else {
                    None::<Seq<u8>>
                },
                None => None::<Seq<u8>>,
            }),
    {
        self.working_dir = match working {
            Some(w) => if !has_nul(&w) {
                Some(w)
            } else {
                None
            },
            None => None,
        };
        self.binary_dir = match binary {
            Some(b) => if !has_nul(&b) {
                Some(b)
            } else {
                None
            },
            None => None,
        };
    }

    /// The stored working directory.
    pub fn working_dir(&self) -> (r: Option<&Vec<u8>>)
        ensures
            match r {
                Some(m) => self.working() == Some(m@),
                None => self.working() is None,
            },
    {
        self.working_dir.as_ref()
    }

    /// The stored binary directory.
    pub fn binary_dir(&self) -> (r: Option<&Vec<u8>>)
        ensures
            match r {
                Some(m) => self.binary() == Some(m@),
                None => self.binary() is None,
            },
    {
        self.binary_dir.as_ref()
    }

    /// A fresh, empty string list for the caller to fill; the sentinel when
    /// the pool is exhausted.
    pub fn list_new(&mut self) -> (r: StringListKey)
        requires
            old(self).wf(),
        ensures
            final(self).wf(),
            Context::only_lists_touched(*old(self), *final(self)),
            old(self).list_pool().slot_count() < 0xFFFF_FFFF ==> inserted_handle(
                old(self).list_pool(),
                final(self).list_pool(),
                r.0,
            ) && final(self).list_pool().value_of(r.0).items() == Seq::<Seq<u8>>::empty(),
            old(self).list_pool().slot_count() >= 0xFFFF_FFFF ==> r.0 == INVALID_HANDLE && *final(self) == *old(self),
    {
        if self.stringlists.slot_total() < 0xFFFF_FFFF {
            let l = StringList::new();
            let h = self.stringlists.insert(l);
            proof {
                lemma_list_values_wf_insert(
                    old(self).list_pool(),
                    self.stringlists,
                    h,
                    self.stringlists.value_of(h),
                );
            }
            StringListKey(h)
        } else {
            StringListKey(INVALID_HANDLE)
        }
    }

    /// Free a string list; an invalid handle is a no-op reporting absence.
    pub fn list_free(&mut self, key: StringListKey) -> (was_live: bool)
        requires
            old(self).wf(),
        ensures
            final(self).wf(),
            Context::only_lists_touched(*old(self), *final(self)),
            removed(old(self).list_pool(), final(self).list_pool(), key.0),
            was_live == old(self).list_pool().valid(key.0),
    {
        let r = self.stringlists.remove(key.0);
        proof {
            lemma_list_values_wf_remove(old(self).list_pool(), self.stringlists, key.0);
        }
        r.is_some()
    }

    /// Number of entries in a list; 0 for an invalid handle.
    pub fn list_length(&self, key: StringListKey) -> (n: u64)
        requires
            self.wf(),
        ensures
            self.list_pool().valid(key.0) ==> n == self.list_pool().value_of(key.0).items().len(),
            !self.list_pool().valid(key.0) ==> n == 0,
    {
        if key.0 == INVALID_HANDLE {
            proof {
                self.stringlists.lemma_invalid_handle_never_valid();
            }
            return 0;
        }
        match self.stringlists.get(key.0) {
            None => 0,
            Some(l) => l.len() as u64,
        }
    }

    /// One entry of a list by index; absence for an invalid handle or an
    /// out-of-range index, indistinguishably.
    pub fn list_get(&self, key: StringListKey, index: u64) -> (r: Option<&Vec<u8>>)
        requires
            self.wf(),
        ensures
            match r {
                Some(s) => self.list_pool().valid(key.0) && index < self.list_pool().value_of(
                    key.0,
                ).items().len() && s@ == self.list_pool().value_of(key.0).items()[index as int],
                None => !self.list_pool().valid(key.0) || index >= self.list_pool().value_of(
                    key.0,
                ).items().len(),
            },
    {
        if key.0 == INVALID_HANDLE {
            proof {
                self.stringlists.lemma_invalid_handle_never_valid();
            }
            return None;
        }
        match self.stringlists.get(key.0) {
            None => None,
            Some(l) => {
                let n = l.len();
                if index < n as u64 {
                    l.get(index as usize)
                } else {
                    None
                }
            },
        }
    }

    /// Append a caller-supplied byte string to a list: 1 on success, 0 when
    /// the handle is invalid or the string holds an embedded null byte (it
    /// cannot be represented, so construction fails rather than truncate).
    pub fn list_push(&mut self, key: StringListKey, item: Vec<u8>) -> (r: u64)
        requires
            old(self).wf(),
        ensures
            final(self).wf(),
            Context::only_lists_touched(*old(self), *final(self)),
            (r == 1 <==> old(self).list_pool().valid(key.0) && null_free(item@)),
            r == 1 || r == 0,
            !old(self).list_pool().valid(key.0) ==> *final(self) == *old(self),
            old(self).list_pool().valid(key.0) ==> mutated_at(
                old(self).list_pool(),
                final(self).list_pool(),
                key.0,
            ) && final(self).list_pool().value_of(key.0).items() == (if null_free(item@) {
                old(self).list_pool().value_of(key.0).items().push(item@)
            } else {
                old(self).list_pool().value_of(key.0).items()
            }),
    {
        if key.0 == INVALID_HANDLE {
            proof {
                self.stringlists.lemma_invalid_handle_never_valid();
            }
            return 0;
        }
        if !self.stringlists.contains(key.0) {
            return 0;
        }
        let l = self.stringlists.borrow_mut(key.0);
        let ok = l.push(item);
        proof {
            lemma_list_values_wf_mutate(old(self).list_pool(), self.stringlists, key.0);
        }
        if ok {
            1
        } else {
            0
        }
    }

    /// Mount an archive from the outcome of reading its file: on any
    /// failure (the read failed, the decoder refused the bytes, the pool is
    /// exhausted) the message lands in the error slot and no handle is
    /// issued.
    pub fn mount_archive_err(&mut self, contents: Result<Vec<u8>, Vec<u8>>) -> (r: Result<
        ArchiveKey,
        Vec<u8>,
    >)
        requires
            old(self).wf(),
        ensures
            final(self).wf(),
            final(self).list_pool() == old(self).list_pool(),
            final(self).watcher_pool() == old(self).watcher_pool(),
            final(self).error() == old(self).error(),
            final(self).working() == old(self).working(),
            final(self).binary() == old(self).binary(),
            (r is Ok <==> contents is Ok && crate::archive::zip_parses(contents->Ok_0@) && old(self).archive_pool().slot_count() < 0xFFFF_FFFF),
            contents matches Err(e) ==> r == Err::<ArchiveKey, Vec<u8>>(e),
            match r {
                Ok(k) => inserted_handle(
                    old(self).archive_pool(),
                    final(self).archive_pool(),
                    k.0,
                ) && final(self).archive_pool().value_of(k.0).entries()
                    == crate::archive::zip_entries_of(contents->Ok_0@),
                Err(_) => *final(self) == *old(self),
            },
    {
        let bytes = match contents {
            Ok(b) => b,
            Err(e) => return Err(e),
        };
        let archive = match Archive::open(bytes) {
            Ok(a) => a,
            Err(e) => return Err(e),
        };
        if self.archives.slot_total() >= 0xFFFF_FFFF {
            return Err(pool_full_message());
        }
        let h = self.archives.insert(archive);
        Ok(ArchiveKey(h))
    }

    /// `mount_archive_err`, reporting failure through the error slot and
    /// the absent handle.
    pub fn mount_archive(&mut self, contents: Result<Vec<u8>, Vec<u8>>) -> (r: Option<ArchiveKey>)
        requires
            old(self).wf(),
        ensures
            final(self).wf(),
            final(self).list_pool() == old(self).list_pool(),
            final(self).watcher_pool() == old(self).watcher_pool(),
            final(self).working() == old(self).working(),
            final(self).binary() == old(self).binary(),
            (r is Some <==> contents is Ok && crate::archive::zip_parses(contents->Ok_0@) && old(self).archive_pool().slot_count() < 0xFFFF_FFFF),
            contents matches Err(e) ==> (null_free(e@) ==> final(self).error() == Some(e@)),
            match r {
                Some(k) => inserted_handle(
                    old(self).archive_pool(),
                    final(self).archive_pool(),
                    k.0,
                ) && final(self).archive_pool().value_of(k.0).entries()
                    == crate::archive::zip_entries_of(contents->Ok_0@) && final(self).error()
                    == old(self).error(),
                None => final(self).error() is Some && final(self).archive_pool() == old(self).archive_pool(),
            },
    {
        match self.mount_archive_err(contents) {
            Ok(k) => Some(k),
            Err(e) => {
                self.record_failure(e);
                None
            },
        }
    }

    /// Free an archive; an invalid handle is a no-op reporting absence.
    pub fn archive_free(&mut self, key: ArchiveKey) -> (was_live: bool)
        requires
            old(self).wf(),
        ensures
            final(self).wf(),
            final(self).list_pool() == old(self).list_pool(),
            final(self).watcher_pool() == old(self).watcher_pool(),
            final(self).error() == old(self).error(),
            final(self).working() == old(self).working(),
            final(self).binary() == old(self).binary(),
            removed(old(self).archive_pool(), final(self).archive_pool(), key.0),
            was_live == old(self).archive_pool().valid(key.0),
    {
        self.archives.remove(key.0).is_some()
    }

    /// List a mounted archive into a new string list: exactly one record
    /// per decodable entry, in index order. Absence when the archive handle
    /// is invalid (nothing else is touched then, per the invalid-handle
    /// policy) or the list pool is exhausted (an error is stored then).
    pub fn list_archive(&mut self, archive: ArchiveKey) -> (r: Option<StringListKey>)
        requires
            old(self).wf(),
        ensures
            final(self).wf(),
            final(self).watcher_pool() == old(self).watcher_pool(),
            final(self).working() == old(self).working(),
            final(self).binary() == old(self).binary(),
            (r is Some <==> old(self).archive_pool().valid(archive.0) && old(self).list_pool().slot_count() < 0xFFFF_FFFF),
            match r {
                Some(k) => {
                    &&& inserted_handle(old(self).list_pool(), final(self).list_pool(), k.0)
                    &&& final(self).list_pool().value_of(k.0).items() == old(self).archive_pool().value_of(archive.0).listing()
                    &&& mutated_at(
                        old(self).archive_pool(),
                        final(self).archive_pool(),
                        archive.0,
                    )
                    &&& old(self).archive_pool().value_of(archive.0).unchanged(
                        final(self).archive_pool().value_of(archive.0),
                    )
                    &&& final(self).error() == old(self).error()
                },
                None => {
                    &&& final(self).list_pool() == old(self).list_pool()
                    &&& final(self).archive_pool() == old(self).archive_pool()
                    &&& (!old(self).archive_pool().valid(archive.0) ==> *final(self) == *old(
                        self,
                    ))
                    &&& (old(self).archive_pool().valid(archive.0) ==> final(self).error()
                        is Some)
                },
            },
    {
        if !self.archives.contains(archive.0) {
            return None;
        }
        if self.stringlists.slot_total() >= 0xFFFF_FFFF {
            self.record_failure(pool_full_message());
            return None;
        }
        let a = self.archives.borrow_mut(archive.0);
        let files = a.list_files();
        let h = self.stringlists.insert(files);
        proof {
            lemma_list_values_wf_insert(
                old(self).list_pool(),
                self.stringlists,
                h,
                self.stringlists.value_of(h),
            );
        }
        Some(StringListKey(h))
    }

    /// Uncompressed size of an archive entry by index; exactly the entry's
    /// recorded size for a live handle, an in-range index and a decodable
    /// entry, and the 0 sentinel on every failure.
    pub fn archive_filesize_index(&mut self, key: ArchiveKey, index: usize) -> (r: u64)
        requires
            old(self).wf(),
        ensures
            final(self).wf(),
            final(self).list_pool() == old(self).list_pool(),
            final(self).watcher_pool() == old(self).watcher_pool(),
            final(self).error() == old(self).error(),
            final(self).working() == old(self).working(),
            final(self).binary() == old(self).binary(),
            !old(self).archive_pool().valid(key.0) ==> r == 0 && *final(self) == *old(self),
            old(self).archive_pool().valid(key.0) ==> {
                let a = old(self).archive_pool().value_of(key.0);
                &&& mutated_at(old(self).archive_pool(), final(self).archive_pool(), key.0)
                &&& a.unchanged(final(self).archive_pool().value_of(key.0))
                &&& r == (if index < a.entries().len() && a.entry_ok(index as int) {
                    a.entries()[index as int].1
                } else {
                    0u64
                })
            },
    {
        if !self.archives.contains(key.0) {
            return 0;
        }
        let a = self.archives.borrow_mut(key.0);
        match a.filesize_by_index(index) {
            Ok(s) => s,
            Err(_) => 0,
        }
    }

    /// Uncompressed size of an archive entry by name; exactly the resolved
    /// entry's recorded size for a live handle, a held name and a decodable
    /// entry, and the 0 sentinel on every failure.
    pub fn archive_filesize_name(&mut self, key: ArchiveKey, name: &Vec<u8>) -> (r: u64)
        requires
            old(self).wf(),
        ensures
            final(self).wf(),
            final(self).list_pool() == old(self).list_pool(),
            final(self).watcher_pool() == old(self).watcher_pool(),
            final(self).error() == old(self).error(),
            final(self).working() == old(self).working(),
            final(self).binary() == old(self).binary(),
            !old(self).archive_pool().valid(key.0) ==> r == 0 && *final(self) == *old(self),
            old(self).archive_pool().valid(key.0) ==> {
                let a = old(self).archive_pool().value_of(key.0);
                &&& mutated_at(old(self).archive_pool(), final(self).archive_pool(), key.0)
                &&& a.unchanged(final(self).archive_pool().value_of(key.0))
                &&& r == (match a.lookup(name@) {
                    Some(j) => if a.entry_ok(j) {
                        a.entries()[j].1
                    } else {
                        0u64
                    },
                    None => 0u64,
                })
            },
    {
        if !self.archives.contains(key.0) {
            return 0;
        }
        let a = self.archives.borrow_mut(key.0);
        match a.filesize_by_name(name) {
            Ok(s) => s,
            Err(_) => 0,
        }
    }

    /// Read an archive entry by index into a caller buffer: succeeds, with
    /// the byte count, exactly when the handle is live and the entry
    /// exists, decodes in full and fits; otherwise -1 with the buffer
    /// untouched. Never a partial copy.
    pub fn archive_read_index(
        &mut self,
        key: ArchiveKey,
        index: usize,
        dest: &mut Vec<u8>,
    ) -> (r: i64)
        requires
            old(self).wf(),
            old(dest)@.len() <= 0x7FFF_FFFF_FFFF_FFFF,
        ensures
            final(self).wf(),
            final(self).list_pool() == old(self).list_pool(),
            final(self).watcher_pool() == old(self).watcher_pool(),
            final(self).error() == old(self).error(),
            final(self).working() == old(self).working(),
            final(self).binary() == old(self).binary(),
            r == -1 || r >= 0,
            r == -1 ==> final(dest)@ == old(dest)@,
            !old(self).archive_pool().valid(key.0) ==> r == -1 && *final(self) == *old(self),
            old(self).archive_pool().valid(key.0) ==> {
                let a = old(self).archive_pool().value_of(key.0);
                &&& mutated_at(old(self).archive_pool(), final(self).archive_pool(), key.0)
                &&& a.unchanged(final(self).archive_pool().value_of(key.0))
                &&& (r >= 0 <==> index < a.entries().len() && a.entry_readable(index as int)
                    && a.data(index as int).len() <= old(dest)@.len())
                &&& (r >= 0 ==> r == a.data(index as int).len() && final(dest)@ == a.data(
                    index as int,
                ) + old(dest)@.skip(r as int))
            },
    {
        if !self.archives.contains(key.0) {
            return -1;
        }
        let a = self.archives.borrow_mut(key.0);
        a.read_index_into(index, dest)
    }

    /// Read an archive entry by name into a caller buffer, with the same
    /// bounded-copy contract as `archive_read_index`.
    pub fn archive_read_name(
        &mut self,
        key: ArchiveKey,
        name: &Vec<u8>,
        dest: &mut Vec<u8>,
    ) -> (r: i64)
        requires
            old(self).wf(),
            old(dest)@.len() <= 0x7FFF_FFFF_FFFF_FFFF,
        ensures
            final(self).wf(),
            final(self).list_pool() == old(self).list_pool(),
            final(self).watcher_pool() == old(self).watcher_pool(),
            final(self).error() == old(self).error(),
            final(self).working() == old(self).working(),
            final(self).binary() == old(self).binary(),
            r == -1 || r >= 0,
            r == -1 ==> final(dest)@ == old(dest)@,
            !old(self).archive_pool().valid(key.0) ==> r == -1 && *final(self) == *old(self),
            old(self).archive_pool().valid(key.0) ==> {
                let a = old(self).archive_pool().value_of(key.0);
                &&& mutated_at(old(self).archive_pool(), final(self).archive_pool(), key.0)
                &&& a.unchanged(final(self).archive_pool().value_of(key.0))
                &&& (r >= 0 <==> (a.lookup(name@) matches Some(j) && a.entry_readable(j)
                    && a.data(j).len() <= old(dest)@.len()))
                &&& (r >= 0 ==> (a.lookup(name@) matches Some(j) && r == a.data(j).len()
                    && final(dest)@ == a.data(j) + old(dest)@.skip(r as int)))
            },
    {
        if !self.archives.contains(key.0) {
            return -1;
        }
        let a = self.archives.borrow_mut(key.0);
        a.read_name_into(name, dest)
    }

    /// Start a watcher subscribed to one path; any backend failure is
    /// handed back as its message and nothing is inserted.
    pub fn watch_path_err(&mut self, path: &Vec<u8>, recursive: bool) -> (r: Result<
        WatcherKey,
        Vec<u8>,
    >)
        requires
            old(self).wf(),
        ensures
            final(self).wf(),
            final(self).archive_pool() == old(self).archive_pool(),
            final(self).list_pool() == old(self).list_pool(),
            final(self).error() == old(self).error(),
            final(self).working() == old(self).working(),
            final(self).binary() == old(self).binary(),
            match r {
                Ok(k) => inserted_handle(
                    old(self).watcher_pool(),
                    final(self).watcher_pool(),
                    k.0,
                ) && final(self).watcher_pool().value_of(k.0).watch_set() == Set::<
                    Seq<u8>,
                >::empty().insert(path@),
                Err(_) => *final(self) == *old(self),
            },
            old(self).watcher_pool().slot_count() >= 0xFFFF_FFFF ==> r is Err,
    {
        let mut w = match FileWatcher::new() {
            Ok(w) => w,
            Err(e) => return Err(e),
        };
        match w.watch(path, recursive) {
            Ok(_) => {},
            Err(e) => {
                return Err(e);
            },
        }
        if self.watchers.slot_total() >= 0xFFFF_FFFF {
            return Err(pool_full_message());
        }
        let h = self.watchers.insert(w);
        Ok(WatcherKey(h))
    }

    /// `watch_path_err`, reporting failure through the error slot and the
    /// absent handle.
    pub fn watch_path(&mut self, path: &Vec<u8>, recursive: bool) -> (r: Option<WatcherKey>)
        requires
            old(self).wf(),
        ensures
            final(self).wf(),
            final(self).archive_pool() == old(self).archive_pool(),
            final(self).list_pool() == old(self).list_pool(),
            final(self).working() == old(self).working(),
            final(self).binary() == old(self).binary(),
            match r {
                Some(k) => inserted_handle(
                    old(self).watcher_pool(),
                    final(self).watcher_pool(),
                    k.0,
                ) && final(self).watcher_pool().value_of(k.0).watch_set() == Set::<
                    Seq<u8>,
                >::empty().insert(path@) && final(self).error() == old(self).error(),
                None => final(self).error() is Some && final(self).watcher_pool() == old(self).watcher_pool(),
            },
    {
        match self.watch_path_err(path, recursive) {
            Ok(k) => Some(k),
            Err(e) => {
                self.record_failure(e);
                None
            },
        }
    }

    /// Subscribe an existing watcher to one more path (fan-in): on success
    /// the path joins that watcher's subscription set; an invalid handle or
    /// a refused subscription changes nothing.
    pub fn watch_augment(&mut self, key: WatcherKey, path: &Vec<u8>, recursive: bool) -> (r: Result<
        (),
        Vec<u8>,
    >)
        requires
            old(self).wf(),
        ensures
            final(self).wf(),
            final(self).archive_pool() == old(self).archive_pool(),
            final(self).list_pool() == old(self).list_pool(),
            final(self).error() == old(self).error(),
            final(self).working() == old(self).working(),
            final(self).binary() == old(self).binary(),
            !old(self).watcher_pool().valid(key.0) ==> r is Err && *final(self) == *old(self),
            old(self).watcher_pool().valid(key.0) ==> {
                let w = old(self).watcher_pool().value_of(key.0);
                &&& mutated_at(old(self).watcher_pool(), final(self).watcher_pool(), key.0)
                &&& (r is Ok ==> final(self).watcher_pool().value_of(key.0).watch_set()
                    == w.watch_set().insert(path@))
                &&& (r is Err ==> final(self).watcher_pool().value_of(key.0).watch_set()
                    == w.watch_set())
            },
    {
        if !self.watchers.contains(key.0) {
            return Err(bad_handle_message());
        }
        let w = self.watchers.borrow_mut(key.0);
        w.watch(path, recursive)
    }

    /// Free a watcher, stopping its background worker; an invalid handle is
    /// a no-op reporting absence.
    pub fn watcher_free(&mut self, key: WatcherKey) -> (was_live: bool)
        requires
            old(self).wf(),
        ensures
            final(self).wf(),
            final(self).archive_pool() == old(self).archive_pool(),
            final(self).list_pool() == old(self).list_pool(),
            final(self).error() == old(self).error(),
            final(self).working() == old(self).working(),
            final(self).binary() == old(self).binary(),
            removed(old(self).watcher_pool(), final(self).watcher_pool(), key.0),
            was_live == old(self).watcher_pool().valid(key.0),
    {
        self.watchers.remove(key.0).is_some()
    }

    /// Drain a watcher's buffered events into a new string list. Absence
    /// means the watcher handle is invalid (nothing else is touched then,
    /// per the invalid-handle policy) or the list pool is exhausted (an
    /// error is stored then) — never that there were no events: an empty
    /// list is a valid result.
    pub fn watcher_poll(&mut self, key: WatcherKey) -> (r: Option<StringListKey>)
        requires
            old(self).wf(),
        ensures
            final(self).wf(),
            final(self).archive_pool() == old(self).archive_pool(),
            final(self).working() == old(self).working(),
            final(self).binary() == old(self).binary(),
            (r is Some <==> old(self).watcher_pool().valid(key.0) && old(self).list_pool().slot_count() < 0xFFFF_FFFF),
            match r {
                Some(k) => {
                    &&& inserted_handle(old(self).list_pool(), final(self).list_pool(), k.0)
                    &&& mutated_at(old(self).watcher_pool(), final(self).watcher_pool(), key.0)
                    &&& final(self).watcher_pool().value_of(key.0) == old(
                        self,
                    ).watcher_pool().value_of(key.0)
                    &&& final(self).error() == old(self).error()
                },
                None => {
                    &&& final(self).list_pool() == old(self).list_pool()
                    &&& final(self).watcher_pool() == old(self).watcher_pool()
                    &&& (!old(self).watcher_pool().valid(key.0) ==> *final(self) == *old(self))
                    &&& (old(self).watcher_pool().valid(key.0) ==> final(self).error() is Some)
                },
            },
    {
        if !self.watchers.contains(key.0) {
            return None;
        }
        if self.stringlists.slot_total() >= 0xFFFF_FFFF {
            self.record_failure(pool_full_message());
            return None;
        }
        let w = self.watchers.borrow_mut(key.0);
        let events = w.poll_events();
        let h = self.stringlists.insert(events);
        proof {
            lemma_list_values_wf_insert(
                old(self).list_pool(),
                self.stringlists,
                h,
                self.stringlists.value_of(h),
            );
        }
        Some(StringListKey(h))
    }

    /// Turn the outcome of enumerating one directory level into a new
    /// string list: kept entries formatted in order. The enumeration
    /// failure message is handed back and nothing is inserted.
    pub fn listdir_err(
        &mut self,
        entries: Result<Vec<DirEntry>, Vec<u8>>,
        files_only: bool,
        include_metadata: bool,
    ) -> (r: Result<StringListKey, Vec<u8>>)
        requires
            old(self).wf(),
        ensures
            final(self).wf(),
            Context::only_lists_touched(*old(self), *final(self)),
            (r is Ok <==> entries is Ok && old(self).list_pool().slot_count() < 0xFFFF_FFFF),
            entries matches Err(e) ==> r == Err::<StringListKey, Vec<u8>>(e),
            match r {
                Ok(k) => inserted_handle(old(self).list_pool(), final(self).list_pool(), k.0)
                    && final(self).list_pool().value_of(k.0).items() == dir_listing(
                    entries->Ok_0@,
                    files_only,
                    include_metadata,
                ),
                Err(_) => *final(self) == *old(self),
            },
    {
        let ents = match entries {
            Ok(v) => v,
            Err(e) => return Err(e),
        };
        if self.stringlists.slot_total() >= 0xFFFF_FFFF {
            return Err(pool_full_message());
        }
        let listing = build_dir_listing(&ents, files_only, include_metadata);
        let h = self.stringlists.insert(listing);
        proof {
            lemma_list_values_wf_insert(
                old(self).list_pool(),
                self.stringlists,
                h,
                self.stringlists.value_of(h),
            );
        }
        Ok(StringListKey(h))
    }

    /// `listdir_err`, reporting failure through the error slot and the
    /// absent handle.
    pub fn listdir(
        &mut self,
        entries: Result<Vec<DirEntry>, Vec<u8>>,
        files_only: bool,
        include_metadata: bool,
    ) -> (r: Option<StringListKey>)
        requires
            old(self).wf(),
        ensures
            final(self).wf(),
            final(self).archive_pool() == old(self).archive_pool(),
            final(self).watcher_pool() == old(self).watcher_pool(),
            final(self).working() == old(self).working(),
            final(self).binary() == old(self).binary(),
            (r is Some <==> entries is Ok && old(self).list_pool().slot_count() < 0xFFFF_FFFF),
            entries matches Err(e) ==> (null_free(e@) ==> final(self).error() == Some(e@)),
            match r {
                Some(k) => inserted_handle(old(self).list_pool(), final(self).list_pool(), k.0)
                    && final(self).list_pool().value_of(k.0).items() == dir_listing(
                    entries->Ok_0@,
                    files_only,
                    include_metadata,
                ) && final(self).error() == old(self).error(),
                None => final(self).error() is Some && final(self).list_pool() == old(self).list_pool(),
            },
    {
        match self.listdir_err(entries, files_only, include_metadata) {
            Ok(k) => Some(k),
            Err(e) => {
                self.record_failure(e);
                None
            },
        }
    }

    /// Decompose a path into its components as a new string list: a "/"
    /// for an absolute path, then the non-empty segments in order (a lone
    /// '.' segment only at the very start). Absence
    /// exactly when the path cannot be represented null-free (or the pool
    /// is exhausted), and then a message lands in the error slot, as with
    /// every fallible operation.
    pub fn splitpath(&mut self, path: &Vec<u8>) -> (r: Option<StringListKey>)
        requires
            old(self).wf(),
        ensures
            final(self).wf(),
            final(self).archive_pool() == old(self).archive_pool(),
            final(self).watcher_pool() == old(self).watcher_pool(),
            final(self).working() == old(self).working(),
            final(self).binary() == old(self).binary(),
            (r is Some <==> null_free(path@) && old(self).list_pool().slot_count() < 0xFFFF_FFFF),
            match r {
                Some(k) => inserted_handle(old(self).list_pool(), final(self).list_pool(), k.0)
                    && final(self).list_pool().value_of(k.0).items() == split_components(path@)
                    && final(self).error() == old(self).error(),
                None => final(self).error() is Some && final(self).list_pool() == old(self).list_pool(),
            },
    {
        if has_nul(path) {
            self.record_failure(nul_byte_message());
            return None;
        }
        if self.stringlists.slot_total() >= 0xFFFF_FFFF {
            self.record_failure(pool_full_message());
            return None;
        }
        let mut parts = StringList::new();
        if path.len() > 0 {
            if path[0] == SLASH {
                let mut root: Vec<u8> = Vec::new();
                root.push(SLASH);
                parts.push_clean(root);
            }
        }
        push_segments(&mut parts, path, 0);
        proof {
            assert(parts.items() =~= split_components(path@));
        }
        let h = self.stringlists.insert(parts);
        proof {
            lemma_list_values_wf_insert(
                old(self).list_pool(),
                self.stringlists,
                h,
                self.stringlists.value_of(h),
            );
        }
        Some(StringListKey(h))
    }
}

impl Default for Context {
    /// Same as `Context::new`: empty pools, no pending error.
    fn default() -> (c: Self)
        ensures
            c.wf(),
            c.error() is None,
            c.working() is None,
            c.binary() is None,
            c.archive_pool().slot_count() == 0,
            c.list_pool().slot_count() == 0,
            c.watcher_pool().slot_count() == 0,
            forall|h: u64| !c.archive_pool().valid(h),
            forall|h: u64| !c.list_pool().valid(h),
            forall|h: u64| !c.watcher_pool().valid(h),
    {
        Context::new()
    }
}

} // verus!
