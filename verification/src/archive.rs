//! Opened archive: a compressed container held in memory, with entry
//! listing, per-entry sizes and whole-entry reads. The container decoder is
//! the `zip` crate, consumed through a narrow trusted interface; everything
//! around it (record formatting, bounds decisions) is verified.
use vstd::prelude::*;

verus! {

use crate::bytefmt::{dec_seq, lemma_dec_seq_digits, push_dec, COLON, DIGIT0, SP};
use crate::strlist::{null_free, StringList};

/// ASCII 'F': the entry is a plain file.
pub const KIND_FILE: u8 = 70;

/// ASCII 'D': the entry is a directory.
pub const KIND_DIR: u8 = 68;

/// ASCII '?': the entry is neither (a symbolic link, say).
pub const KIND_OTHER: u8 = 63;

/// ASCII 'X': the entry's stored path is unsafe and its name is withheld.
pub const MARK_UNSAFE: u8 = 88;

#[verifier::external_type_specification]
#[verifier::external_body]
#[verifier::reject_recursive_types(T)]
pub struct ExCursor<T>(std::io::Cursor<T>);

#[verifier::external_type_specification]
#[verifier::external_body]
#[verifier::reject_recursive_types(R)]
pub struct ExZipArchive<R>(zip::ZipArchive<R>);

/// The decoder state over the archive's bytes.
pub type ZipBackend = zip::ZipArchive<std::io::Cursor<Vec<u8>>>;

/// One entry's metadata: its safe name (absent when the stored path is
/// unsafe or unrepresentable), uncompressed size, and kind flags.
pub type ZipEntry = (Option<Seq<u8>>, u64, bool, bool);

/// The entry table of an opened archive, in archive order: what
/// `ZipArchive::by_index` exposes through `enclosed_name`, `size`,
/// `is_file` and `is_dir`.
pub uninterp spec fn zip_entries(z: ZipBackend) -> Seq<ZipEntry>;

/// The decompressed contents of entry `i`.
pub uninterp spec fn zip_data(z: ZipBackend, i: int) -> Seq<u8>;

/// The entry index `ZipArchive::by_name` resolves a name to, if any; a
/// name that is not valid text resolves to nothing, since `by_name` only
/// takes text.
pub uninterp spec fn zip_lookup(z: ZipBackend, name: Seq<u8>) -> Option<int>;

/// Whether `ZipArchive::by_index(i)` succeeds on this archive: the entry
/// exists and its header decodes. The decoder reads fixed in-memory bytes,
/// so this is a function of the archive value and the index alone.
pub uninterp spec fn zip_entry_ok(z: ZipBackend, i: int) -> bool;

/// Whether entry `i` decodes in full (`by_index` plus `read_to_end`, with
/// its checksum); deterministic for the same reason.
pub uninterp spec fn zip_entry_readable(z: ZipBackend, i: int) -> bool;

/// Whether the decoder accepts these bytes as an archive. ZipArchive::new
/// reads only the bytes it is given, so acceptance is a function of them.
pub uninterp spec fn zip_parses(bytes: Seq<u8>) -> bool;

/// The entry table the decoder derives from accepted bytes; deterministic
/// for the same reason.
pub uninterp spec fn zip_entries_of(bytes: Seq<u8>) -> Seq<ZipEntry>;

/// The models above are functions of the archive's bytes alone; a call
/// that only moves the decoder's read position leaves them all unchanged.
pub open spec fn zip_model_unchanged(a: ZipBackend, b: ZipBackend) -> bool {
    &&& zip_entries(b) == zip_entries(a)
    &&& forall|i: int| #[trigger] zip_data(b, i) == zip_data(a, i)
    &&& forall|name: Seq<u8>| #[trigger] zip_lookup(b, name) == zip_lookup(a, name)
    &&& forall|i: int| #[trigger] zip_entry_ok(b, i) == zip_entry_ok(a, i)
    &&& forall|i: int| #[trigger] zip_entry_readable(b, i) == zip_entry_readable(a, i)
}

/// Exec-side copy of one entry's metadata.
pub struct EntryMeta {
    pub name: Option<Vec<u8>>,
    pub size: u64,
    pub is_file: bool,
    pub is_dir: bool,
}

/// The model entry that `m` carries.
pub open spec fn meta_entry(m: EntryMeta) -> ZipEntry {
    (
        match m.name {
            Some(n) => Some(n@),
            None => None::<Seq<u8>>,
        },
        m.size,
        m.is_file,
        m.is_dir,
    )
}

/// A safe entry name never holds an embedded null byte.
pub open spec fn meta_null_free(m: EntryMeta) -> bool {
    m.name is Some ==> null_free(m.name->Some_0@)
}

/// Relies on zip::ZipArchive::new: parses the central directory of the
/// given bytes, deterministically; a failure is returned as the error's
/// message.
#[verifier::external_body]
fn zip_open(contents: Vec<u8>) -> (r: Result<ZipBackend, Vec<u8>>)
    ensures
        r is Ok <==> zip_parses(contents@),
        r matches Ok(z) ==> zip_entries(z) == zip_entries_of(contents@),
{
    match zip::ZipArchive::new(std::io::Cursor::new(contents)) {
        Ok(z) => Ok(z),
        Err(e) => Err(e.to_string().into_bytes()),
    }
}

/// Relies on zip::ZipArchive::len: the number of entries in the archive.
#[verifier::external_body]
fn zip_len(z: &ZipBackend) -> (n: usize)
    ensures
        n == zip_entries(*z).len(),
{
    z.len()
}

/// Relies on zip::ZipArchive::by_index and the entry accessors
/// enclosed_name (which admits no embedded null byte), size, is_file and
/// is_dir. Reading an entry only moves the decoder's position, so the
/// archive's model is unchanged; the call succeeds exactly when the entry
/// exists and its header decodes.
#[verifier::external_body]
fn zip_entry_meta(z: &mut ZipBackend, i: usize) -> (r: Result<EntryMeta, Vec<u8>>)
    ensures
        zip_model_unchanged(*old(z), *final(z)),
        (r is Ok <==> i < zip_entries(*old(z)).len() && zip_entry_ok(*old(z), i as int)),
        r matches Ok(m) ==> zip_entries(*old(z))[i as int] == meta_entry(m) && meta_null_free(m),
{
    match z.by_index(i) {
        Ok(f) => Ok(EntryMeta {
            name: f.enclosed_name().map(|p| p.to_string_lossy().into_owned().into_bytes()),
            size: f.size(),
            is_file: f.is_file(),
            is_dir: f.is_dir(),
        }),
        Err(e) => Err(e.to_string().into_bytes()),
    }
}

/// Relies on zip::ZipArchive::by_index and std::io::Read::read_to_end:
/// the call succeeds exactly when the entry exists and decodes in full,
/// and then the returned bytes are the whole decompressed entry.
#[verifier::external_body]
fn zip_read_index(z: &mut ZipBackend, i: usize) -> (r: Result<Vec<u8>, Vec<u8>>)
    ensures
        zip_model_unchanged(*old(z), *final(z)),
        (r is Ok <==> i < zip_entries(*old(z)).len() && zip_entry_readable(*old(z), i as int)),
        r matches Ok(d) ==> d@ == zip_data(*old(z), i as int),
{
    let mut f = match z.by_index(i) {
        Ok(f) => f,
        Err(e) => return Err(e.to_string().into_bytes()),
    };
    let mut out: Vec<u8> = Vec::new();
    match std::io::Read::read_to_end(&mut f, &mut out) {
        Ok(_) => Ok(out),
        Err(e) => Err(e.to_string().into_bytes()),
    }
}

/// Relies on zip::ZipArchive::by_name (which reads the resolved entry the
/// same way by_index does) and the entry accessors named above: the call
/// succeeds exactly when the name resolves and that entry's header
/// decodes; a name the archive does not hold, or one that is not valid
/// text, always fails.
#[verifier::external_body]
fn zip_name_meta(z: &mut ZipBackend, name: &Vec<u8>) -> (r: Result<EntryMeta, Vec<u8>>)
    ensures
        zip_model_unchanged(*old(z), *final(z)),
        (r is Ok <==> (zip_lookup(*old(z), name@) matches Some(j) && zip_entry_ok(*old(z), j))),
        r matches Ok(m) ==> {
            let l = zip_lookup(*old(z), name@);
            &&& 0 <= l->Some_0 < zip_entries(*old(z)).len()
            &&& zip_entries(*old(z))[l->Some_0] == meta_entry(m)
            &&& meta_null_free(m)
        },
{
    let s = match std::str::from_utf8(name.as_slice()) {
        Ok(s) => s,
        Err(e) => return Err(e.to_string().into_bytes()),
    };
    match z.by_name(s) {
        Ok(f) => Ok(EntryMeta {
            name: f.enclosed_name().map(|p| p.to_string_lossy().into_owned().into_bytes()),
            size: f.size(),
            is_file: f.is_file(),
            is_dir: f.is_dir(),
        }),
        Err(e) => Err(e.to_string().into_bytes()),
    }
}

/// Relies on zip::ZipArchive::by_name and std::io::Read::read_to_end: the
/// call succeeds exactly when the name resolves and that entry decodes in
/// full, and then the returned bytes are the whole decompressed entry.
#[verifier::external_body]
fn zip_read_name(z: &mut ZipBackend, name: &Vec<u8>) -> (r: Result<Vec<u8>, Vec<u8>>)
    ensures
        zip_model_unchanged(*old(z), *final(z)),
        (r is Ok <==> (zip_lookup(*old(z), name@) matches Some(j) && zip_entry_readable(
            *old(z),
            j,
        ))),
        r matches Ok(d) ==> {
            let l = zip_lookup(*old(z), name@);
            &&& 0 <= l->Some_0 < zip_entries(*old(z)).len()
            &&& d@ == zip_data(*old(z), l->Some_0)
        },
{
    let s = match std::str::from_utf8(name.as_slice()) {
        Ok(s) => s,
        Err(e) => return Err(e.to_string().into_bytes()),
    };
    let mut f = match z.by_name(s) {
        Ok(f) => f,
        Err(e) => return Err(e.to_string().into_bytes()),
    };
    let mut out: Vec<u8> = Vec::new();
    match std::io::Read::read_to_end(&mut f, &mut out) {
        Ok(_) => Ok(out),
        Err(e) => Err(e.to_string().into_bytes()),
    }
}

/// Kind marker of a listing record: F for a file, D for a directory, ? for
/// anything else.
pub open spec fn kind_byte(is_file: bool, is_dir: bool) -> u8 {
    if is_file {
        KIND_FILE
    } else if is_dir {
        KIND_DIR
    } else {
        KIND_OTHER
    }
}

/// The listing record of entry `i`: `"{index} {size} {kind}:{name}"`, or
/// `"{index} 0 X:"` when the entry's stored path is unsafe.
pub open spec fn format_zip_entry(i: nat, e: ZipEntry) -> Seq<u8> {
    match e.0 {
        Some(name) => dec_seq(i) + seq![SP] + dec_seq(e.1 as nat) + seq![
            SP,
            kind_byte(e.2, e.3),
            COLON,
        ] + name,
        None => dec_seq(i) + seq![SP, DIGIT0, SP, MARK_UNSAFE, COLON],
    }
}

/// The listing records of the first `n` entries of the archive: one
/// record per decodable entry, in index order; an entry whose header does
/// not decode is skipped.
pub open spec fn zip_listing(z: ZipBackend, n: int) -> Seq<Seq<u8>>
    decreases n,
{
    if n <= 0 {
        Seq::empty()
    } else {
        let rest = zip_listing(z, n - 1);
        if zip_entry_ok(z, n - 1) {
            rest.push(format_zip_entry((n - 1) as nat, zip_entries(z)[n - 1]))
        } else {
            rest
        }
    }
}

/// A listing record of a null-free name is itself null-free.
pub proof fn lemma_format_zip_entry_null_free(i: nat, e: ZipEntry)
    requires
        e.0 is Some ==> null_free(e.0->Some_0),
    ensures
        null_free(format_zip_entry(i, e)),
{
    lemma_dec_seq_digits(i);
    match e.0 {
        Some(name) => {
            lemma_dec_seq_digits(e.1 as nat);
            crate::strlist::lemma_null_free_concat(dec_seq(i), seq![SP]);
            crate::strlist::lemma_null_free_concat(dec_seq(i) + seq![SP], dec_seq(e.1 as nat));
            crate::strlist::lemma_null_free_concat(
                dec_seq(i) + seq![SP] + dec_seq(e.1 as nat),
                seq![SP, kind_byte(e.2, e.3), COLON],
            );
            crate::strlist::lemma_null_free_concat(
                dec_seq(i) + seq![SP] + dec_seq(e.1 as nat) + seq![
                    SP,
                    kind_byte(e.2, e.3),
                    COLON,
                ],
                name,
            );
        },
        None => {
            crate::strlist::lemma_null_free_concat(dec_seq(i), seq![SP, DIGIT0, SP, MARK_UNSAFE, COLON]);
        },
    }
}

/// Render one listing record from an entry's metadata.
fn format_entry_record(i: usize, m: &EntryMeta) -> (r: Vec<u8>)
    ensures
        r@ == format_zip_entry(i as nat, meta_entry(*m)),
{
    let mut out: Vec<u8> = Vec::new();
    push_dec(&mut out, i as u64);
    match &m.name {
        Some(name) => {
            out.push(SP);
            push_dec(&mut out, m.size);
            out.push(SP);
            out.push(
                if m.is_file {
                    KIND_FILE
                } else if m.is_dir {
                    KIND_DIR
                } else {
                    KIND_OTHER
                },
            );
            out.push(COLON);
            out.extend_from_slice(name.as_slice());
        },
        None => {
            out.push(SP);
            out.push(DIGIT0);
            out.push(SP);
            out.push(MARK_UNSAFE);
            out.push(COLON);
        },
    }
    proof {
        assert(out@ =~= format_zip_entry(i as nat, meta_entry(*m)));
    }
    out
}

/// An opened archive.
pub struct Archive {
    zip: ZipBackend,
}

impl Archive {
    /// The entry table of this archive.
    pub closed spec fn entries(self) -> Seq<ZipEntry> {
        zip_entries(self.zip)
    }

    /// The decompressed contents of entry `i`.
    pub closed spec fn data(self, i: int) -> Seq<u8> {
        zip_data(self.zip, i)
    }

    /// The entry index a name resolves to.
    pub closed spec fn lookup(self, name: Seq<u8>) -> Option<int> {
        zip_lookup(self.zip, name)
    }

    /// Whether entry `i` exists and its header decodes.
    pub closed spec fn entry_ok(self, i: int) -> bool {
        zip_entry_ok(self.zip, i)
    }

    /// Whether entry `i` decodes in full.
    pub closed spec fn entry_readable(self, i: int) -> bool {
        zip_entry_readable(self.zip, i)
    }

    /// The full listing: one record per decodable entry, in index order.
    pub closed spec fn listing(self) -> Seq<Seq<u8>> {
        zip_listing(self.zip, zip_entries(self.zip).len() as int)
    }

    /// `listing()` spelled out over the public model: the records of the
    /// first `n` entries, one `format_zip_entry` record per entry whose
    /// header decodes, in index order.
    pub open spec fn listing_prefix(self, n: int) -> Seq<Seq<u8>>
        decreases n,
    {
        if n <= 0 {
            Seq::empty()
        } else {
            let rest = self.listing_prefix(n - 1);
            if self.entry_ok(n - 1) {
                rest.push(format_zip_entry((n - 1) as nat, self.entries()[n - 1]))
            } else {
                rest
            }
        }
    }

    proof fn lemma_listing_prefix_agrees(self, n: int)
        ensures
            zip_listing(self.zip, n) == self.listing_prefix(n),
        decreases n,
    {
        if n > 0 {
            self.lemma_listing_prefix_agrees(n - 1);
        }
    }

    /// The listing is exactly the formatted records of the decodable
    /// entries: one `"{index} {size} {kind}:{name}"` record per entry whose
    /// header decodes, in index order.
    pub proof fn lemma_listing_is_formatted_records(self)
        ensures
            self.listing() == self.listing_prefix(self.entries().len() as int),
    {
        self.lemma_listing_prefix_agrees(self.entries().len() as int);
    }

    /// Everything observable about the archive is unchanged.
    pub open spec fn unchanged(self, other: Self) -> bool {
        &&& other.entries() == self.entries()
        &&& forall|i: int| #[trigger] other.data(i) == self.data(i)
        &&& forall|name: Seq<u8>| #[trigger] other.lookup(name) == self.lookup(name)
        &&& forall|i: int| #[trigger] other.entry_ok(i) == self.entry_ok(i)
        &&& forall|i: int| #[trigger] other.entry_readable(i) == self.entry_readable(i)
    }

    /// Decode an archive from its raw bytes; this succeeds exactly when the
    /// decoder accepts the bytes, and fails with the decoder's message.
    pub fn open(contents: Vec<u8>) -> (r: Result<Archive, Vec<u8>>)
        ensures
            r is Ok <==> zip_parses(contents@),
            r matches Ok(a) ==> a.entries() == zip_entries_of(contents@),
    {
        match zip_open(contents) {
            Ok(z) => Ok(Archive { zip: z }),
            Err(e) => Err(e),
        }
    }

    /// Number of entries in the archive.
    pub fn entry_count(&self) -> (n: usize)
        ensures
            n == self.entries().len(),
    {
        zip_len(&self.zip)
    }

    /// List the archive's entries as `"{index} {size} {kind}:{name}"`
    /// records: exactly one record per decodable entry, in index order; an
    /// entry whose header cannot be decoded is skipped.
    pub fn list_files(&mut self) -> (r: StringList)
        ensures
            old(self).unchanged(*final(self)),
            r.wf(),
            r.items() == old(self).listing(),
    {
        let n = zip_len(&self.zip);
        let mut out = StringList::new();
        let mut i: usize = 0;
        while i < n
            invariant
                n == old(self).entries().len(),
                old(self).unchanged(*self),
                i <= n,
                out.wf(),
                out.items() == zip_listing(old(self).zip, i as int),
            decreases n - i,
        {
            let ghost prev = *self;
            match zip_entry_meta(&mut self.zip, i) {
                Ok(m) => {
                    let rec = format_entry_record(i, &m);
                    proof {
                        lemma_format_zip_entry_null_free(i as nat, meta_entry(m));
                    }
                    out.push_clean(rec);
                },
                Err(_) => {},
            }
            proof {
                assert forall|j: int| #[trigger] self.data(j) == old(self).data(j) by {
                    assert(zip_data(self.zip, j) == zip_data(prev.zip, j));
                    assert(prev.data(j) == old(self).data(j));
                }
                assert forall|nm: Seq<u8>| #[trigger] self.lookup(nm) == old(self).lookup(nm) by {
                    assert(zip_lookup(self.zip, nm) == zip_lookup(prev.zip, nm));
                    assert(prev.lookup(nm) == old(self).lookup(nm));
                }
                assert forall|j: int| #[trigger] self.entry_ok(j) == old(self).entry_ok(j) by {
                    assert(zip_entry_ok(self.zip, j) == zip_entry_ok(prev.zip, j));
                    assert(prev.entry_ok(j) == old(self).entry_ok(j));
                }
                assert forall|j: int| #[trigger] self.entry_readable(j) == old(
                    self,
                ).entry_readable(j) by {
                    assert(zip_entry_readable(self.zip, j) == zip_entry_readable(prev.zip, j));
                    assert(prev.entry_readable(j) == old(self).entry_readable(j));
                }
                assert(prev.entry_ok(i as int) == old(self).entry_ok(i as int));
                assert(prev.entries() == old(self).entries());
                assert(out.items() =~= zip_listing(old(self).zip, i + 1));
            }
            i = i + 1;
        }
        out
    }

    /// Uncompressed size of entry `index`: succeeds exactly when the entry
    /// exists and its header decodes; a failure carries the decoder's
    /// message.
    pub fn filesize_by_index(&mut self, index: usize) -> (r: Result<u64, Vec<u8>>)
        ensures
            old(self).unchanged(*final(self)),
            (r is Ok <==> index < old(self).entries().len() && old(self).entry_ok(index as int)),
            r matches Ok(s) ==> s == old(self).entries()[index as int].1,
    {
        match zip_entry_meta(&mut self.zip, index) {
            Ok(m) => Ok(m.size),
            Err(e) => Err(e),
        }
    }

    /// Uncompressed size of the entry `name` resolves to: succeeds exactly
    /// when the name resolves and that entry's header decodes.
    pub fn filesize_by_name(&mut self, name: &Vec<u8>) -> (r: Result<u64, Vec<u8>>)
        ensures
            old(self).unchanged(*final(self)),
            (r is Ok <==> (old(self).lookup(name@) matches Some(j) && old(self).entry_ok(j))),
            r matches Ok(s) ==> {
                let l = old(self).lookup(name@);
                &&& 0 <= l->Some_0 < old(self).entries().len()
                &&& s == old(self).entries()[l->Some_0].1
            },
    {
        match zip_name_meta(&mut self.zip, name) {
            Ok(m) => Ok(m.size),
            Err(e) => Err(e),
        }
    }

    /// Whole decompressed contents of entry `index`: succeeds exactly when
    /// the entry exists and decodes in full.
    pub fn read_file_by_index(&mut self, index: usize) -> (r: Result<Vec<u8>, Vec<u8>>)
        ensures
            old(self).unchanged(*final(self)),
            (r is Ok <==> index < old(self).entries().len() && old(self).entry_readable(
                index as int,
            )),
            r matches Ok(d) ==> d@ == old(self).data(index as int),
    {
        zip_read_index(&mut self.zip, index)
    }

    /// Whole decompressed contents of the entry `name` resolves to:
    /// succeeds exactly when the name resolves and that entry decodes in
    /// full.
    pub fn read_file_by_name(&mut self, name: &Vec<u8>) -> (r: Result<Vec<u8>, Vec<u8>>)
        ensures
            old(self).unchanged(*final(self)),
            (r is Ok <==> (old(self).lookup(name@) matches Some(j) && old(self).entry_readable(
                j,
            ))),
            r matches Ok(d) ==> {
                let l = old(self).lookup(name@);
                &&& 0 <= l->Some_0 < old(self).entries().len()
                &&& d@ == old(self).data(l->Some_0)
            },
    {
        zip_read_name(&mut self.zip, name)
    }

    /// Read entry `index` fully and copy it into `dest`: succeeds, with
    /// the byte count, exactly when the entry exists, decodes in full and
    /// fits; otherwise -1 with `dest` untouched, never a partial copy.
    pub fn read_index_into(&mut self, index: usize, dest: &mut Vec<u8>) -> (r: i64)
        requires
            old(dest)@.len() <= 0x7FFF_FFFF_FFFF_FFFF,
        ensures
            old(self).unchanged(*final(self)),
            r == -1 || r >= 0,
            (r >= 0 <==> index < old(self).entries().len() && old(self).entry_readable(
                index as int,
            ) && old(self).data(index as int).len() <= old(dest)@.len()),
            r == -1 ==> final(dest)@ == old(dest)@,
            r >= 0 ==> r == old(self).data(index as int).len() && final(dest)@ == old(self).data(
                index as int,
            ) + old(dest)@.skip(r as int),
    {
        match zip_read_index(&mut self.zip, index) {
            Ok(d) => crate::copy_data(&d, dest),
            Err(_) => -1,
        }
    }

    /// Read the entry `name` resolves to and copy it into `dest`, with the
    /// same bounded-copy contract as `read_index_into`.
    pub fn read_name_into(&mut self, name: &Vec<u8>, dest: &mut Vec<u8>) -> (r: i64)
        requires
            old(dest)@.len() <= 0x7FFF_FFFF_FFFF_FFFF,
        ensures
            old(self).unchanged(*final(self)),
            r == -1 || r >= 0,
            (r >= 0 <==> (old(self).lookup(name@) matches Some(j) && old(self).entry_readable(j)
                && old(self).data(j).len() <= old(dest)@.len())),
            r == -1 ==> final(dest)@ == old(dest)@,
            r >= 0 ==> {
                let l = old(self).lookup(name@);
                &&& r == old(self).data(l->Some_0).len()
                &&& final(dest)@ == old(self).data(l->Some_0) + old(dest)@.skip(r as int)
            },
    {
        match zip_read_name(&mut self.zip, name) {
            Ok(d) => crate::copy_data(&d, dest),
            Err(_) => -1,
        }
    }
}

} // verus!
