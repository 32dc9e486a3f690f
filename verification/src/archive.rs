use vstd::prelude::*;
use vstd::string::*;
use std::io::Cursor;
use std::io::Read;
use std::io::Write;
use zip::write::SimpleFileOptions;
use zip::DateTime;
use zip::ZipArchive;
use zip::ZipWriter;
use crate::error::ErrorKind;

verus! {

/// `std::io::Cursor`, the in-memory reader that an archive is opened on.
#[verifier::external_type_specification]
#[verifier::external_body]
#[verifier::reject_recursive_types(T)]
pub struct ExCursor<T>(std::io::Cursor<T>);

/// An archive under construction in memory: a `zip::ZipWriter` over an
/// in-memory buffer.
#[verifier::external_body]
pub struct ArchiveWriter {
    inner: ZipWriter<Cursor<Vec<u8>>>,
}

/// `zip::ZipArchive`, an opened archive.
#[verifier::external_type_specification]
#[verifier::external_body]
#[verifier::reject_recursive_types(R)]
pub struct ExZipArchive<R>(zip::ZipArchive<R>);

/// `zip::result::ZipError`, the failure of writing or reading an archive.
#[verifier::external_type_specification]
#[verifier::external_body]
pub struct ExZipError(zip::result::ZipError);

/// `std::io::Error`, the failure of writing bytes into an archive.
#[verifier::external_type_specification]
#[verifier::external_body]
pub struct ExIoError(std::io::Error);

/// One packed entry: a name and the bytes stored under it.
#[derive(Debug)]
pub struct PackedEntry {
    pub name: String,
    pub content: Vec<u8>,
}

/// Mathematical model of a [`PackedEntry`].
pub ghost struct EntryView {
    pub name: Seq<char>,
    pub content: Seq<u8>,
}

impl View for PackedEntry {
    type V = EntryView;

    open spec fn view(&self) -> EntryView {
        EntryView { name: self.name@, content: self.content@ }
    }
}

/// The entries that have been written to an archive under construction, in
/// the order in which they were started.
pub uninterp spec fn written(writer: ArchiveWriter) -> Seq<EntryView>;

/// What an opened archive holds, in the order of its directory: each entry
/// as reading it to the end gives it, or nothing where it cannot be read.
pub uninterp spec fn held(archive: ZipArchive<Cursor<Vec<u8>>>) -> Seq<Option<EntryView>>;

/// What the archive that `bytes` encode holds, if they encode one.
pub uninterp spec fn listing(bytes: Seq<u8>) -> Option<Seq<Option<EntryView>>>;

/// Whether an entry of the given name is accepted after `entries` have
/// been written.
pub uninterp spec fn accepts_name(entries: Seq<EntryView>, name: Seq<char>) -> bool;

/// Whether `bytes` are accepted as the content of the entry that was
/// started last, `entries` being what has been written.
pub uninterp spec fn accepts_content(entries: Seq<EntryView>, bytes: Seq<u8>) -> bool;

/// Whether an archive of `entries` can be finished.
pub uninterp spec fn finishes(entries: Seq<EntryView>) -> bool;

/// The bytes of the finished archive of `entries`.
pub uninterp spec fn packed(entries: Seq<EntryView>) -> Seq<u8>;

/// Whether an entry has been started in the archive under construction and
/// is still open for its content.
pub uninterp spec fn has_open_entry(writer: ArchiveWriter) -> bool;

/// Longest entry name, in bytes, that an archive can record.
pub const MAX_NAME_LEN: usize = 65535;

/// Number of entries from which on an archive may need the long form of its
/// end record.
pub const LONG_FORM_ENTRIES: usize = 65535;

/// Length in bytes from which on an archive may need the long form of its
/// end record.
pub const LONG_FORM_BYTES: usize = 0xFFFF_FFFF;

/// Calls `ZipWriter::new` on an empty in-memory buffer: nothing is written
/// yet.
#[verifier::external_body]
fn new_writer() -> (writer: ArchiveWriter)
    ensures
        written(writer) == Seq::<EntryView>::empty(),
{
    ArchiveWriter { inner: ZipWriter::new(Cursor::new(Vec::new())) }
}

/// Whether some entry of `entries` carries `name`.
pub open spec fn has_name(entries: Seq<EntryView>, name: Seq<char>) -> bool {
    exists|i: int| 0 <= i < entries.len() && #[trigger] entries[i].name == name
}

/// Calls `ZipWriter::start_file` with the default options and the earliest
/// modification time, so that nothing of the archive depends on the clock.
/// Whether the name is accepted depends on the name and on what has been
/// written; a name that is already in the archive is refused. On success a
/// new, empty entry of that name follows the entries written so far and is
/// open. The call panics on a name of more than 65535 bytes, which the
/// precondition excludes.
#[verifier::external_body]
fn start_file(writer: &mut ArchiveWriter, name: &str) -> (result: Result<
    (),
    zip::result::ZipError,
>)
    requires
        name.spec_bytes().len() <= MAX_NAME_LEN,
    ensures
        result is Ok <==> accepts_name(written(*old(writer)), name@),
        has_name(written(*old(writer)), name@) ==> result is Err,
        result is Ok ==> has_open_entry(*final(writer)) && written(*final(writer)) == written(
            *old(writer),
        ).push(EntryView { name: name@, content: Seq::<u8>::empty() }),
{
    let options = SimpleFileOptions::default().last_modified_time(DateTime::default());
    writer.inner.start_file(name, options)
}

/// The entries after `bytes` have been written: they follow what the last
/// entry already holds.
pub open spec fn extended(entries: Seq<EntryView>, bytes: Seq<u8>) -> Seq<EntryView> {
    if entries.len() > 0 {
        entries.update(
            entries.len() - 1,
            EntryView { name: entries.last().name, content: entries.last().content + bytes },
        )
    } else {
        entries
    }
}

/// Calls `Write::write_all` of the writer, once for an open entry that
/// holds nothing yet. Whether the bytes are accepted depends on the bytes
/// and on what has been written; on success they are the content of the
/// last entry.
#[verifier::external_body]
fn write_all(writer: &mut ArchiveWriter, bytes: &[u8]) -> (result: Result<(), std::io::Error>)
    requires
        has_open_entry(*old(writer)),
        written(*old(writer)).len() > 0,
        written(*old(writer)).last().content.len() == 0,
    ensures
        result is Ok <==> accepts_content(written(*old(writer)), bytes@),
        result is Ok ==> written(*final(writer)) == extended(written(*old(writer)), bytes@),
{
    writer.inner.write_all(bytes)
}

/// Every entry of `entries`, as one that can be read.
pub open spec fn intact(entries: Seq<EntryView>) -> Seq<Option<EntryView>> {
    Seq::new(entries.len(), |i: int| Some(entries[i]))
}

/// Calls `ZipWriter::finish` and takes the buffer out of the cursor it
/// returns. Whether it succeeds, and which bytes it returns, depends on
/// what has been written. An archive of fewer than 65535 entries and fewer
/// than 2^32 - 1 bytes is closed by the short form of the end record, and
/// the reader then finds the entries written, in their order, each
/// readable. Of what the reader makes of a larger archive nothing is
/// claimed.
#[verifier::external_body]
fn finish(writer: ArchiveWriter) -> (result: Result<Vec<u8>, zip::result::ZipError>)
    ensures
        result is Ok <==> finishes(written(writer)),
        result matches Ok(bytes) ==> bytes@ == packed(written(writer)),
        result matches Ok(bytes) ==> (written(writer).len() < LONG_FORM_ENTRIES && bytes.len()
            < LONG_FORM_BYTES ==> listing(bytes@) == Some(intact(written(writer)))),
{
    writer.inner.finish().map(|cursor| cursor.into_inner())
}

/// Calls `ZipArchive::new` on an in-memory copy of `bytes`. Whether the
/// bytes are accepted, and what the archive then holds, depends on the
/// bytes alone.
#[verifier::external_body]
fn open_archive(bytes: &[u8]) -> (result: Result<
    ZipArchive<Cursor<Vec<u8>>>,
    zip::result::ZipError,
>)
    ensures
        match result {
            Ok(archive) => listing(bytes@) == Some(held(archive)),
            Err(_) => listing(bytes@) is None,
        },
{
    ZipArchive::new(Cursor::new(bytes.to_vec()))
}

/// Calls `ZipArchive::len`: the number of entries.
#[verifier::external_body]
fn archive_len(archive: &ZipArchive<Cursor<Vec<u8>>>) -> (len: usize)
    ensures
        len == held(*archive).len(),
{
    archive.len()
}

/// Calls `ZipArchive::by_index` and copies out the name and the content of
/// the entry it hands over. It succeeds exactly on an index within the
/// archive whose entry can be read to the end. The archive holds afterwards
/// what it held before.
#[verifier::external_body]
fn read_entry(archive: &mut ZipArchive<Cursor<Vec<u8>>>, index: usize) -> (result: Result<
    PackedEntry,
    zip::result::ZipError,
>)
    ensures
        held(*final(archive)) == held(*old(archive)),
        match result {
            Ok(entry) => index < held(*old(archive)).len() && held(*old(archive))[index as int]
                == Some(entry@),
            Err(_) => index >= held(*old(archive)).len() || held(*old(archive))[index as int]
                is None,
        },
{
    let mut file = archive.by_index(index)?;
    let mut content = Vec::new();
    file.read_to_end(&mut content)?;
    Ok(PackedEntry { name: file.name().to_string(), content })
}

/// The models of a sequence of entries, in order.
pub open spec fn entry_views(entries: Seq<PackedEntry>) -> Seq<EntryView> {
    Seq::new(entries.len(), |i: int| entries[i]@)
}

/// No two entries carry the same name.
pub open spec fn names_distinct(entries: Seq<EntryView>) -> bool {
    forall|i: int, j: int|
        0 <= i < j < entries.len() ==> (#[trigger] entries[i]).name != (#[trigger] entries[j]).name
}

/// Length of `name` in bytes, as an archive records it.
pub open spec fn name_len(name: Seq<char>) -> nat {
    vstd::utf8::encode_utf8(name).len()
}

/// Every name fits the archive's name field.
pub open spec fn names_fit(entries: Seq<EntryView>) -> bool {
    forall|i: int| 0 <= i < entries.len() ==> name_len((#[trigger] entries[i]).name) <= MAX_NAME_LEN
}

/// Whether entry `i` is taken after the entries before it: its name is
/// accepted, and then its content.
pub open spec fn takes(entries: Seq<EntryView>, i: int) -> bool {
    let before = entries.subrange(0, i);
    &&& accepts_name(before, entries[i].name)
    &&& accepts_content(
        before.push(EntryView { name: entries[i].name, content: Seq::<u8>::empty() }),
        entries[i].content,
    )
}

/// Whether `entries` can be written: every name fits, every entry is taken
/// in its turn, and the archive can be finished.
pub open spec fn writes(entries: Seq<EntryView>) -> bool {
    &&& names_fit(entries)
    &&& forall|i: int| 0 <= i < entries.len() ==> #[trigger] takes(entries, i)
    &&& finishes(entries)
}

/// Whether an archive of `entries` that is `len` bytes long is within what
/// the short form of the end record describes.
pub open spec fn short_form(entries: Seq<EntryView>, len: nat) -> bool {
    entries.len() < LONG_FORM_ENTRIES && len < LONG_FORM_BYTES
}

/// Whether every entry can be read.
pub open spec fn all_read(entries: Seq<Option<EntryView>>) -> bool {
    forall|i: int| 0 <= i < entries.len() ==> (#[trigger] entries[i]) is Some
}

/// The entries that unpacking `bytes` gives: those of the archive that the
/// bytes encode, where they encode one and each of its entries can be read.
pub open spec fn unpacked(bytes: Seq<u8>) -> Option<Seq<EntryView>> {
    match listing(bytes) {
        Some(entries) => if all_read(entries) {
            Some(Seq::new(entries.len(), |i: int| entries[i]->Some_0))
        } else {
            None
        },
        None => None,
    }
}

/// Whether `entries` can be packed: they can be written, and the archive
/// written unpacks to exactly these entries.
pub open spec fn packs(entries: Seq<EntryView>) -> bool {
    writes(entries) && unpacked(packed(entries)) == Some(entries)
}

/// Tells whether two byte strings are the same.
fn same_bytes(a: &[u8], b: &[u8]) -> (answer: bool)
    ensures
        answer == (a@ == b@),
{
    if a.len() != b.len() {
        return false;
    }
    let mut i: usize = 0;
    while i < a.len()
        invariant
            i <= a.len() == b.len(),
            forall|k: int| 0 <= k < i ==> a@[k] == b@[k],
        decreases a.len() - i,
    {
        if a[i] != b[i] {
            return false;
        }
        i += 1;
    }
    assert(a@ =~= b@);
    true
}

/// Tells whether two sequences of entries are the same, names and contents,
/// in the same order.
fn same_entries(a: &Vec<PackedEntry>, b: &Vec<PackedEntry>) -> (answer: bool)
    ensures
        answer == (entry_views(a@) == entry_views(b@)),
{
    if a.len() != b.len() {
        assert(entry_views(a@).len() != entry_views(b@).len());
        return false;
    }
    let mut i: usize = 0;
    while i < a.len()
        invariant
            i <= a.len() == b.len(),
            forall|k: int| 0 <= k < i ==> (#[trigger] entry_views(a@)[k]) == entry_views(b@)[k],
        decreases a.len() - i,
    {
        let same = a[i].name == b[i].name && same_bytes(
            a[i].content.as_slice(),
            b[i].content.as_slice(),
        );
        if !same {
            assert(entry_views(a@)[i as int] != entry_views(b@)[i as int]);
            return false;
        }
        i += 1;
    }
    assert(entry_views(a@) =~= entry_views(b@));
    true
}

/// Packs `entries`, in order, into one raw archive.
///
/// The call succeeds exactly when the entries can be packed: no name
/// occurs twice, every name has at most 65535 bytes, the archive can be
/// written, and what was written unpacks to exactly the given entries. An
/// archive of fewer than 65535 entries and fewer than 2^32 - 1 bytes is
/// known to do so; a larger one is read back before it is returned. The
/// only error is [`ErrorKind::InvalidArchive`], and nothing of a partial
/// archive is returned with it.
pub fn pack(entries: &Vec<PackedEntry>) -> (result: Result<Vec<u8>, ErrorKind>)
    ensures
        result is Ok <==> packs(entry_views(entries@)),
        result matches Ok(bytes) ==> bytes@ == packed(entry_views(entries@)),
        writes(entry_views(entries@)) && short_form(
            entry_views(entries@),
            packed(entry_views(entries@)).len(),
        ) ==> result is Ok,
        !names_distinct(entry_views(entries@)) ==> result is Err,
        result matches Err(e) ==> e == ErrorKind::InvalidArchive,
{
    let ghost views = entry_views(entries@);
    let mut writer = new_writer();
    let mut i: usize = 0;
    while i < entries.len()
        invariant
            i <= entries.len(),
            views == entry_views(entries@),
            written(writer) == views.subrange(0, i as int),
            names_distinct(written(writer)),
            names_fit(written(writer)),
            forall|k: int| 0 <= k < i ==> #[trigger] takes(views, k),
        decreases entries.len() - i,
    {
        let entry = &entries[i];
        let ghost before = written(writer);
        if entry.name.as_str().as_bytes().len() > MAX_NAME_LEN {
            assert(name_len(views[i as int].name) > MAX_NAME_LEN);
            return Err(ErrorKind::InvalidArchive);
        }
        if start_file(&mut writer, entry.name.as_str()).is_err() {
            assert(!takes(views, i as int));
            return Err(ErrorKind::InvalidArchive);
        }
        if write_all(&mut writer, entry.content.as_slice()).is_err() {
            assert(!takes(views, i as int));
            return Err(ErrorKind::InvalidArchive);
        }
        proof {
            let after = written(writer);
            assert(after[i as int].content =~= entry.content@);
            assert(after =~= views.subrange(0, i + 1));
            assert(!has_name(before, entry.name@));
            assert forall|a: int, b: int| 0 <= a < b < after.len() implies (#[trigger] after[a]).name
                != (#[trigger] after[b]).name by {
                if b == i as int {
                    assert(before[a].name == after[a].name);
                } else {
                    assert(before[a].name == after[a].name);
                    assert(before[b].name == after[b].name);
                }
            }
            assert(takes(views, i as int));
        }
        i += 1;
    }
    assert(views.subrange(0, i as int) =~= views);
    let bytes = match finish(writer) {
        Ok(bytes) => bytes,
        Err(_) => {
            return Err(ErrorKind::InvalidArchive);
        },
    };
    proof {
        lemma_intact_unpacks(bytes@, views);
    }
    if entries.len() < LONG_FORM_ENTRIES && bytes.len() < LONG_FORM_BYTES {
        return Ok(bytes);
    }
    match unpack(bytes.as_slice()) {
        Ok(read_back) => {
            if same_entries(&read_back, entries) {
                Ok(bytes)
            } else {
                Err(ErrorKind::InvalidArchive)
            }
        },
        Err(_) => Err(ErrorKind::InvalidArchive),
    }
}

/// An archive that lists entries, each readable, unpacks to those entries.
proof fn lemma_intact_unpacks(bytes: Seq<u8>, entries: Seq<EntryView>)
    ensures
        listing(bytes) == Some(intact(entries)) ==> unpacked(bytes) == Some(entries),
{
    if listing(bytes) == Some(intact(entries)) {
        assert(all_read(intact(entries)));
        assert(unpacked(bytes)->Some_0 =~= entries);
    }
}

/// Unpacks a raw archive into its entries, in the order of its directory.
///
/// The call succeeds exactly when the bytes encode an archive and each of
/// its entries can be read back; the entries are then exactly those of the
/// archive. The only error is [`ErrorKind::InvalidArchive`].
pub fn unpack(bytes: &[u8]) -> (result: Result<Vec<PackedEntry>, ErrorKind>)
    ensures
        match unpacked(bytes@) {
            Some(listed) => result matches Ok(entries) && entry_views(entries@) == listed,
            None => result matches Err(e) && e == ErrorKind::InvalidArchive,
        },
{
    let mut archive = match open_archive(bytes) {
        Ok(archive) => archive,
        Err(_) => {
            return Err(ErrorKind::InvalidArchive);
        },
    };
    let ghost all = held(archive);
    let count = archive_len(&archive);
    let mut entries: Vec<PackedEntry> = Vec::new();
    let mut i: usize = 0;
    while i < count
        invariant
            i <= count == all.len(),
            held(archive) == all,
            listing(bytes@) == Some(all),
            entry_views(entries@).len() == i,
            forall|k: int| 0 <= k < i ==> (#[trigger] all[k]) == Some(entry_views(entries@)[k]),
        decreases count - i,
    {
        match read_entry(&mut archive, i) {
            Ok(entry) => {
                let ghost earlier = entries@;
                entries.push(entry);
                assert forall|k: int| 0 <= k < i + 1 implies (#[trigger] all[k]) == Some(
                    entry_views(entries@)[k],
                ) by {
                    if k < i {
                        assert(entry_views(entries@)[k] == entry_views(earlier)[k]);
                    }
                }
            },
            Err(_) => {
                assert(all[i as int] is None);
                return Err(ErrorKind::InvalidArchive);
            },
        }
        i += 1;
    }
    assert(all_read(all));
    assert(unpacked(bytes@)->Some_0 =~= entry_views(entries@));
    Ok(entries)
}

} // verus!
