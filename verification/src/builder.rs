use vstd::prelude::*;
use vstd::string::*;
use crate::archive::entry_views;
use crate::archive::packed;
use crate::archive::pack;
use crate::archive::packs;
use crate::archive::short_form;
use crate::archive::writes;
use crate::archive::EntryView;
use crate::archive::PackedEntry;
use crate::container::copy_range;
use crate::error::ErrorKind;

verus! {

/// Something selected for packing, as found on disk.
#[derive(Debug)]
pub enum Target {
    /// A regular file: its base name and its bytes.
    File { name: String, content: Vec<u8> },
    /// A directory: its base name and every file below it, each named by its
    /// path relative to the directory.
    Directory { name: String, files: Vec<PackedEntry> },
    /// Neither a file nor a directory.
    Other,
}

/// Mathematical model of a [`Target`].
pub ghost enum TargetView {
    File { name: Seq<char>, content: Seq<u8> },
    Directory { name: Seq<char>, files: Seq<EntryView> },
    Other,
}

impl View for Target {
    type V = TargetView;

    open spec fn view(&self) -> TargetView {
        match self {
            Target::File { name, content } => TargetView::File { name: name@, content: content@ },
            Target::Directory { name, files } => TargetView::Directory {
                name: name@,
                files: entry_views(files@),
            },
            Target::Other => TargetView::Other,
        }
    }
}

/// The models of a sequence of targets, in order.
pub open spec fn target_views(targets: Seq<Target>) -> Seq<TargetView> {
    Seq::new(targets.len(), |i: int| targets[i]@)
}

/// The name under which a file of a directory is packed: the directory's
/// base name, a separator, and the file's path relative to the directory.
pub open spec fn nested_name(directory: Seq<char>, relative: Seq<char>) -> Seq<char> {
    directory + seq!['/'] + relative
}

/// The entries that one target contributes.
pub open spec fn entries_of(target: TargetView) -> Seq<EntryView> {
    match target {
        TargetView::File { name, content } => seq![EntryView { name, content }],
        TargetView::Directory { name, files } => Seq::new(
            files.len(),
            |i: int| EntryView { name: nested_name(name, files[i].name), content: files[i].content },
        ),
        TargetView::Other => Seq::empty(),
    }
}

/// The entries that a sequence of targets contributes, target by target.
pub open spec fn expanded(targets: Seq<TargetView>) -> Seq<EntryView>
    decreases targets.len(),
{
    if targets.len() == 0 {
        Seq::empty()
    } else {
        expanded(targets.drop_last()) + entries_of(targets.last())
    }
}

/// Whether some target is neither a file nor a directory.
pub open spec fn has_invalid(targets: Seq<TargetView>) -> bool {
    exists|i: int| 0 <= i < targets.len() && #[trigger] targets[i] is Other
}

/// One more target adds exactly its own entries.
proof fn lemma_expanded_step(targets: Seq<TargetView>, i: int)
    requires
        0 <= i < targets.len(),
    ensures
        expanded(targets.subrange(0, i + 1)) == expanded(targets.subrange(0, i)) + entries_of(
            targets[i],
        ),
{
    let upto = targets.subrange(0, i + 1);
    assert(upto.drop_last() =~= targets.subrange(0, i));
    assert(upto.last() == targets[i]);
}

/// Copies a string.
fn copy_str(text: &str) -> (copy: String)
    ensures
        copy@ == text@,
{
    String::from_str(text)
}

/// Builds the name of a directory's file inside the archive.
fn join_name(directory: &str, relative: &str) -> (name: String)
    ensures
        name@ == nested_name(directory@, relative@),
{
    let mut name = String::from_str(directory);
    proof {
        reveal_strlit("/");
    }
    name.append("/");
    name.append(relative);
    assert("/"@ =~= seq!['/']);
    name
}

/// Appends to `out` the entries that the files of one directory contribute.
fn push_directory(out: &mut Vec<PackedEntry>, name: &str, files: &Vec<PackedEntry>)
    ensures
        entry_views(final(out)@) == entry_views(old(out)@) + entries_of(
            TargetView::Directory { name: name@, files: entry_views(files@) },
        ),
{
    let ghost start = entry_views(out@);
    let ghost added = entries_of(TargetView::Directory { name: name@, files: entry_views(files@) });
    let mut i: usize = 0;
    while i < files.len()
        invariant
            i <= files.len(),
            added == entries_of(TargetView::Directory { name: name@, files: entry_views(files@) }),
            entry_views(out@) == start + added.subrange(0, i as int),
        decreases files.len() - i,
    {
        let file = &files[i];
        let entry = PackedEntry {
            name: join_name(name, file.name.as_str()),
            content: copy_range(file.content.as_slice(), 0, file.content.len()),
        };
        assert(entry.content@ =~= file.content@);
        assert(entry@ == added[i as int]);
        let ghost earlier = out@;
        assert(entry_views(earlier).len() == start.len() + i);
        out.push(entry);
        assert(entry_views(out@) =~= start + added.subrange(0, i + 1)) by {
            assert forall|k: int| 0 <= k < earlier.len() implies entry_views(out@)[k] == (start
                + added.subrange(0, i + 1))[k] by {
                assert(entry_views(earlier)[k] == (start + added.subrange(0, i as int))[k]);
            }
        }
        i += 1;
    }
    assert(added.subrange(0, i as int) =~= added);
}

/// Turns the targets into the entries to pack: a file under its own base
/// name, every file of a directory under the directory's base name, a
/// separator and its relative path; in the order of the targets.
///
/// Fails with [`ErrorKind::InvalidTarget`] exactly when some target is
/// neither a file nor a directory, and then yields no entry at all.
pub fn expand(targets: &Vec<Target>) -> (result: Result<Vec<PackedEntry>, ErrorKind>)
    ensures
        has_invalid(target_views(targets@)) ==> (result matches Err(e) && e
            == ErrorKind::InvalidTarget),
        !has_invalid(target_views(targets@)) ==> (result matches Ok(entries) && entry_views(
            entries@,
        ) == expanded(target_views(targets@))),
{
    let ghost views = target_views(targets@);
    let mut out: Vec<PackedEntry> = Vec::new();
    let mut i: usize = 0;
    assert(views.subrange(0, 0) =~= Seq::<TargetView>::empty());
    assert(entry_views(out@) =~= expanded(views.subrange(0, 0)));
    while i < targets.len()
        invariant
            i <= targets.len(),
            views == target_views(targets@),
            forall|k: int| 0 <= k < i ==> !(#[trigger] views[k] is Other),
            entry_views(out@) == expanded(views.subrange(0, i as int)),
        decreases targets.len() - i,
    {
        proof {
            lemma_expanded_step(views, i as int);
        }
        match &targets[i] {
            Target::File { name, content } => {
                let entry = PackedEntry {
                    name: copy_str(name.as_str()),
                    content: copy_range(content.as_slice(), 0, content.len()),
                };
                assert(entry.content@ =~= content@);
                let ghost earlier = out@;
                assert(entry_views(earlier).len() == earlier.len());
                out.push(entry);
                assert(entry_views(out@) =~= entry_views(earlier) + entries_of(views[i as int]))
                    by {
                    assert forall|k: int| 0 <= k < earlier.len() implies entry_views(out@)[k]
                        == entry_views(earlier)[k] by {}
                }
            },
            Target::Directory { name, files } => {
                push_directory(&mut out, name.as_str(), files);
            },
            Target::Other => {
                assert(views[i as int] is Other);
                return Err(ErrorKind::InvalidTarget);
            },
        }
        i += 1;
    }
    assert(views.subrange(0, i as int) =~= views);
    Ok(out)
}

/// Builds the raw archive of the targets.
///
/// A target that is neither a file nor a directory aborts the build with
/// [`ErrorKind::InvalidTarget`]. Otherwise the build succeeds exactly when
/// the entries that the targets contribute can be packed, and fails with
/// [`ErrorKind::InvalidArchive`] when they cannot; entries that can be
/// written into an archive of fewer than 65535 entries and fewer than
/// 2^32 - 1 bytes can be packed. On success the bytes are the archive of
/// exactly those entries, in order.
pub fn build(targets: &Vec<Target>) -> (result: Result<Vec<u8>, ErrorKind>)
    ensures
        has_invalid(target_views(targets@)) ==> (result matches Err(e) && e
            == ErrorKind::InvalidTarget),
        !has_invalid(target_views(targets@)) ==> (result is Ok <==> packs(
            expanded(target_views(targets@)),
        )),
        !has_invalid(target_views(targets@)) ==> (result matches Err(e) ==> e
            == ErrorKind::InvalidArchive),
        !has_invalid(target_views(targets@)) && writes(expanded(target_views(targets@)))
            && short_form(
            expanded(target_views(targets@)),
            packed(expanded(target_views(targets@))).len(),
        ) ==> result is Ok,
        result matches Ok(bytes) ==> bytes@ == packed(expanded(target_views(targets@))),
{
    match expand(targets) {
        Ok(entries) => pack(&entries),
        Err(e) => Err(e),
    }
}

/// Counts the files that the targets contribute: one for a file, one for
/// each file of a directory. The count is `None` only if it does not fit.
pub fn count_files_in_paths(targets: &Vec<Target>) -> (total: Option<usize>)
    ensures
        match total {
            Some(n) => n == expanded(target_views(targets@)).len(),
            None => expanded(target_views(targets@)).len() > usize::MAX,
        },
{
    let ghost views = target_views(targets@);
    let mut total: usize = 0;
    let mut i: usize = 0;
    assert(views.subrange(0, 0) =~= Seq::<TargetView>::empty());
    while i < targets.len()
        invariant
            i <= targets.len(),
            views == target_views(targets@),
            total == expanded(views.subrange(0, i as int)).len(),
        decreases targets.len() - i,
    {
        proof {
            lemma_expanded_step(views, i as int);
        }
        let count: usize = match &targets[i] {
            Target::File { .. } => 1,
            Target::Directory { files, .. } => files.len(),
            Target::Other => 0,
        };
        assert(count == entries_of(views[i as int]).len());
        match total.checked_add(count) {
            Some(sum) => {
                total = sum;
            },
            None => {
                proof {
                    lemma_expanded_grows(views, i as int + 1);
                }
                return None;
            },
        }
        i += 1;
    }
    assert(views.subrange(0, i as int) =~= views);
    Some(total)
}

/// A prefix of the targets contributes no more entries than all of them.
proof fn lemma_expanded_grows(targets: Seq<TargetView>, i: int)
    requires
        0 <= i <= targets.len(),
    ensures
        expanded(targets.subrange(0, i)).len() <= expanded(targets).len(),
    decreases targets.len() - i,
{
    if i == targets.len() {
        assert(targets.subrange(0, i) =~= targets);
    } else {
        lemma_expanded_step(targets, i);
        lemma_expanded_grows(targets, i + 1);
    }
}

} // verus!
