//! Operations on the archives whose mod carries a given tag.
//!
//! Every operation works on the same selection: the archives of a scan whose
//! detected identifier the module lists with the requested tag, in the order
//! of their file names. Every operation passes over a selected archive whose
//! file is no longer on disk: the bundle and the list are told which files
//! are there, and a run is told of each file as its turn comes.

use crate::archive::writer_entries;
use crate::archive::writer_finish;
use crate::archive::writer_new;
use crate::archive::writer_start_file;
use crate::archive::writer_write_all;
use crate::archive::zip_image;
use crate::archive::zip_starts;
use crate::archive::zip_takes;
use crate::archive::BundleWriter;
use crate::reconcile::ArchiveFile;
use crate::registry::ModView;
use crate::registry::Module;
use crate::sorted_map::lemma_map_of_dom;
use crate::sorted_map::lemma_map_of_value;
use crate::sorted_map::SortedMap;
use crate::tags::DefaultTags;
use crate::text::same_text;
use vstd::prelude::*;
use vstd::string::StringExecFns;
use zip::result::ZipError;

verus! {

/// The module lists `mod_id` with the tag `tag`.
pub open spec fn carries_tag(mods: Map<Seq<char>, ModView>, mod_id: Seq<char>, tag: DefaultTags) -> bool {
    mods.contains_key(mod_id) && mods[mod_id].mod_tag == tag
}

/// The archive `file_name` is selected by `tag`: the scan found an identifier
/// in it, and the module lists that identifier with this tag.
pub open spec fn matches_tag(
    jar_to_modid: Map<Seq<char>, Seq<char>>,
    mods: Map<Seq<char>, ModView>,
    tag: DefaultTags,
    file_name: Seq<char>,
) -> bool {
    jar_to_modid.contains_key(file_name) && carries_tag(mods, jar_to_modid[file_name], tag)
}

/// The identifiers of a scan's mapping, by file name.
pub open spec fn ids_view(jar_to_modid: SortedMap<String>) -> Map<Seq<char>, Seq<char>> {
    jar_to_modid@.map_values(|id: String| id@)
}

/// The file names that `tag` selects, in the order of the mapping.
pub open spec fn selection(
    jar_to_modid: SortedMap<String>,
    mods: Map<Seq<char>, ModView>,
    tag: DefaultTags,
) -> Seq<Seq<char>> {
    jar_to_modid.keys().filter(|name: Seq<char>| matches_tag(ids_view(jar_to_modid), mods, tag, name))
}

/// The selection holds exactly the file names that the tag selects.
pub proof fn lemma_selection_holds_the_matches(
    jar_to_modid: SortedMap<String>,
    mods: Map<Seq<char>, ModView>,
    tag: DefaultTags,
    file_name: Seq<char>,
)
    ensures
        selection(jar_to_modid, mods, tag).contains(file_name) <==> matches_tag(
            ids_view(jar_to_modid),
            mods,
            tag,
            file_name,
        ),
{
    let wanted = |name: Seq<char>| matches_tag(ids_view(jar_to_modid), mods, tag, name);
    let keys = jar_to_modid.keys();
    let chosen = keys.filter(wanted);
    if chosen.contains(file_name) {
        let i = choose|i: int| 0 <= i < chosen.len() && chosen[i] == file_name;
        keys.lemma_filter_pred(wanted, i);
    }
    if matches_tag(ids_view(jar_to_modid), mods, tag, file_name) {
        lemma_map_of_dom(jar_to_modid.listing(), file_name);
        let i = choose|i: int|
            0 <= i < jar_to_modid.listing().len() && (#[trigger] jar_to_modid.listing()[i]).0
                == file_name;
        assert(keys[i] == file_name);
        keys.lemma_filter_contains(wanted, i);
    }
}

/// An archive in which the scan found no identifier, or one that the module
/// does not list, is selected by no tag, not even by `Unknown`.
pub proof fn lemma_unlisted_never_selected(
    jar_to_modid: SortedMap<String>,
    mods: Map<Seq<char>, ModView>,
    tag: DefaultTags,
    file_name: Seq<char>,
)
    requires
        ids_view(jar_to_modid).contains_key(file_name) ==> !mods.contains_key(
            ids_view(jar_to_modid)[file_name],
        ),
    ensures
        !selection(jar_to_modid, mods, tag).contains(file_name),
{
    lemma_selection_holds_the_matches(jar_to_modid, mods, tag, file_name);
}

/// What a sequence of strings stands for.
pub open spec fn names_view(names: Seq<String>) -> Seq<Seq<char>> {
    names.map_values(|name: String| name@)
}

/// The file names that `tag` selects, in the order of the mapping.
pub fn files_with_tag(jar_to_modid: &SortedMap<String>, module: &Module, tag: DefaultTags) -> (found:
    Vec<String>)
    requires
        jar_to_modid.wf(),
        module.wf(),
    ensures
        names_view(found@) == selection(*jar_to_modid, module@.mods, tag),
{
    let ghost all = jar_to_modid.keys();
    let ghost wanted = |name: Seq<char>| matches_tag(ids_view(*jar_to_modid), module@.mods, tag, name);
    let mut found: Vec<String> = Vec::new();
    let mut at: usize = 0;
    assert(all.take(0).filter(wanted) =~= Seq::<Seq<char>>::empty()) by {
        reveal(Seq::filter);
    }
    while at < jar_to_modid.len()
        invariant
            at <= jar_to_modid.listing().len(),
            jar_to_modid.wf(),
            module.wf(),
            all == jar_to_modid.keys(),
            wanted == |name: Seq<char>|
                matches_tag(ids_view(*jar_to_modid), module@.mods, tag, name),
            names_view(found@) == all.take(at as int).filter(wanted),
        decreases jar_to_modid.listing().len() - at,
    {
        let name = jar_to_modid.key_at(at);
        let mod_id = jar_to_modid.value_at(at);
        proof {
            reveal(Seq::filter);
            lemma_map_of_value(jar_to_modid.listing(), at as int);
            assert(all.take(at + 1).drop_last() =~= all.take(at as int));
            assert(all.take(at + 1).last() == name@);
        }
        let selected = match module.get_mod_type(mod_id.as_str()) {
            Some(found_tag) => *found_tag == tag,
            None => false,
        };
        if selected {
            let ghost before = found@;
            let copy = name.clone();
            found.push(copy);
            assert(names_view(found@) =~= names_view(before).push(name@));
        }
        at += 1;
    }
    assert(all.take(at as int) =~= all);
    found
}

/// The text that lists `names`, each on a line of its own.
pub open spec fn lines_of(names: Seq<Seq<char>>) -> Seq<char>
    decreases names.len(),
{
    if names.len() == 0 {
        Seq::empty()
    } else {
        lines_of(names.drop_last()) + names.last() + seq!['\n']
    }
}

/// The text that lists `names`, each on a line of its own.
pub fn names_listing(names: &Vec<String>) -> (text: String)
    ensures
        text@ == lines_of(names_view(names@)),
{
    let ghost all = names_view(names@);
    let mut text = String::new();
    let mut at: usize = 0;
    proof {
        reveal_strlit("\n");
    }
    while at < names.len()
        invariant
            at <= names.len(),
            all == names_view(names@),
            "\n"@ == seq!['\n'],
            text@ == lines_of(all.take(at as int)),
        decreases names.len() - at,
    {
        proof {
            assert(all.take(at + 1).drop_last() =~= all.take(at as int));
            assert(all.take(at + 1).last() == names@[at as int]@);
        }
        text.append(names[at].as_str());
        text.append("\n");
        at += 1;
    }
    assert(all.take(at as int) =~= all);
    text
}

/// The list of the selected file names as text, and their number.
#[derive(Debug)]
pub struct NameList {
    pub text: String,
    pub count: usize,
}

/// Those of `names` that are among `present`, in the order of `names`.
pub open spec fn still_there(names: Seq<Seq<char>>, present: Seq<Seq<char>>) -> Seq<Seq<char>> {
    names.filter(|name: Seq<char>| present.contains(name))
}

/// Whether `name` is among `present`.
pub fn is_among(present: &Vec<String>, name: &str) -> (found: bool)
    ensures
        found == names_view(present@).contains(name@),
{
    let ghost all = names_view(present@);
    let mut at: usize = 0;
    while at < present.len()
        invariant
            at <= present.len(),
            all == names_view(present@),
            forall|j: int| 0 <= j < at ==> all[j] != name@,
        decreases present.len() - at,
    {
        if same_text(present[at].as_str(), name) {
            assert(all[at as int] == name@);
            return true;
        }
        at += 1;
    }
    false
}

/// Those of `names` that are among `present`, in the order of `names`.
pub fn names_still_there(names: &Vec<String>, present: &Vec<String>) -> (kept: Vec<String>)
    ensures
        names_view(kept@) == still_there(names_view(names@), names_view(present@)),
{
    let ghost all = names_view(names@);
    let ghost wanted = |name: Seq<char>| names_view(present@).contains(name);
    let mut kept: Vec<String> = Vec::new();
    let mut at: usize = 0;
    assert(all.take(0).filter(wanted) =~= Seq::<Seq<char>>::empty()) by {
        reveal(Seq::filter);
    }
    while at < names.len()
        invariant
            at <= names.len(),
            all == names_view(names@),
            wanted == |name: Seq<char>| names_view(present@).contains(name),
            names_view(kept@) == all.take(at as int).filter(wanted),
        decreases names.len() - at,
    {
        proof {
            reveal(Seq::filter);
            assert(all.take(at + 1).drop_last() =~= all.take(at as int));
            assert(all.take(at + 1).last() == names@[at as int]@);
        }
        if is_among(present, names[at].as_str()) {
            let ghost before = kept@;
            let name = names[at].clone();
            kept.push(name);
            assert(names_view(kept@) =~= names_view(before).push(name@));
        }
        at += 1;
    }
    assert(all.take(at as int) =~= all);
    kept
}

/// Lists the file names that `tag` selects and that are still on disk, one
/// on each line, in the order of the mapping. `present` holds the names of
/// the files that are on disk now; a selected archive that is not among them
/// is passed over: it has no line and is not counted.
pub fn write_names_with_tag(
    present: &Vec<String>,
    jar_to_modid: &SortedMap<String>,
    module: &Module,
    tag: DefaultTags,
) -> (list: NameList)
    requires
        jar_to_modid.wf(),
        module.wf(),
    ensures
        list.text@ == lines_of(
            still_there(selection(*jar_to_modid, module@.mods, tag), names_view(present@)),
        ),
        list.count == still_there(
            selection(*jar_to_modid, module@.mods, tag),
            names_view(present@),
        ).len(),
{
    let selected = files_with_tag(jar_to_modid, module, tag);
    let names = names_still_there(&selected, present);
    NameList { text: names_listing(&names), count: names.len() }
}

/// A selected archive whose file is gone has no line in the list and is not
/// counted; one whose file is there has its line.
pub proof fn lemma_gone_is_not_listed(
    names: Seq<Seq<char>>,
    present: Seq<Seq<char>>,
    file_name: Seq<char>,
)
    ensures
        still_there(names, present).contains(file_name) <==> names.contains(file_name)
            && present.contains(file_name),
        still_there(names, present).len() <= names.len(),
{
    let wanted = |name: Seq<char>| present.contains(name);
    let kept = names.filter(wanted);
    names.lemma_filter_len(wanted);
    if kept.contains(file_name) {
        let i = choose|i: int| 0 <= i < kept.len() && kept[i] == file_name;
        names.lemma_filter_pred(wanted, i);
        lemma_filter_from(names, wanted, i);
    }
    if names.contains(file_name) && present.contains(file_name) {
        let i = choose|i: int| 0 <= i < names.len() && names[i] == file_name;
        names.lemma_filter_contains(wanted, i);
    }
}

/// Every element of a filtered sequence is an element of the sequence.
proof fn lemma_filter_from(
    names: Seq<Seq<char>>,
    wanted: spec_fn(Seq<char>) -> bool,
    at: int,
)
    requires
        0 <= at < names.filter(wanted).len(),
    ensures
        names.contains(names.filter(wanted)[at]),
    decreases names.len(),
{
    reveal(Seq::filter);
    if names.len() > 0 {
        let earlier = names.drop_last().filter(wanted);
        if at < earlier.len() {
            lemma_filter_from(names.drop_last(), wanted, at);
            let j = choose|j: int| 0 <= j < names.drop_last().len() && names.drop_last()[j] == earlier[at];
            assert(names[j] == earlier[at]);
        } else {
            assert(names[names.len() - 1] == names.last());
        }
    }
}

/// The content of the first file from position `from` on that is named
/// `name`.
pub open spec fn content_of(files: Seq<ArchiveFile>, name: Seq<char>, from: int) -> Option<Seq<u8>>
    decreases files.len() - from,
{
    if from < 0 || from >= files.len() {
        None
    } else if files[from].name@ == name {
        Some(files[from].bytes@)
    } else {
        content_of(files, name, from + 1)
    }
}

/// The entries of a bundle: for each of `names` that is among `files`, in
/// order, the name with the content of that file.
pub open spec fn bundle_entries(files: Seq<ArchiveFile>, names: Seq<Seq<char>>) -> Seq<
    (Seq<char>, Seq<u8>),
>
    decreases names.len(),
{
    if names.len() == 0 {
        Seq::empty()
    } else {
        let earlier = bundle_entries(files, names.drop_last());
        match content_of(files, names.last(), 0) {
            Some(bytes) => earlier.push((names.last(), bytes)),
            None => earlier,
        }
    }
}

/// A writer that holds the entries before position `at` takes the entry at
/// `at`, with its name and then its content.
pub open spec fn takes_entry(entries: Seq<(Seq<char>, Seq<u8>)>, at: int) -> bool {
    let earlier = entries.take(at);
    let entry = entries[at];
    &&& zip_starts(earlier, entry.0)
    &&& zip_takes(earlier.push((entry.0, Seq::<u8>::empty())), entry.1)
}

/// The position of the first among the first `upto` entries that a writer
/// does not take.
pub open spec fn first_refused(entries: Seq<(Seq<char>, Seq<u8>)>, upto: int) -> Option<int>
    decreases upto,
{
    if upto <= 0 {
        None
    } else {
        match first_refused(entries, upto - 1) {
            Some(at) => Some(at),
            None => if takes_entry(entries, upto - 1) {
                None
            } else {
                Some(upto - 1)
            },
        }
    }
}

/// An entry that is refused stays the first refused one when more entries
/// follow.
pub proof fn lemma_refusal_stays(entries: Seq<(Seq<char>, Seq<u8>)>, at: int, upto: int)
    requires
        first_refused(entries, at) is Some,
        at <= upto,
    ensures
        first_refused(entries, upto) == first_refused(entries, at),
    decreases upto - at,
{
    if at < upto {
        lemma_refusal_stays(entries, at, upto - 1);
    }
}

/// A new archive with the number of files in it.
#[derive(Debug)]
pub struct Bundle {
    pub bytes: Vec<u8>,
    pub count: usize,
}

/// Why an archive could not be bundled, with the error of the `zip` crate.
#[derive(Debug)]
pub enum BundleError {
    /// The writer did not take the file of this name.
    Entry { file_name: String, cause: ZipError },
    /// The archive could not be finished.
    Finish(ZipError),
}

/// The kind of a failed bundling.
pub enum BundleFault {
    /// The writer did not take the file of this name.
    Entry(Seq<char>),
    /// The archive could not be finished.
    Finish,
}

impl BundleError {
    /// The kind of this failure.
    pub open spec fn fault(&self) -> BundleFault {
        match self {
            BundleError::Entry { file_name, .. } => BundleFault::Entry(file_name@),
            BundleError::Finish(_) => BundleFault::Finish,
        }
    }
}

/// What the outcome of a bundling stands for: the bytes of the new archive
/// with the number of its entries, or the kind of the failure.
pub open spec fn bundle_view(outcome: Result<Bundle, BundleError>) -> Result<
    (Seq<u8>, int),
    BundleFault,
> {
    match outcome {
        Ok(bundle) => Ok((bundle.bytes@, bundle.count as int)),
        Err(e) => Err(e.fault()),
    }
}

/// The outcome that is due for the bundling of `entries`: the bytes of the
/// archive that holds them all, unless the writer refuses one of them or
/// cannot finish the archive.
pub open spec fn bundle_of(entries: Seq<(Seq<char>, Seq<u8>)>) -> Result<(Seq<u8>, int), BundleFault> {
    match first_refused(entries, entries.len() as int) {
        Some(at) => Err(BundleFault::Entry(entries[at].0)),
        None => match zip_image(entries) {
            Some(bytes) => Ok((bytes, entries.len() as int)),
            None => Err(BundleFault::Finish),
        },
    }
}

/// The first of `files` that is named `name`.
fn find_file<'a>(files: &'a Vec<ArchiveFile>, name: &str) -> (found: Option<&'a ArchiveFile>)
    ensures
        (match found {
            Some(file) => content_of(files@, name@, 0) == Some(file.bytes@),
            None => content_of(files@, name@, 0) is None,
        }),
{
    let mut at: usize = 0;
    while at < files.len()
        invariant
            at <= files.len(),
            content_of(files@, name@, 0) == content_of(files@, name@, at as int),
        decreases files.len() - at,
    {
        if same_text(files[at].name.as_str(), name) {
            return Some(&files[at]);
        }
        at += 1;
    }
    None
}

/// Adds one entry with its whole content.
fn add_entry(writer: &mut BundleWriter, name: &str, bytes: &[u8]) -> (r: Result<(), ZipError>)
    ensures
        r is Ok <==> (zip_starts(writer_entries(*old(writer)), name@) && zip_takes(
            writer_entries(*old(writer)).push((name@, Seq::<u8>::empty())),
            bytes@,
        )),
        r is Ok ==> writer_entries(*final(writer)) == writer_entries(*old(writer)).push(
            (name@, bytes@),
        ),
{
    match writer_start_file(writer, name) {
        Ok(()) => {},
        Err(e) => { return Err(e); },
    }
    let ghost started = writer_entries(*writer);
    match writer_write_all(writer, bytes) {
        Ok(()) => {},
        Err(e) => { return Err(e); },
    }
    proof {
        assert(started.drop_last() =~= writer_entries(*old(writer)));
    }
    Ok(())
}

/// Bundles those of `names` that are among `files` into a new archive, each
/// under its name and with the bytes of the file, in the order of `names`.
pub fn bundle_files(files: &Vec<ArchiveFile>, names: &Vec<String>) -> (r: Result<
    Bundle,
    BundleError,
>)
    ensures
        bundle_view(r) == bundle_of(bundle_entries(files@, names_view(names@))),
{
    let ghost all = names_view(names@);
    let ghost planned = bundle_entries(files@, all);
    let mut writer = writer_new();
    let mut count: usize = 0;
    let mut at: usize = 0;
    while at < names.len()
        invariant
            at <= names.len(),
            count <= at,
            all == names_view(names@),
            planned == bundle_entries(files@, all),
            writer_entries(writer) == bundle_entries(files@, all.take(at as int)),
            count == writer_entries(writer).len(),
            writer_entries(writer) == planned.take(count as int),
            first_refused(planned, count as int) is None,
        decreases names.len() - at,
    {
        proof {
            assert(all.take(at + 1).drop_last() =~= all.take(at as int));
            assert(all.take(at + 1).last() == names@[at as int]@);
            lemma_bundle_grows(files@, all, at + 1);
        }
        match find_file(files, names[at].as_str()) {
            Some(file) => {
                proof {
                    let next = bundle_entries(files@, all.take(at + 1));
                    assert(next == writer_entries(writer).push((names@[at as int]@, file.bytes@)));
                    assert(planned.take(count + 1) == next);
                    assert(planned[count as int] == planned.take(count + 1)[count as int]);
                }
                match add_entry(&mut writer, names[at].as_str(), file.bytes.as_slice()) {
                    Ok(()) => {},
                    Err(cause) => {
                        proof {
                            lemma_refusal_stays(planned, count + 1, planned.len() as int);
                        }
                        return Err(BundleError::Entry { file_name: names[at].clone(), cause });
                    },
                }
                count += 1;
            },
            None => {},
        }
        at += 1;
    }
    proof {
        assert(all.take(at as int) =~= all);
        assert(planned.take(count as int) =~= planned);
    }
    match writer_finish(writer) {
        Ok(bytes) => Ok(Bundle { bytes, count }),
        Err(e) => Err(BundleError::Finish(e)),
    }
}

/// The entries for the first `upto` names are the beginning of the entries
/// for all names.
pub proof fn lemma_bundle_grows(files: Seq<ArchiveFile>, names: Seq<Seq<char>>, upto: int)
    requires
        0 <= upto <= names.len(),
    ensures
        bundle_entries(files, names.take(upto)).len() <= bundle_entries(files, names).len(),
        bundle_entries(files, names).take(bundle_entries(files, names.take(upto)).len() as int)
            == bundle_entries(files, names.take(upto)),
    decreases names.len() - upto,
{
    if upto == names.len() {
        assert(names.take(upto) =~= names);
        assert(bundle_entries(files, names).take(bundle_entries(files, names).len() as int)
            =~= bundle_entries(files, names));
    } else {
        lemma_bundle_grows(files, names, upto + 1);
        assert(names.take(upto + 1).drop_last() =~= names.take(upto));
        let shorter = bundle_entries(files, names.take(upto));
        let longer = bundle_entries(files, names.take(upto + 1));
        let all = bundle_entries(files, names);
        assert(longer.take(shorter.len() as int) =~= shorter);
        assert(all.take(shorter.len() as int) =~= all.take(longer.len() as int).take(
            shorter.len() as int,
        ));
    }
}

/// Bundles the archives that `tag` selects into a new archive. `present`
/// holds the files that are on disk now; a selected archive that is not
/// among them is passed over. The files are copied byte for byte, each under
/// its own name, in the order of the mapping.
pub fn zip_files_with_tag(
    present: &Vec<ArchiveFile>,
    jar_to_modid: &SortedMap<String>,
    module: &Module,
    tag: DefaultTags,
) -> (r: Result<Bundle, BundleError>)
    requires
        jar_to_modid.wf(),
        module.wf(),
    ensures
        bundle_view(r) == bundle_of(
            bundle_entries(present@, selection(*jar_to_modid, module@.mods, tag)),
        ),
{
    let names = files_with_tag(jar_to_modid, module, tag);
    bundle_files(present, &names)
}

/// The operations that are carried out file by file on disk.
#[derive(Clone, Copy, Debug, PartialEq, Eq, Structural)]
pub enum Operation {
    Delete,
    Move,
}

/// What is to be done next in a run.
#[derive(Debug, PartialEq, Eq)]
pub enum Action {
    /// Remove this file from the directory, if it is still there.
    Remove(String),
    /// Rename this file into the destination, under the same name, if it is
    /// still there.
    Rename(String),
    /// Copy this file into the destination, under the same name, and remove
    /// it from the directory.
    CopyThenRemove(String),
    /// Nothing is left to do.
    Finish,
}

/// The mathematical content of an `Action`.
pub enum ActionView {
    Remove(Seq<char>),
    Rename(Seq<char>),
    CopyThenRemove(Seq<char>),
    Finish,
}

impl View for Action {
    type V = ActionView;

    open spec fn view(&self) -> ActionView {
        match self {
            Action::Remove(name) => ActionView::Remove(name@),
            Action::Rename(name) => ActionView::Rename(name@),
            Action::CopyThenRemove(name) => ActionView::CopyThenRemove(name@),
            Action::Finish => ActionView::Finish,
        }
    }
}

/// How an action ended.
#[derive(Clone, Copy, Debug, PartialEq, Eq, Structural)]
pub enum Outcome {
    /// The file was no longer there; nothing was done.
    Missing,
    /// The action was carried out.
    Done,
    /// A rename was refused.
    Failed,
}

/// A run of one operation over the archives that a tag selects. The caller
/// carries out each action and reports how it ended.
#[derive(Debug)]
pub struct TagRun {
    operation: Operation,
    names: Vec<String>,
    next: usize,
    fallback: bool,
    count: usize,
}

impl TagRun {
    /// The operation of this run.
    pub closed spec fn operation(&self) -> Operation {
        self.operation
    }

    /// The file names that the run works through, in order.
    pub closed spec fn targets(&self) -> Seq<Seq<char>> {
        names_view(self.names@)
    }

    /// The number of files that the run is through with.
    pub closed spec fn position(&self) -> nat {
        self.next as nat
    }

    /// Whether a rename of the current file was refused.
    pub closed spec fn in_fallback(&self) -> bool {
        self.fallback
    }

    /// The number of files on which the operation was carried out.
    pub closed spec fn done(&self) -> nat {
        self.count as nat
    }

    /// The run is valid.
    pub closed spec fn wf(&self) -> bool {
        &&& self.next <= self.names@.len()
        &&& self.count <= self.next
        &&& self.fallback ==> self.operation == Operation::Move && self.next < self.names@.len()
    }

    /// The action that is due.
    pub open spec fn due(&self) -> ActionView {
        if self.position() >= self.targets().len() {
            ActionView::Finish
        } else {
            let name = self.targets()[self.position() as int];
            match self.operation() {
                Operation::Delete => ActionView::Remove(name),
                Operation::Move => if self.in_fallback() {
                    ActionView::CopyThenRemove(name)
                } else {
                    ActionView::Rename(name)
                },
            }
        }
    }

    /// Starts a run of `operation` over the archives that `tag` selects.
    pub fn begin(
        operation: Operation,
        jar_to_modid: &SortedMap<String>,
        module: &Module,
        tag: DefaultTags,
    ) -> (run: TagRun)
        requires
            jar_to_modid.wf(),
            module.wf(),
        ensures
            run.wf(),
            run.operation() == operation,
            run.targets() == selection(*jar_to_modid, module@.mods, tag),
            run.position() == 0,
            run.done() == 0,
            !run.in_fallback(),
    {
        TagRun {
            operation,
            names: files_with_tag(jar_to_modid, module, tag),
            next: 0,
            fallback: false,
            count: 0,
        }
    }

    /// The action that is due.
    pub fn next_action(&self) -> (action: Action)
        requires
            self.wf(),
        ensures
            action@ == self.due(),
    {
        if self.next >= self.names.len() {
            Action::Finish
        } else {
            let name = self.names[self.next].clone();
            match self.operation {
                Operation::Delete => Action::Remove(name),
                Operation::Move => if self.fallback {
                    Action::CopyThenRemove(name)
                } else {
                    Action::Rename(name)
                },
            }
        }
    }

    /// Takes note of how the due action ended. A refused rename makes the
    /// copy of the same file due; every other outcome ends the work on the
    /// file, and `Done` counts it.
    pub fn report(&mut self, outcome: Outcome)
        requires
            old(self).wf(),
            old(self).due() != ActionView::Finish,
            outcome == Outcome::Failed ==> old(self).due() is Rename,
        ensures
            final(self).wf(),
            final(self).operation() == old(self).operation(),
            final(self).targets() == old(self).targets(),
            final(self).in_fallback() == (outcome == Outcome::Failed),
            final(self).position() == old(self).position() + (if outcome == Outcome::Failed {
                0nat
            } else {
                1nat
            }),
            final(self).done() == old(self).done() + (if outcome == Outcome::Done {
                1nat
            } else {
                0nat
            }),
    {
        assert(self.targets().len() == self.names.len());
        match outcome {
            Outcome::Failed => {
                self.fallback = true;
            },
            Outcome::Done => {
                self.fallback = false;
                self.next = self.next + 1;
                self.count = self.count + 1;
            },
            Outcome::Missing => {
                self.fallback = false;
                self.next = self.next + 1;
            },
        }
    }

    /// The number of files on which the operation was carried out.
    pub fn count(&self) -> (count: usize)
        ensures
            count == self.done(),
    {
        self.count
    }
}

/// Starts the removal of the archives that `tag` selects. Nothing but the
/// tag decides: every selected archive comes up for removal.
pub fn delete_files_with_tag(jar_to_modid: &SortedMap<String>, module: &Module, tag: DefaultTags) -> (run:
    TagRun)
    requires
        jar_to_modid.wf(),
        module.wf(),
    ensures
        run.wf(),
        run.operation() == Operation::Delete,
        run.targets() == selection(*jar_to_modid, module@.mods, tag),
        run.position() == 0,
        run.done() == 0,
        !run.in_fallback(),
{
    TagRun::begin(Operation::Delete, jar_to_modid, module, tag)
}

/// Starts the move of the archives that `tag` selects into another
/// directory, each under its own name.
pub fn move_files_with_tag(jar_to_modid: &SortedMap<String>, module: &Module, tag: DefaultTags) -> (run:
    TagRun)
    requires
        jar_to_modid.wf(),
        module.wf(),
    ensures
        run.wf(),
        run.operation() == Operation::Move,
        run.targets() == selection(*jar_to_modid, module@.mods, tag),
        run.position() == 0,
        run.done() == 0,
        !run.in_fallback(),
{
    TagRun::begin(Operation::Move, jar_to_modid, module, tag)
}

} // verus!
