//! Which models are served and which backend serves them, in terms of the selection's
//! own patterns and of what stands in the model's folder.

use vstd::prelude::*;

use crate::backends;
use crate::backends::RegistrationView;
use crate::child::CommandOutput;
use crate::contract::ContractView;
use crate::cpp;
use crate::cpp::BuildStep;
use crate::cxx;
use crate::folder;
use crate::folder::{Folder, FolderEntry};
use crate::names;
use crate::registry;
use crate::registry::{BackendRegistration, Signature};
use crate::selection;
use crate::selection::Vote;
use crate::status::{Code, StatusView};
use crate::text;
use crate::textproto::TextFile;
use crate::wording;

verus! {

/// Runs of characters, one after the other.
pub open spec fn run_together(runs: Seq<Seq<char>>) -> Seq<char>
    decreases runs.len(),
{
    if runs.len() == 0 {
        Seq::empty()
    } else {
        runs[0] + run_together(runs.skip(1))
    }
}

/// Whether a name is made of one run for each character of a pattern: any run for a
/// `*`, and else the character itself.
pub open spec fn made_of(pattern: Seq<char>, name: Seq<char>, runs: Seq<Seq<char>>) -> bool {
    &&& runs.len() == pattern.len()
    &&& run_together(runs) == name
    &&& forall|i: int|
        0 <= i < pattern.len() ==> pattern[i] == '*' || #[trigger] runs[i] == seq![pattern[i]]
}

/// Whether a pattern covers a name.
pub open spec fn covers(pattern: Seq<char>, name: Seq<char>) -> bool {
    exists|runs: Seq<Seq<char>>| #[trigger] made_of(pattern, name, runs)
}

proof fn lemma_made(pattern: Seq<char>, name: Seq<char>) -> (runs: Seq<Seq<char>>)
    requires
        selection::matches(pattern, name),
    ensures
        made_of(pattern, name, runs),
    decreases pattern.len() + name.len(),
{
    if pattern.len() == 0 {
        assert(run_together(Seq::empty()) =~= name);
        Seq::empty()
    } else if pattern[0] == '*' {
        let rest = pattern.skip(1);
        if selection::matches(rest, name) {
            let below = lemma_made(rest, name);
            let runs = seq![Seq::<char>::empty()] + below;
            assert(runs.skip(1) =~= below);
            assert(run_together(runs) =~= name);
            assert forall|i: int| 0 <= i < pattern.len() implies pattern[i] == '*'
                || #[trigger] runs[i] == seq![pattern[i]] by {
                if i > 0 {
                    assert(rest[i - 1] == '*' || below[i - 1] == seq![rest[i - 1]]);
                }
            }
            runs
        } else {
            let below = lemma_made(pattern, name.skip(1));
            let runs = below.update(0, seq![name[0]] + below[0]);
            let tail = run_together(below.skip(1));
            assert(runs.skip(1) =~= below.skip(1));
            assert(seq![name[0]] + below[0] + tail =~= seq![name[0]] + (below[0] + tail));
            assert(seq![name[0]] + name.skip(1) =~= name);
            assert(run_together(runs) =~= name);
            assert forall|i: int| 0 <= i < pattern.len() implies pattern[i] == '*'
                || #[trigger] runs[i] == seq![pattern[i]] by {
                if i > 0 {
                    assert(runs[i] == below[i]);
                }
            }
            runs
        }
    } else {
        let rest = pattern.skip(1);
        let below = lemma_made(rest, name.skip(1));
        let runs = seq![seq![name[0]]] + below;
        assert(runs.skip(1) =~= below);
        assert(run_together(runs) =~= name);
        assert forall|i: int| 0 <= i < pattern.len() implies pattern[i] == '*'
            || #[trigger] runs[i] == seq![pattern[i]] by {
            if i > 0 {
                assert(rest[i - 1] == '*' || below[i - 1] == seq![rest[i - 1]]);
            }
        }
        runs
    }
}

proof fn lemma_star(pattern: Seq<char>, lead: Seq<char>, name: Seq<char>)
    requires
        pattern.len() > 0,
        pattern[0] == '*',
        selection::matches(pattern.skip(1), name),
    ensures
        selection::matches(pattern, lead + name),
    decreases lead.len(),
{
    if lead.len() == 0 {
        assert(lead + name =~= name);
    } else {
        lemma_star(pattern, lead.skip(1), name);
        assert((lead + name).skip(1) =~= lead.skip(1) + name);
    }
}

proof fn lemma_matches(pattern: Seq<char>, name: Seq<char>, runs: Seq<Seq<char>>)
    requires
        made_of(pattern, name, runs),
    ensures
        selection::matches(pattern, name),
    decreases pattern.len(),
{
    if pattern.len() > 0 {
        let rest = pattern.skip(1);
        let below = runs.skip(1);
        let tail = run_together(below);
        assert forall|i: int| 0 <= i < rest.len() implies rest[i] == '*' || #[trigger] below[i]
            == seq![rest[i]] by {
            assert(pattern[i + 1] == '*' || runs[i + 1] == seq![pattern[i + 1]]);
        }
        lemma_matches(rest, tail, below);
        if pattern[0] == '*' {
            lemma_star(pattern, runs[0], tail);
        } else {
            assert(runs[0] == seq![pattern[0]]);
            assert(name.skip(1) =~= tail);
        }
    }
}

/// A pattern matches exactly the names that are its characters with any run in the
/// place of each `*`.
pub proof fn law_patterns(pattern: Seq<char>, name: Seq<char>)
    ensures
        selection::matches(pattern, name) <==> covers(pattern, name),
{
    if selection::matches(pattern, name) {
        let runs = lemma_made(pattern, name);
        assert(made_of(pattern, name, runs));
    }
    if covers(pattern, name) {
        let runs = choose|runs: Seq<Seq<char>>| #[trigger] made_of(pattern, name, runs);
        lemma_matches(pattern, name, runs);
    }
}

/// What stands before the first `#` of a line.
pub open spec fn uncommented(line: Seq<char>) -> Seq<char> {
    line.take(text::find(line, '#') as int)
}

/// Whether a selection lists an entry: on some line, before its comment, between
/// commas, with white space around it or none, and not blank.
pub open spec fn lists(selection: Seq<char>, entry: Seq<char>) -> bool {
    entry.len() > 0 && exists|i: int, j: int|
        0 <= i < text::lines(selection).len() && 0 <= j < text::split(
            uncommented(text::lines(selection)[i]),
            ',',
        ).len() && entry == text::trim(
            #[trigger] text::split(uncommented(text::lines(selection)[i]), ',')[j],
        )
}

/// Whether an entry leaves names out.
pub open spec fn is_exclusion(entry: Seq<char>) -> bool {
    entry.len() > 0 && entry[0] == '!'
}

/// Whether a selection leaves a name out.
pub open spec fn leaves_out(selection: Seq<char>, name: Seq<char>) -> bool {
    exists|entry: Seq<char>|
        #[trigger] lists(selection, entry) && is_exclusion(entry) && covers(
            text::trim(entry.skip(1)),
            name,
        )
}

/// Whether a selection asks for a name.
pub open spec fn asks_for(selection: Seq<char>, name: Seq<char>) -> bool {
    exists|entry: Seq<char>|
        #[trigger] lists(selection, entry) && !is_exclusion(entry) && covers(entry, name)
}

/// Whether a selection asks for any names at all.
pub open spec fn asks_for_some(selection: Seq<char>) -> bool {
    exists|entry: Seq<char>| #[trigger] lists(selection, entry) && !is_exclusion(entry)
}

proof fn lemma_parts_from(lines: Seq<Seq<char>>, k: int) -> (at: (int, int))
    requires
        0 <= k < selection::selection_parts(lines).len(),
    ensures
        0 <= at.0 < lines.len(),
        0 <= at.1 < text::split(uncommented(lines[at.0]), ',').len(),
        selection::selection_parts(lines)[k] == text::split(uncommented(lines[at.0]), ',')[at.1],
    decreases lines.len(),
{
    let front = lines.drop_last();
    let before = selection::selection_parts(front);
    if k < before.len() {
        let at = lemma_parts_from(front, k);
        assert(front[at.0] == lines[at.0]);
        at
    } else {
        (lines.len() - 1, k - before.len())
    }
}

proof fn lemma_parts_hold(lines: Seq<Seq<char>>, i: int, j: int) -> (k: int)
    requires
        0 <= i < lines.len(),
        0 <= j < text::split(uncommented(lines[i]), ',').len(),
    ensures
        0 <= k < selection::selection_parts(lines).len(),
        selection::selection_parts(lines)[k] == text::split(uncommented(lines[i]), ',')[j],
    decreases lines.len(),
{
    let front = lines.drop_last();
    let before = selection::selection_parts(front);
    if i < front.len() {
        assert(front[i] == lines[i]);
        lemma_parts_hold(front, i, j)
    } else {
        before.len() + j
    }
}

proof fn lemma_listed(selection: Seq<char>, entry: Seq<char>)
    ensures
        lists(selection, entry) <==> entry.len() > 0 && exists|k: int|
            0 <= k < selection::selection_parts(text::lines(selection)).len() && text::trim(
                #[trigger] selection::selection_parts(text::lines(selection))[k],
            ) == entry,
{
    let lines = text::lines(selection);
    let parts = selection::selection_parts(lines);
    if lists(selection, entry) {
        let (i, j) = choose|i: int, j: int|
            0 <= i < text::lines(selection).len() && 0 <= j < text::split(
                uncommented(text::lines(selection)[i]),
                ',',
            ).len() && entry == text::trim(
                #[trigger] text::split(uncommented(text::lines(selection)[i]), ',')[j],
            );
        let k = lemma_parts_hold(lines, i, j);
        assert(text::trim(parts[k]) == entry);
    }
    if entry.len() > 0 && exists|k: int|
        0 <= k < parts.len() && text::trim(#[trigger] parts[k]) == entry {
        let k = choose|k: int| 0 <= k < parts.len() && text::trim(#[trigger] parts[k]) == entry;
        let at = lemma_parts_from(lines, k);
        assert(entry == text::trim(text::split(uncommented(lines[at.0]), ',')[at.1]));
    }
}

/// A selection takes a name exactly if it does not leave it out, and asks for it or
/// for nothing at all.
pub proof fn law_selected(selection: Seq<char>, name: Seq<char>)
    ensures
        selection::takes(selection, name) <==> !leaves_out(selection, name) && (asks_for(
            selection,
            name,
        ) || !asks_for_some(selection)),
{
    let parts = selection::selection_parts(text::lines(selection));
    assert forall|k: int| 0 <= k < parts.len() implies ({
        let entry = text::trim(#[trigger] parts[k]);
        &&& selection::vote(parts[k], name) == Vote::Excludes <==> is_exclusion(entry) && covers(
            text::trim(entry.skip(1)),
            name,
        )
        &&& selection::vote(parts[k], name) == Vote::Includes <==> entry.len() > 0 && !is_exclusion(
            entry,
        ) && covers(entry, name)
        &&& selection::vote(parts[k], name) == Vote::Misses <==> entry.len() > 0 && !is_exclusion(
            entry,
        ) && !covers(entry, name)
        &&& entry.len() > 0 ==> lists(selection, entry)
    }) by {
        let entry = text::trim(parts[k]);
        law_patterns(entry, name);
        law_patterns(text::trim(entry.skip(1)), name);
        lemma_listed(selection, entry);
    }
    assert forall|entry: Seq<char>| #[trigger] lists(selection, entry) implies exists|k: int|
        0 <= k < parts.len() && text::trim(#[trigger] parts[k]) == entry by {
        lemma_listed(selection, entry);
    }
    if selection::some_votes(parts, name, Vote::Excludes) {
        let k = choose|k: int|
            0 <= k < parts.len() && #[trigger] selection::vote(parts[k], name) == Vote::Excludes;
        assert(lists(selection, text::trim(parts[k])));
    }
    if selection::some_votes(parts, name, Vote::Includes) {
        let k = choose|k: int|
            0 <= k < parts.len() && #[trigger] selection::vote(parts[k], name) == Vote::Includes;
        assert(lists(selection, text::trim(parts[k])));
    }
    if selection::some_votes(parts, name, Vote::Misses) {
        let k = choose|k: int|
            0 <= k < parts.len() && #[trigger] selection::vote(parts[k], name) == Vote::Misses;
        assert(lists(selection, text::trim(parts[k])));
    }
    if leaves_out(selection, name) {
        let entry = choose|entry: Seq<char>|
            #[trigger] lists(selection, entry) && is_exclusion(entry) && covers(
                text::trim(entry.skip(1)),
                name,
            );
        let k = choose|k: int| 0 <= k < parts.len() && text::trim(#[trigger] parts[k]) == entry;
        assert(selection::vote(parts[k], name) == Vote::Excludes);
    }
    if asks_for(selection, name) {
        let entry = choose|entry: Seq<char>|
            #[trigger] lists(selection, entry) && !is_exclusion(entry) && covers(entry, name);
        let k = choose|k: int| 0 <= k < parts.len() && text::trim(#[trigger] parts[k]) == entry;
        assert(selection::vote(parts[k], name) == Vote::Includes);
    }
    if asks_for_some(selection) {
        let entry = choose|entry: Seq<char>|
            #[trigger] lists(selection, entry) && !is_exclusion(entry);
        let k = choose|k: int| 0 <= k < parts.len() && text::trim(#[trigger] parts[k]) == entry;
        assert(selection::vote(parts[k], name) == Vote::Includes || selection::vote(parts[k], name)
            == Vote::Misses);
    }
}

/// Whether a name stands in a list.
pub open spec fn stands_in(list: Seq<String>, name: Seq<char>) -> bool {
    exists|k: int| 0 <= k < list.len() && (#[trigger] list[k])@ == name
}

/// The search for a name finds it exactly if it stands in the list.
pub proof fn lemma_stands(list: Seq<String>, name: Seq<char>)
    ensures
        names::position(text::texts(list), name) < list.len() <==> stands_in(list, name),
{
    let all = text::texts(list);
    names::lemma_position(all, name);
    let p = names::position(all, name) as int;
    if p < list.len() {
        assert(list[p]@ == name);
    }
    if stands_in(list, name) {
        let k = choose|k: int| 0 <= k < list.len() && (#[trigger] list[k])@ == name;
        assert(all[k] == name);
    }
}

/// Whether a file name has an extension: a part before the last dot, and the
/// extension behind it. The folder above has none.
pub open spec fn ends_in(name: Seq<char>, stem: Seq<char>, ext: Seq<char>) -> bool {
    &&& name == stem.push('.') + ext
    &&& stem.len() > 0
    &&& wording::lacks(ext, '.')
    &&& name != ".."@
}

proof fn lemma_past_last(name: Seq<char>)
    ensures
        ({
            let n = folder::past_last(name, '.') as int;
            &&& 0 <= n <= name.len()
            &&& n > 0 ==> name[n - 1] == '.'
            &&& forall|i: int| n <= i < name.len() ==> #[trigger] name[i] != '.'
        }),
    decreases name.len(),
{
    if name.len() > 0 && name.last() != '.' {
        let front = name.drop_last();
        lemma_past_last(front);
        let n = folder::past_last(name, '.') as int;
        assert forall|i: int| n <= i < name.len() implies #[trigger] name[i] != '.' by {
            if i < front.len() {
                assert(front[i] != '.');
            }
        }
    }
}

/// A file name has the extension that stands behind its last dot, where something
/// stands before that dot.
pub proof fn law_extension(name: Seq<char>, ext: Seq<char>)
    ensures
        folder::extension(name) == Some(ext) <==> exists|stem: Seq<char>|
            #[trigger] ends_in(name, stem, ext),
{
    lemma_past_last(name);
    let n = folder::past_last(name, '.') as int;
    if folder::extension(name) == Some(ext) {
        let stem = name.take(n - 1);
        assert(name =~= stem.push('.') + ext);
        assert forall|i: int| 0 <= i < ext.len() implies #[trigger] ext[i] != '.' by {
            assert(name[n + i] != '.');
        }
        assert(ends_in(name, stem, ext));
    }
    if exists|stem: Seq<char>| #[trigger] ends_in(name, stem, ext) {
        let stem = choose|stem: Seq<char>| #[trigger] ends_in(name, stem, ext);
        let at = stem.len() as int;
        assert(name[at] == '.');
        if n < at + 1 {
            assert(name[at] != '.');
        }
        if n > at + 1 {
            assert(ext[n - 1 - at - 1] == name[n - 1]);
        }
        assert(name.skip(n) =~= ext);
    }
}

/// Whether an entry of a folder is named with an extension.
pub open spec fn named_with(entry: Result<FolderEntry, String>, ext: Seq<char>) -> bool {
    match entry {
        Ok(found) => exists|stem: Seq<char>| #[trigger] ends_in(found.name@, stem, ext),
        Err(_) => false,
    }
}

/// Whether what a backend wants of a folder is there: all of its files, one of those
/// of which it wants one, all of its folders, and an entry with its extension.
pub open spec fn all_there(folder: Folder, wanted: Signature) -> bool {
    &&& forall|i: int|
        0 <= i < wanted.files@.len() ==> stands_in(folder.files@, (#[trigger] wanted.files@[i])@)
    &&& wanted.either@.len() > 0 ==> exists|i: int|
        0 <= i < wanted.either@.len() && stands_in(folder.files@, (#[trigger] wanted.either@[i])@)
    &&& forall|i: int|
        0 <= i < wanted.dirs@.len() ==> stands_in(folder.dirs@, (#[trigger] wanted.dirs@[i])@)
    &&& match wanted.extension {
        None => true,
        Some(ext) => match folder.listing {
            Err(_) => false,
            Ok(entries) => exists|i: int|
                0 <= i < entries@.len() && named_with(#[trigger] entries@[i], ext@),
        },
    }
}

/// A folder fits a backend exactly if what the backend wants of it is there.
pub proof fn law_fitting_folder(folder: Folder, wanted: Signature)
    ensures
        wanted.fits(folder) <==> all_there(folder, wanted),
{
    assert forall|name: Seq<char>|
        #[trigger] folder.file_there(name) == stands_in(folder.files@, name) by {
        lemma_stands(folder.files@, name);
    }
    assert forall|name: Seq<char>|
        #[trigger] folder.dir_there(name) == stands_in(folder.dirs@, name) by {
        lemma_stands(folder.dirs@, name);
    }
    assert forall|i: int| 0 <= i < wanted.files@.len() implies folder.file_there(
        (#[trigger] wanted.files@[i])@,
    ) == stands_in(folder.files@, wanted.files@[i]@) by {}
    assert forall|i: int| 0 <= i < wanted.either@.len() implies folder.file_there(
        (#[trigger] wanted.either@[i])@,
    ) == stands_in(folder.files@, wanted.either@[i]@) by {}
    assert forall|i: int| 0 <= i < wanted.dirs@.len() implies folder.dir_there(
        (#[trigger] wanted.dirs@[i])@,
    ) == stands_in(folder.dirs@, wanted.dirs@[i]@) by {}
    if let Some(ext) = wanted.extension {
        if let Ok(entries) = folder.listing {
            assert forall|i: int| 0 <= i < entries@.len() implies named_with(
                #[trigger] entries@[i],
                ext@,
            ) == (entries@[i] matches Ok(entry) && folder::extension(entry.name@) == Some(ext@)) by {
                if let Ok(entry) = entries@[i] {
                    law_extension(entry.name@, ext@);
                }
            }
            if folder.ext_there(ext@) {
                let i = choose|i: int|
                    0 <= i < entries@.len() && ((#[trigger] entries@[i]) matches Ok(entry)
                        && folder::extension(entry.name@) == Some(ext@));
                assert(named_with(entries@[i], ext@));
            }
        }
    }
}

/// Whether a backend goes by a word: its name, or one of its aliases.
pub open spec fn goes_by(backend: BackendRegistration, word: Seq<char>) -> bool {
    backend.name@ == word || stands_in(backend.aliases@, word)
}

proof fn lemma_first_called(all: Seq<BackendRegistration>, word: Seq<char>)
    ensures
        ({
            let i = registry::first_called(all, word) as int;
            &&& i <= all.len()
            &&& i < all.len() ==> goes_by(all[i], word)
            &&& forall|j: int| 0 <= j < i ==> !goes_by(#[trigger] all[j], word)
        }),
    decreases all.len(),
{
    if all.len() > 0 {
        lemma_stands(all[0].aliases@, word);
        if !all[0].called(word) {
            let rest = all.skip(1);
            lemma_first_called(rest, word);
            let i = registry::first_called(all, word) as int;
            assert forall|j: int| 0 <= j < i implies !goes_by(#[trigger] all[j], word) by {
                if j > 0 {
                    assert(!goes_by(rest[j - 1], word));
                }
            }
        }
    }
}

/// A model that declares its backend gets the first that goes by the word, exactly if
/// there is one and, where it is one that is found by its folder, the folder fits. No
/// other backend's folder counts.
pub proof fn law_declared_backend(
    all: Seq<BackendRegistration>,
    folder: Folder,
    model: Seq<char>,
    word: Seq<char>,
    i: int,
)
    requires
        0 <= i < all.len(),
    ensures
        registry::spec_backend(all, folder, model, Some(word)) == Ok::<int, StatusView>(i) <==> {
            &&& goes_by(all[i], word)
            &&& forall|j: int| 0 <= j < i ==> !goes_by(#[trigger] all[j], word)
            &&& all[i].auto_detect ==> all_there(folder, all[i].signature)
        },
{
    lemma_first_called(all, word);
    law_fitting_folder(folder, all[i].signature);
}

/// A model that declares none gets the only backend whose folder it has, among those
/// that are found by their folders; with none or several of them it gets none.
pub proof fn law_found_backend(
    all: Seq<BackendRegistration>,
    folder: Folder,
    model: Seq<char>,
    i: int,
)
    requires
        0 <= i < all.len(),
    ensures
        registry::spec_backend(all, folder, model, None) == Ok::<int, StatusView>(i) <==> {
            &&& all[i].auto_detect && all_there(folder, all[i].signature)
            &&& forall|j: int|
                0 <= j < all.len() && j != i && (#[trigger] all[j]).auto_detect ==> !all_there(
                    folder,
                    all[j].signature,
                )
        },
{
    registry::law_detected_backend_is_the_only_one(all, folder, model, i);
    assert forall|j: int| 0 <= j < all.len() implies #[trigger] registry::candidate(all, folder, j)
        == (all[j].auto_detect && all_there(folder, all[j].signature)) by {
        law_fitting_folder(folder, all[j].signature);
    }
    assert(registry::candidate(all, folder, i) == (all[i].auto_detect && all_there(
        folder,
        all[i].signature,
    )));
    if forall|j: int|
        0 <= j < all.len() && #[trigger] registry::candidate(all, folder, j) ==> j == i {
        assert forall|j: int|
            0 <= j < all.len() && j != i && (#[trigger] all[j]).auto_detect implies !all_there(
            folder,
            all[j].signature,
        ) by {
            assert(!registry::candidate(all, folder, j));
        }
    }
}

/// A model that gets no backend is refused for how it is set up, and one that gets a
/// backend gets one of those that there are.
pub proof fn law_backend_found_or_refused(
    all: Seq<BackendRegistration>,
    folder: Folder,
    model: Seq<char>,
    declared: Option<Seq<char>>,
)
    ensures
        match registry::spec_backend(all, folder, model, declared) {
            Ok(i) => 0 <= i < all.len(),
            Err(status) => status.0 == Code::FailedPrecondition,
        },
{
    if declared is None {
        lemma_candidates_in_range(all, folder, all.len());
    }
}

proof fn lemma_candidates_in_range(all: Seq<BackendRegistration>, folder: Folder, count: nat)
    requires
        count <= all.len(),
    ensures
        forall|k: int|
            0 <= k < registry::candidates(all, folder, count).len() ==> 0
                <= #[trigger] registry::candidates(all, folder, count)[k] < all.len(),
    decreases count,
{
    if count > 0 {
        let before = registry::candidates(all, folder, (count - 1) as nat);
        let places = registry::candidates(all, folder, count);
        lemma_candidates_in_range(all, folder, (count - 1) as nat);
        assert forall|k: int| 0 <= k < places.len() implies 0 <= #[trigger] places[k] < all.len() by {
            if k < before.len() {
                assert(places[k] == before[k]);
            }
        }
    }
}

/// Whether the entry of a folder is the one file with an extension.
pub open spec fn is_the_file(entries: Seq<Result<FolderEntry, String>>, ext: Seq<char>, i: int) -> bool {
    &&& 0 <= i < entries.len()
    &&& is_file_with(entries[i], ext)
    &&& forall|j: int| 0 <= j < entries.len() && j != i ==> !is_file_with(#[trigger] entries[j], ext)
}

/// Whether the entry of a folder is a file with an extension.
pub open spec fn is_file_with(entry: Result<FolderEntry, String>, ext: Seq<char>) -> bool {
    named_with(entry, ext) && entry->Ok_0.is_file
}

proof fn lemma_files_with(entries: Seq<Result<FolderEntry, String>>, ext: Seq<char>)
    ensures
        folder::files_with_ext(entries, ext) is Ok <==> forall|i: int|
            0 <= i < entries.len() ==> (#[trigger] entries[i]) is Ok,
        folder::files_with_ext(entries, ext) matches Ok(paths) ==> {
            &&& paths.len() == 0 <==> forall|i: int|
                0 <= i < entries.len() ==> !is_file_with(#[trigger] entries[i], ext)
            &&& forall|i: int|
                #[trigger] is_the_file(entries, ext, i) ==> paths.len() == 1 && paths[0]
                    == entries[i]->Ok_0.path@
            &&& paths.len() == 1 ==> exists|i: int| #[trigger] is_the_file(entries, ext, i)
        },
    decreases entries.len(),
{
    if entries.len() > 0 {
        let front = entries.drop_last();
        let n = entries.len() - 1;
        let last = entries.last();
        lemma_files_with(front, ext);
        if forall|i: int| 0 <= i < entries.len() ==> (#[trigger] entries[i]) is Ok {
            assert forall|i: int| 0 <= i < front.len() implies (#[trigger] front[i]) is Ok by {
                assert(entries[i] is Ok);
            }
            assert(entries[n] is Ok);
        }
        if let Ok(before) = folder::files_with_ext(front, ext) {
            if last is Ok {
                law_extension(last->Ok_0.name@, ext);
                assert forall|i: int| 0 <= i < entries.len() implies (#[trigger] entries[i]) is Ok by {
                    if i < n {
                        assert(front[i] is Ok);
                    }
                }
                let paths = folder::files_with_ext(entries, ext)->Ok_0;
                if is_file_with(last, ext) {
                    assert(is_file_with(entries[n], ext));
                    if before.len() == 0 {
                        assert forall|j: int| 0 <= j < entries.len() && j != n implies !is_file_with(
                            #[trigger] entries[j],
                            ext,
                        ) by {
                            assert(!is_file_with(front[j], ext));
                        }
                        assert(is_the_file(entries, ext, n));
                    } else {
                        let j = choose|j: int|
                            0 <= j < front.len() && is_file_with(#[trigger] front[j], ext);
                        assert(is_file_with(entries[j], ext));
                    }
                    assert forall|i: int| #[trigger] is_the_file(entries, ext, i) implies paths.len()
                        == 1 && paths[0] == entries[i]->Ok_0.path@ by {
                        assert(i == n);
                        assert forall|j: int| 0 <= j < front.len() implies !is_file_with(
                            #[trigger] front[j],
                            ext,
                        ) by {
                            assert(!is_file_with(entries[j], ext));
                        }
                    }
                } else {
                    assert(paths == before);
                    assert forall|i: int| #[trigger] is_the_file(entries, ext, i) implies paths.len()
                        == 1 && paths[0] == entries[i]->Ok_0.path@ by {
                        assert(i != n);
                        assert forall|j: int| 0 <= j < front.len() && j != i implies !is_file_with(
                            #[trigger] front[j],
                            ext,
                        ) by {
                            assert(!is_file_with(entries[j], ext));
                        }
                        assert(front[i] == entries[i]);
                        assert(is_the_file(front, ext, i));
                    }
                    if paths.len() == 1 {
                        let i = choose|i: int| #[trigger] is_the_file(front, ext, i);
                        assert forall|j: int| 0 <= j < entries.len() && j != i implies !is_file_with(
                            #[trigger] entries[j],
                            ext,
                        ) by {
                            if j < n {
                                assert(!is_file_with(front[j], ext));
                            }
                        }
                        assert(is_the_file(entries, ext, i));
                    }
                    if forall|i: int|
                        0 <= i < front.len() ==> !is_file_with(#[trigger] front[i], ext) {
                        assert forall|i: int| 0 <= i < entries.len() implies !is_file_with(
                            #[trigger] entries[i],
                            ext,
                        ) by {
                            if i < n {
                                assert(!is_file_with(front[i], ext));
                            }
                        }
                    } else {
                        let j = choose|j: int|
                            0 <= j < front.len() && is_file_with(#[trigger] front[j], ext);
                        assert(is_file_with(entries[j], ext));
                    }
                }
            }
        }
    }
}

/// Whether all entries of a folder could be read.
pub open spec fn all_read(entries: Seq<Result<FolderEntry, String>>) -> bool {
    forall|i: int| 0 <= i < entries.len() ==> (#[trigger] entries[i]) is Ok
}

/// The one file with an extension is found exactly if the folder and all of its
/// entries can be read and there is one such file; it is found under its own path. A
/// folder that cannot be read is a failure of the server, and none or several such
/// files are one of the model's.
pub proof fn law_only_file(folder: Folder, ext: Seq<char>)
    ensures
        match folder.listing {
            Err(_) => folder::the_only_file(folder, ext) matches Err(status) && status.0
                == Code::Internal,
            Ok(entries) => {
                &&& forall|i: int|
                    all_read(entries@) && #[trigger] is_the_file(entries@, ext, i)
                        ==> folder::the_only_file(folder, ext) == Ok::<Seq<char>, StatusView>(
                        entries@[i]->Ok_0.path@,
                    )
                &&& folder::the_only_file(folder, ext) is Ok ==> all_read(entries@) && exists|i: int|
                    #[trigger] is_the_file(entries@, ext, i)
                &&& folder::the_only_file(folder, ext) matches Err(status) ==> status.0
                    == if all_read(entries@) {
                    Code::FailedPrecondition
                } else {
                    Code::Internal
                }
            },
        },
{
    if let Ok(entries) = folder.listing {
        lemma_files_with(entries@, ext);
    }
}

proof fn lemma_wanted(backend: BackendRegistration, folder: Folder)
    ensures
        all_there(folder, backend.signature) <==> {
            &&& forall|i: int|
                0 <= i < backend@.files.len() ==> stands_in(
                    folder.files@,
                    #[trigger] backend@.files[i],
                )
            &&& backend@.either.len() > 0 ==> exists|i: int|
                0 <= i < backend@.either.len() && stands_in(
                    folder.files@,
                    #[trigger] backend@.either[i],
                )
            &&& forall|i: int|
                0 <= i < backend@.dirs.len() ==> stands_in(folder.dirs@, #[trigger] backend@.dirs[i])
            &&& backend@.extension matches Some(ext) ==> folder.ext_there(ext)
        },
{
    let wanted = backend.signature;
    law_fitting_folder(folder, wanted);
    assert forall|i: int| 0 <= i < wanted.files@.len() implies (#[trigger] wanted.files@[i])@
        == backend@.files[i] by {}
    assert forall|i: int| 0 <= i < wanted.either@.len() implies (#[trigger] wanted.either@[i])@
        == backend@.either[i] by {}
    assert forall|i: int| 0 <= i < wanted.dirs@.len() implies (#[trigger] wanted.dirs@[i])@
        == backend@.dirs[i] by {}
    if all_there(folder, wanted) {
        assert forall|i: int| 0 <= i < backend@.files.len() implies stands_in(
            folder.files@,
            #[trigger] backend@.files[i],
        ) by {
            assert(stands_in(folder.files@, wanted.files@[i]@));
        }
        assert forall|i: int| 0 <= i < backend@.dirs.len() implies stands_in(
            folder.dirs@,
            #[trigger] backend@.dirs[i],
        ) by {
            assert(stands_in(folder.dirs@, wanted.dirs@[i]@));
        }
        if backend@.either.len() > 0 {
            let i = choose|i: int|
                0 <= i < wanted.either@.len() && stands_in(
                    folder.files@,
                    (#[trigger] wanted.either@[i])@,
                );
            assert(stands_in(folder.files@, backend@.either[i]));
        }
    } else {
        assert forall|name: Seq<char>|
            #[trigger] folder.file_there(name) == stands_in(folder.files@, name) by {
            lemma_stands(folder.files@, name);
        }
        assert forall|name: Seq<char>|
            #[trigger] folder.dir_there(name) == stands_in(folder.dirs@, name) by {
            lemma_stands(folder.dirs@, name);
        }
        if forall|i: int|
            0 <= i < backend@.files.len() ==> stands_in(folder.files@, #[trigger] backend@.files[i]) {
            assert forall|i: int| 0 <= i < wanted.files@.len() implies folder.file_there(
                (#[trigger] wanted.files@[i])@,
            ) by {
                assert(stands_in(folder.files@, backend@.files[i]));
            }
        }
        if forall|i: int|
            0 <= i < backend@.dirs.len() ==> stands_in(folder.dirs@, #[trigger] backend@.dirs[i]) {
            assert forall|i: int| 0 <= i < wanted.dirs@.len() implies folder.dir_there(
                (#[trigger] wanted.dirs@[i])@,
            ) by {
                assert(stands_in(folder.dirs@, backend@.dirs[i]));
            }
        }
        if exists|i: int|
            0 <= i < backend@.either.len() && stands_in(
                folder.files@,
                #[trigger] backend@.either[i],
            ) {
            let i = choose|i: int|
                0 <= i < backend@.either.len() && stands_in(
                    folder.files@,
                    #[trigger] backend@.either[i],
                );
            assert(folder.file_there(wanted.either@[i]@));
        }
    }
}

/// Whether the declaration of a model's tensors stands in its folder.
pub open spec fn declaration_there(folder: Folder) -> bool {
    stands_in(folder.files@, "model_inference.textproto"@)
}

/// The backend for C++ programs fits a folder with the declaration of the tensors and
/// a source, a build script or a program.
pub proof fn law_cpp_folder(backend: BackendRegistration, folder: Folder)
    requires
        backend@ == backends::cpp_registration(),
    ensures
        backend.auto_detect,
        goes_by(backend, "cpp"@),
        all_there(folder, backend.signature) <==> declaration_there(folder) && (stands_in(
            folder.files@,
            "main.cpp"@,
        ) || stands_in(folder.files@, "build.sh"@) || stands_in(folder.files@, "model"@)),
{
    lemma_wanted(backend, folder);
    assert(backend@.files[0] == "model_inference.textproto"@);
    assert(backend@.either[0] == "main.cpp"@);
    assert(backend@.either[1] == "build.sh"@);
    assert(backend@.either[2] == "model"@);
}

/// The backend for compiled-in models is not found by a folder: it must be named.
pub proof fn law_cxx_folder(backend: BackendRegistration)
    requires
        backend@ == backends::cxx_registration(),
    ensures
        !backend.auto_detect,
        goes_by(backend, "cxx"@),
{
}

/// The backend for ONNX models fits a folder with the declaration of the tensors and a
/// file with the extension `onnx`.
pub proof fn law_onnx_folder(backend: BackendRegistration, folder: Folder)
    requires
        backend@ == backends::onnx_registration(),
    ensures
        backend.auto_detect,
        goes_by(backend, "onnx"@),
        all_there(folder, backend.signature) <==> declaration_there(folder) && folder.ext_there(
            "onnx"@,
        ),
{
    lemma_wanted(backend, folder);
    assert(backend@.files[0] == "model_inference.textproto"@);
}

/// The backend for Python programs fits a folder with a program and its requirements.
pub proof fn law_python_folder(backend: BackendRegistration, folder: Folder)
    requires
        backend@ == backends::python_registration(),
    ensures
        backend.auto_detect,
        goes_by(backend, "python"@),
        all_there(folder, backend.signature) <==> stands_in(folder.files@, "main.py"@) && stands_in(
            folder.files@,
            "requirements.txt"@,
        ),
{
    lemma_wanted(backend, folder);
    assert(backend@.files[0] == "main.py"@);
    assert(backend@.files[1] == "requirements.txt"@);
}

/// The backend for TensorFlow models fits a folder with the declaration of the tensors
/// and a saved model with its variables.
pub proof fn law_tensorflow_folder(backend: BackendRegistration, folder: Folder)
    requires
        backend@ == backends::tensorflow_registration(),
    ensures
        backend.auto_detect,
        goes_by(backend, "tensorflow"@),
        all_there(folder, backend.signature) <==> declaration_there(folder) && stands_in(
            folder.files@,
            "saved_model.pb"@,
        ) && stands_in(folder.dirs@, "variables"@),
{
    lemma_wanted(backend, folder);
    assert(backend@.files[0] == "model_inference.textproto"@);
    assert(backend@.files[1] == "saved_model.pb"@);
    assert(backend@.dirs[0] == "variables"@);
}

/// The backend for Torch models, which also goes by `rust`, fits a folder with the
/// declaration of the tensors and a file with the extension `pt`.
pub proof fn law_torch_folder(backend: BackendRegistration, folder: Folder)
    requires
        backend@ == backends::torch_registration(),
    ensures
        backend.auto_detect,
        goes_by(backend, "torch"@),
        goes_by(backend, "rust"@),
        all_there(folder, backend.signature) <==> declaration_there(folder) && folder.ext_there(
            "pt"@,
        ),
{
    lemma_wanted(backend, folder);
    assert(backend@.files[0] == "model_inference.textproto"@);
    assert(backend@.aliases.len() == 1);
    assert(backend@.aliases[0] == "rust"@);
    assert(backend.aliases@[0]@ == "rust"@);
}

/// What is looked for in the folders is all that any backend wants of one, the
/// declaration of the tensors, and the program of a C++ model; and nothing else.
pub proof fn law_sought(all: Seq<RegistrationView>, windows: bool, name: Seq<char>)
    ensures
        backends::spec_sought_files(all, windows).contains(name) <==> {
            ||| name == "model_inference.textproto"@
            ||| name == cpp::spec_binary_name(windows)
            ||| exists|i: int|
                0 <= i < all.len() && ((#[trigger] all[i]).files.contains(name)
                    || all[i].either.contains(name))
        },
        backends::spec_sought_dirs(all).contains(name) <==> exists|i: int|
            0 <= i < all.len() && (#[trigger] all[i]).dirs.contains(name),
    decreases all.len(),
{
    broadcast use vstd::seq_lib::group_seq_properties;

    let sought = backends::spec_sought_files(all, windows);
    if all.len() == 0 {
        let two = seq!["model_inference.textproto"@, cpp::spec_binary_name(windows)];
        assert(two[0] == "model_inference.textproto"@);
        assert(two[1] == cpp::spec_binary_name(windows));
    } else {
        let front = all.drop_last();
        let last = all.last();
        law_sought(front, windows, name);
        assert(all[all.len() - 1] == last);
        assert forall|i: int| 0 <= i < front.len() implies front[i] == #[trigger] all[i] by {}
        if exists|i: int|
            0 <= i < front.len() && ((#[trigger] front[i]).files.contains(name)
                || front[i].either.contains(name)) {
            let i = choose|i: int|
                0 <= i < front.len() && ((#[trigger] front[i]).files.contains(name)
                    || front[i].either.contains(name));
            assert(all[i] == front[i]);
        }
        if exists|i: int| 0 <= i < front.len() && (#[trigger] front[i]).dirs.contains(name) {
            let i = choose|i: int| 0 <= i < front.len() && (#[trigger] front[i]).dirs.contains(name);
            assert(all[i] == front[i]);
        }
        let before = backends::spec_sought_files(front, windows);
        assert(sought == before + last.files + last.either);
        lemma_contains_sum(before + last.files, last.either, name);
        lemma_contains_sum(before, last.files, name);
        lemma_contains_sum(backends::spec_sought_dirs(front), last.dirs, name);
    }
}

proof fn lemma_contains_sum(a: Seq<Seq<char>>, b: Seq<Seq<char>>, name: Seq<char>)
    ensures
        (a + b).contains(name) <==> a.contains(name) || b.contains(name),
{
    if a.contains(name) {
        let i = choose|i: int| 0 <= i < a.len() && a[i] == name;
        assert((a + b)[i] == name);
    }
    if b.contains(name) {
        let i = choose|i: int| 0 <= i < b.len() && b[i] == name;
        assert((a + b)[a.len() + i] == name);
    }
}

/// The program of a C++ model is called `model`, and on Windows as a program is there.
pub proof fn law_program_name(windows: bool)
    ensures
        cpp::spec_binary_name(windows) == "model"@ + if windows {
            ".exe"@
        } else {
            Seq::empty()
        },
{
    reveal_strlit("model");
    reveal_strlit(".exe");
    reveal_strlit("model.exe");
    assert("model"@ + Seq::<char>::empty() =~= "model"@);
    assert("model.exe"@ =~= "model"@ + ".exe"@);
}

/// A C++ model's program is used as it is where it is there; else it is built, by the
/// model's own script where there is one, and else from its source. A model with none
/// of these is refused.
pub proof fn law_build_steps(model: Seq<char>, folder: Folder, windows: bool)
    ensures
        ({
            let step = cpp::spec_build_step(model, folder, windows);
            let there = stands_in(folder.files@, cpp::spec_binary_name(windows));
            let script = stands_in(folder.files@, "build.sh"@);
            let source = stands_in(folder.files@, "main.cpp"@);
            &&& step == Ok::<BuildStep, StatusView>(BuildStep::Reuse) <==> there
            &&& step == Ok::<BuildStep, StatusView>(BuildStep::Script) <==> !there && script
            &&& step == Ok::<BuildStep, StatusView>(BuildStep::Compile) <==> !there && !script
                && source
            &&& step matches Err(status) ==> status.0 == Code::FailedPrecondition
        }),
{
    lemma_stands(folder.files@, cpp::spec_binary_name(windows));
    lemma_stands(folder.files@, "build.sh"@);
    lemma_stands(folder.files@, "main.cpp"@);
}

/// A C++ model is built exactly if its build was run, succeeded, and made the program.
pub proof fn law_built(model: Seq<char>, output: Result<CommandOutput, String>, made: bool)
    ensures
        cpp::spec_build_result(model, output, made) is Ok <==> made && match output {
            Ok(ran) => ran.success,
            Err(_) => false,
        },
        cpp::spec_build_result(model, output, made) matches Err(status) ==> status.0
            == Code::FailedPrecondition,
{
}

/// A model that is compiled in is served by its declaration exactly if it is there and
/// its declaration is accepted.
pub proof fn law_compiled_in(model: Seq<char>, file: TextFile, compiled_in: bool)
    ensures
        match cxx::cxx_contract(model, file, compiled_in) {
            Ok(contract) => compiled_in && file.declares() == Ok::<ContractView, StatusView>(
                contract,
            ) && contract.inputs.len() > 0,
            Err(status) => match file.declares() {
                Err(fault) => status == fault,
                Ok(contract) => (!compiled_in || contract.inputs.len() == 0) && status.0
                    == Code::FailedPrecondition,
            },
        },
{
    crate::engine::law_fed_contract("C++"@, model, file);
}

/// A compiled-in model's answer is its one output, as the model gave it; a failure is
/// the model's.
pub proof fn law_compiled_in_answer(result: Result<(Vec<i64>, String, Vec<u8>), String>)
    ensures
        match (result, cxx::cxx_answer(result)) {
            (Ok((shape, dtype, data)), Ok(outputs)) => {
                &&& outputs.len() == 1
                &&& outputs[0].name == "output"@
                &&& outputs[0].shape == shape@
                &&& outputs[0].dtype == dtype@
                &&& outputs[0].data == data@
            },
            (Err(_), Err(status)) => status.0 == Code::Internal,
            _ => false,
        },
{
}

} // verus!
