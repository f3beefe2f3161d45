//! The registered backends, and which of them serves a model.
//!
//! Selection goes by the registrations alone and names no backend itself: a
//! backend takes part by being registered.

use vstd::prelude::*;

use crate::folder::Folder;
use crate::names;
use crate::names::find_name;
use crate::status::{Code, Status, StatusView};
use crate::text;
use crate::text::{cat3, cat5, cat6, cat7, joined, same};

verus! {

/// What a backend's model folders look like: all of `files` and `dirs` are
/// there, one of `either` where it lists any, and an entry with the extension
/// where one is given.
#[derive(Debug)]
pub struct Signature {
    pub files: Vec<String>,
    pub either: Vec<String>,
    pub dirs: Vec<String>,
    pub extension: Option<String>,
}

/// A backend's registration.
#[derive(Debug)]
pub struct BackendRegistration {
    /// The `backend` value in the configuration, and the feature that provides
    /// the backend.
    pub name: String,
    /// The backend's own version.
    pub version: String,
    /// Other accepted spellings of the name.
    pub aliases: Vec<String>,
    /// The folder shape in words.
    pub describes: String,
    /// Whether the backend may be chosen by the contents of a folder. One that
    /// may not is chosen only by naming it.
    pub auto_detect: bool,
    pub signature: Signature,
}

/// Whether all names are among the regular files of the folder.
pub open spec fn all_files(folder: Folder, wanted: Seq<String>) -> bool {
    forall|i: int| 0 <= i < wanted.len() ==> folder.file_there((#[trigger] wanted[i])@)
}

/// Whether one of the names is among the regular files of the folder.
pub open spec fn any_file(folder: Folder, wanted: Seq<String>) -> bool {
    exists|i: int| 0 <= i < wanted.len() && folder.file_there((#[trigger] wanted[i])@)
}

/// Whether all names are among the directories of the folder.
pub open spec fn all_dirs(folder: Folder, wanted: Seq<String>) -> bool {
    forall|i: int| 0 <= i < wanted.len() ==> folder.dir_there((#[trigger] wanted[i])@)
}

impl Signature {
    /// Whether a folder has this shape.
    pub open spec fn fits(self, folder: Folder) -> bool {
        &&& all_files(folder, self.files@)
        &&& self.either@.len() > 0 ==> any_file(folder, self.either@)
        &&& all_dirs(folder, self.dirs@)
        &&& self.extension matches Some(ext) ==> folder.ext_there(ext@)
    }

    /// Decides [`Self::fits`].
    pub fn detect(&self, folder: &Folder) -> (r: bool)
        ensures
            r == self.fits(*folder),
    {
        let mut i: usize = 0;
        while i < self.files.len()
            invariant
                i <= self.files@.len(),
                forall|k: int| 0 <= k < i ==> folder.file_there((#[trigger] self.files@[k])@),
            decreases self.files@.len() - i,
        {
            if !folder.has_file(self.files[i].as_str()) {
                return false;
            }
            i = i + 1;
        }
        let mut j: usize = 0;
        while j < self.dirs.len()
            invariant
                j <= self.dirs@.len(),
                forall|k: int| 0 <= k < j ==> folder.dir_there((#[trigger] self.dirs@[k])@),
            decreases self.dirs@.len() - j,
        {
            if !folder.has_dir(self.dirs[j].as_str()) {
                return false;
            }
            j = j + 1;
        }
        let mut found = self.either.len() == 0;
        let mut n: usize = 0;
        while n < self.either.len()
            invariant
                n <= self.either@.len(),
                found == (self.either@.len() == 0 || exists|k: int|
                    0 <= k < n && folder.file_there((#[trigger] self.either@[k])@)),
            decreases self.either@.len() - n,
        {
            if folder.has_file(self.either[n].as_str()) {
                found = true;
            }
            n = n + 1;
        }
        if !found {
            return false;
        }
        match &self.extension {
            Some(ext) => folder.has_ext(ext.as_str()),
            None => true,
        }
    }
}

impl BackendRegistration {
    /// Whether the backend is called `word`, by its name or an alias.
    pub open spec fn called(self, word: Seq<char>) -> bool {
        self.name@ == word || names::position(text::texts(self.aliases@), word)
            < self.aliases@.len()
    }

    fn is_called(&self, word: &str) -> (r: bool)
        ensures
            r == self.called(word@),
    {
        same(self.name.as_str(), word) || find_name(&self.aliases, word) < self.aliases.len()
    }
}

/// The first registration called `word`; the number of registrations where none
/// is.
pub open spec fn first_called(all: Seq<BackendRegistration>, word: Seq<char>) -> nat
    decreases all.len(),
{
    if all.len() == 0 || all[0].called(word) {
        0
    } else {
        1 + first_called(all.skip(1), word)
    }
}

/// Whether the registration at `i` may be chosen for a folder by its contents.
pub open spec fn candidate(all: Seq<BackendRegistration>, folder: Folder, i: int) -> bool {
    all[i].auto_detect && all[i].signature.fits(folder)
}

/// The registrations that may be chosen for a folder by its contents.
pub open spec fn candidates(all: Seq<BackendRegistration>, folder: Folder, count: nat) -> Seq<int>
    decreases count,
{
    if count == 0 {
        Seq::empty()
    } else {
        let before = candidates(all, folder, (count - 1) as nat);
        if candidate(all, folder, count - 1) {
            before.push(count - 1)
        } else {
            before
        }
    }
}

/// The names of all registrations.
pub open spec fn all_names(all: Seq<BackendRegistration>) -> Seq<Seq<char>> {
    Seq::new(all.len(), |i: int| all[i].name@)
}

/// The names of the registrations at the given places.
pub open spec fn names_at(all: Seq<BackendRegistration>, places: Seq<int>) -> Seq<Seq<char>> {
    Seq::new(places.len(), |i: int| all[places[i]].name@)
}

/// The folder shapes, in words, of the first `count` registrations that may be
/// chosen by contents.
pub open spec fn shapes(all: Seq<BackendRegistration>, count: nat) -> Seq<Seq<char>>
    decreases count,
{
    if count == 0 {
        Seq::empty()
    } else {
        let before = shapes(all, (count - 1) as nat);
        if all[count - 1].auto_detect {
            before.push(all[count - 1].describes@)
        } else {
            before
        }
    }
}

/// The complaint about a declared backend that is not registered.
pub open spec fn unknown_backend(
    all: Seq<BackendRegistration>,
    model: Seq<char>,
    declared: Seq<char>,
) -> StatusView {
    (
        Code::FailedPrecondition,
        "model '"@ + model + "' declares unknown backend \""@ + declared
            + "\"; known backends: "@ + text::join(all_names(all), ", "@),
    )
}

/// The complaint about a folder without the files of its declared backend.
pub open spec fn wrong_folder(
    model: Seq<char>,
    declared: Seq<char>,
    describes: Seq<char>,
) -> StatusView {
    (
        Code::FailedPrecondition,
        "model '"@ + model + "' declares backend \""@ + declared + "\" but its folder is not "@
            + describes,
    )
}

/// The complaint about a folder that fits no backend.
pub open spec fn no_backend(all: Seq<BackendRegistration>, model: Seq<char>) -> StatusView {
    (
        Code::FailedPrecondition,
        "model '"@ + model + "' folder must match exactly one backend, one of: "@ + text::join(
            shapes(all, all.len()),
            "; "@,
        ),
    )
}

/// The complaint about a folder that fits several backends.
pub open spec fn many_backends(
    all: Seq<BackendRegistration>,
    places: Seq<int>,
    model: Seq<char>,
) -> StatusView {
    (
        Code::FailedPrecondition,
        "model '"@ + model + "' folder matches multiple backends ("@ + text::join(
            names_at(all, places),
            ", "@,
        ) + "); set `backend` in nereid.yaml to disambiguate"@,
    )
}

/// The place of the registration that serves a model, or why none does: the
/// declared backend, whose folder shape is checked where it has one, or else the
/// only one that the folder's contents allow.
pub open spec fn spec_backend(
    all: Seq<BackendRegistration>,
    folder: Folder,
    model: Seq<char>,
    declared: Option<Seq<char>>,
) -> Result<int, StatusView> {
    match declared {
        Some(word) => {
            let i = first_called(all, word) as int;
            if i >= all.len() {
                Err(unknown_backend(all, model, word))
            } else if all[i].auto_detect && !all[i].signature.fits(folder) {
                Err(wrong_folder(model, word, all[i].describes@))
            } else {
                Ok(i)
            }
        },
        None => {
            let places = candidates(all, folder, all.len());
            if places.len() == 1 {
                Ok(places[0])
            } else if places.len() == 0 {
                Err(no_backend(all, model))
            } else {
                Err(many_backends(all, places, model))
            }
        },
    }
}

proof fn lemma_first_called(all: Seq<BackendRegistration>, word: Seq<char>)
    ensures
        first_called(all, word) <= all.len(),
        forall|k: int| 0 <= k < first_called(all, word) ==> !(#[trigger] all[k]).called(word),
        first_called(all, word) < all.len() ==> all[first_called(all, word) as int].called(word),
    decreases all.len(),
{
    if all.len() != 0 && !all[0].called(word) {
        lemma_first_called(all.skip(1), word);
        assert forall|k: int| 0 <= k < first_called(all, word) implies !(
        #[trigger] all[k]).called(word) by {
            if k > 0 {
                assert(all[k] == all.skip(1)[k - 1]);
            }
        }
    }
}

fn find_called(all: &Vec<BackendRegistration>, word: &str) -> (r: usize)
    ensures
        r == first_called(all@, word@),
        r <= all@.len(),
{
    let mut i: usize = 0;
    while i < all.len() && !all[i].is_called(word)
        invariant
            i <= all@.len(),
            forall|k: int| 0 <= k < i ==> !(#[trigger] all@[k]).called(word@),
        decreases all@.len() - i,
    {
        i = i + 1;
    }
    proof {
        lemma_first_called(all@, word@);
        let f = first_called(all@, word@) as int;
        if f < i {
            assert(!all@[f].called(word@));
        }
        if i < f {
            assert(!all@[i as int].called(word@));
        }
    }
    i
}

fn known_names(all: &Vec<BackendRegistration>) -> (r: Vec<String>)
    ensures
        text::texts(r@) == all_names(all@),
{
    let mut out: Vec<String> = Vec::new();
    let mut i: usize = 0;
    while i < all.len()
        invariant
            i <= all@.len(),
            out@.len() == i,
            forall|k: int| 0 <= k < i ==> (#[trigger] out@[k])@ == all@[k].name@,
        decreases all@.len() - i,
    {
        out.push(all[i].name.clone());
        i = i + 1;
    }
    assert(text::texts(out@) =~= all_names(all@));
    out
}

fn known_shapes(all: &Vec<BackendRegistration>) -> (r: Vec<String>)
    ensures
        text::texts(r@) == shapes(all@, all@.len()),
{
    let mut out: Vec<String> = Vec::new();
    let mut i: usize = 0;
    assert(text::texts(out@) =~= Seq::empty());
    while i < all.len()
        invariant
            i <= all@.len(),
            text::texts(out@) == shapes(all@, i as nat),
        decreases all@.len() - i,
    {
        if all[i].auto_detect {
            let words = all[i].describes.clone();
            assert(text::texts(out@.push(words)) =~= text::texts(out@).push(words@));
            out.push(words);
        }
        i = i + 1;
    }
    out
}

/// The places of a list of indices.
pub open spec fn places_of(v: Seq<usize>) -> Seq<int> {
    Seq::new(v.len(), |i: int| v[i] as int)
}

proof fn lemma_candidates(all: Seq<BackendRegistration>, folder: Folder, count: nat)
    requires
        count <= all.len(),
    ensures
        forall|j: int|
            0 <= j < candidates(all, folder, count).len() ==> 0 <= #[trigger] candidates(
                all,
                folder,
                count,
            )[j] < count && candidate(all, folder, candidates(all, folder, count)[j]),
        forall|i: int|
            0 <= i < count && #[trigger] candidate(all, folder, i) ==> candidates(
                all,
                folder,
                count,
            ).contains(i),
    decreases count,
{
    if count > 0 {
        lemma_candidates(all, folder, (count - 1) as nat);
        let before = candidates(all, folder, (count - 1) as nat);
        let now = candidates(all, folder, count);
        assert forall|i: int| 0 <= i < count && #[trigger] candidate(all, folder, i) implies
            now.contains(i) by {
            if i == count - 1 {
                assert(now[now.len() - 1] == i);
            } else {
                assert(before.contains(i));
                let j = choose|j: int| 0 <= j < before.len() && before[j] == i;
                assert(now[j] == i);
            }
        }
    }
}

fn find_candidates(all: &Vec<BackendRegistration>, folder: &Folder) -> (r: Vec<usize>)
    ensures
        places_of(r@) == candidates(all@, *folder, all@.len()),
        forall|j: int| 0 <= j < r@.len() ==> (#[trigger] r@[j]) < all@.len(),
{
    let mut out: Vec<usize> = Vec::new();
    let mut i: usize = 0;
    assert(places_of(out@) =~= Seq::empty());
    while i < all.len()
        invariant
            i <= all@.len(),
            places_of(out@) == candidates(all@, *folder, i as nat),
            forall|j: int| 0 <= j < out@.len() ==> (#[trigger] out@[j]) < all@.len(),
        decreases all@.len() - i,
    {
        if all[i].auto_detect && all[i].signature.detect(folder) {
            assert(places_of(out@.push(i)) =~= places_of(out@).push(i as int));
            out.push(i);
        }
        i = i + 1;
    }
    out
}

fn pick_names(all: &Vec<BackendRegistration>, places: &Vec<usize>) -> (r: Vec<String>)
    requires
        forall|j: int| 0 <= j < places@.len() ==> (#[trigger] places@[j]) < all@.len(),
    ensures
        text::texts(r@) == names_at(all@, places_of(places@)),
{
    let mut out: Vec<String> = Vec::new();
    let mut i: usize = 0;
    while i < places.len()
        invariant
            i <= places@.len(),
            out@.len() == i,
            forall|j: int| 0 <= j < places@.len() ==> (#[trigger] places@[j]) < all@.len(),
            forall|k: int|
                0 <= k < i ==> (#[trigger] out@[k])@ == all@[places@[k] as int].name@,
        decreases places@.len() - i,
    {
        out.push(all[places[i]].name.clone());
        i = i + 1;
    }
    assert(text::texts(out@) =~= names_at(all@, places_of(places@)));
    out
}

/// Picks the backend of a model: the declared one, else the only one that the
/// folder's contents allow. Gives its place among the registrations.
pub fn detect_backend(
    registrations: &Vec<BackendRegistration>,
    folder: &Folder,
    model_name: &str,
    declared: Option<&str>,
) -> (r: Result<usize, Status>)
    ensures
        ({
            let expected = spec_backend(
                registrations@,
                *folder,
                model_name@,
                match declared {
                    Some(word) => Some(word@),
                    None => None,
                },
            );
            match r {
                Ok(i) => expected == Ok::<int, StatusView>(i as int) && i < registrations@.len(),
                Err(e) => expected == Err::<int, StatusView>(e@),
            }
        }),
{
    if let Some(word) = declared {
        let i: usize = find_called(registrations, word);
        if i == registrations.len() {
            let known = known_names(registrations);
            let list = joined(&known, ", ");
            return Err(
                Status::failed_precondition(
                    cat6(
                        "model '",
                        model_name,
                        "' declares unknown backend \"",
                        word,
                        "\"; known backends: ",
                        list.as_str(),
                    ),
                ),
            );
        }
        if registrations[i].auto_detect && !registrations[i].signature.detect(folder) {
            return Err(
                Status::failed_precondition(
                    cat6(
                        "model '",
                        model_name,
                        "' declares backend \"",
                        word,
                        "\" but its folder is not ",
                        registrations[i].describes.as_str(),
                    ),
                ),
            );
        }
        return Ok(i);
    }
    let places = find_candidates(registrations, folder);
    assert(places_of(places@).len() == places@.len());
    if places.len() == 1 {
        assert(places_of(places@)[0] == places@[0]);
        return Ok(places[0]);
    }
    if places.len() == 0 {
        let known = known_shapes(registrations);
        let list = joined(&known, "; ");
        let mut message = cat3(
            "model '",
            model_name,
            "' folder must match exactly one backend, one of: ",
        );
        message.append(list.as_str());
        return Err(Status::failed_precondition(message));
    }
    let found = pick_names(registrations, &places);
    let list = joined(&found, ", ");
    Err(
        Status::failed_precondition(
            cat5(
                "model '",
                model_name,
                "' folder matches multiple backends (",
                list.as_str(),
                "); set `backend` in nereid.yaml to disambiguate",
            ),
        ),
    )
}

/// The complaint about a model whose backend was not built in.
pub open spec fn spec_missing_feature(
    model: Seq<char>,
    what: Seq<char>,
    feature: Seq<char>,
) -> StatusView {
    (
        Code::FailedPrecondition,
        "model '"@ + model + "' is a "@ + what
            + " model, but this server was built without that backend. Rebuild with `--features "@
            + feature + "` (or `./build.sh --"@ + feature + "`)."@,
    )
}

/// Says which feature a model needs that this server was built without.
pub fn missing_feature(model_name: &str, what: &str, feature: &str) -> (r: Status)
    ensures
        r@ == spec_missing_feature(model_name@, what@, feature@),
{
    let mut message = cat7(
        "model '",
        model_name,
        "' is a ",
        what,
        " model, but this server was built without that backend. Rebuild with `--features ",
        feature,
        "` (or `./build.sh --",
    );
    message.append(feature);
    message.append("`).");
    Status::failed_precondition(message)
}

/// Without a declared backend, a backend is chosen exactly if the folder's
/// contents allow it and no other one.
pub proof fn law_detected_backend_is_the_only_one(
    all: Seq<BackendRegistration>,
    folder: Folder,
    model: Seq<char>,
    i: int,
)
    requires
        0 <= i < all.len(),
    ensures
        spec_backend(all, folder, model, None) == Ok::<int, StatusView>(i) <==> candidate(
            all,
            folder,
            i,
        ) && (forall|j: int| 0 <= j < all.len() && #[trigger] candidate(all, folder, j) ==> j == i),
{
    let places = candidates(all, folder, all.len());
    lemma_candidates(all, folder, all.len());
    lemma_candidates_increase(all, folder, all.len());
    if candidate(all, folder, i) && (forall|j: int|
        0 <= j < all.len() && #[trigger] candidate(all, folder, j) ==> j == i) {
        assert(places.contains(i));
        if places.len() > 1 {
            assert(candidate(all, folder, places[0]));
            assert(candidate(all, folder, places[1]));
            assert(places[0] < places[1]);
        }
        assert(places[0] == i);
    }
    if spec_backend(all, folder, model, None) == Ok::<int, StatusView>(i) {
        assert(places[0] == i);
        assert(candidate(all, folder, places[0]));
        assert forall|j: int| 0 <= j < all.len() && #[trigger] candidate(all, folder, j) implies j
            == i by {
            assert(places.contains(j));
        }
    }
}

proof fn lemma_candidates_increase(all: Seq<BackendRegistration>, folder: Folder, count: nat)
    requires
        count <= all.len(),
    ensures
        forall|a: int, b: int|
            0 <= a < b < candidates(all, folder, count).len() ==> #[trigger] candidates(
                all,
                folder,
                count,
            )[a] < #[trigger] candidates(all, folder, count)[b],
    decreases count,
{
    if count > 0 {
        lemma_candidates_increase(all, folder, (count - 1) as nat);
        lemma_candidates(all, folder, (count - 1) as nat);
        let before = candidates(all, folder, (count - 1) as nat);
        let now = candidates(all, folder, count);
        assert forall|a: int, b: int| 0 <= a < b < now.len() implies #[trigger] now[a]
            < #[trigger] now[b] by {
            assert(now[a] == before[a]);
            if b < before.len() {
                assert(now[b] == before[b]);
            }
        }
    }
}

/// A declared backend is chosen whatever other backends the folder's contents
/// would allow: of two folders that agree on its own signature, both are
/// accepted or both refused.
pub proof fn law_declared_backend_checks_only_its_own_files(
    all: Seq<BackendRegistration>,
    folder: Folder,
    other: Folder,
    model: Seq<char>,
    declared: Seq<char>,
)
    requires
        ({
            let i = first_called(all, declared) as int;
            i < all.len() ==> all[i].signature.fits(folder) == all[i].signature.fits(other)
        }),
    ensures
        spec_backend(all, folder, model, Some(declared)) == spec_backend(
            all,
            other,
            model,
            Some(declared),
        ),
{
}

} // verus!
