//! The libraries of a release, and the pool of tasks that fetches them.
use vstd::prelude::*;

use crate::checksum::Sha1Error;
use crate::files::{DownloadRequest, FoundFile};
use crate::progress::Progress;
use crate::rules::{is_required, OsName, Rule};

verus! {

/// Where a library is fetched from, where it goes, and how it is checked.
#[derive(Debug, PartialEq)]
pub struct LibraryMetadata {
    pub path: String,
    pub sha1: String,
    pub size: usize,
    pub url: String,
}

/// What a library offers for download.
#[derive(Debug, PartialEq)]
pub struct LibraryArtifact {
    pub artifact: LibraryMetadata,
}

/// A library of a release.
#[derive(Debug, PartialEq)]
pub struct Library {
    pub downloads: LibraryArtifact,
    pub name: String,
    pub rules: Option<Vec<Rule>>,
}

/// What is done about a library.
#[derive(Debug)]
pub enum LibraryAction {
    /// Nothing: the rules do not require it on this system. The notice says so.
    NotRequired { notice: String },
    /// Nothing: it is there and intact.
    UpToDate,
    /// It is fetched.
    Download(DownloadRequest),
}

/// What comes of looking at one library.
#[derive(Debug)]
pub struct LibraryStep {
    pub damage: Option<Sha1Error>,
    pub action: LibraryAction,
}

/// The libraries of a release, on one system.
#[derive(Debug)]
pub struct LibraryPool {
    pub libraries: Vec<Library>,
    pub os: OsName,
}

/// Which of `count` libraries tasks have taken: they take them in order, and `next` is the one
/// whose turn it is.
#[derive(Debug)]
pub struct Claims {
    pub next: usize,
    pub count: usize,
}

/// Whether a library is fetched: it is required on the system, and it is missing or damaged.
pub open spec fn fetched(library: Library, os: OsName, found: FoundFile) -> bool {
    &&& crate::rules::rules_allow(library.rules, os)
    &&& found.wanted(library.downloads.artifact.sha1@)
}

/// What is said of a library that is not required.
pub open spec fn not_required_text(library: Library, os: OsName) -> Seq<char> {
    library.name@ + " is not required on "@ + crate::rules::os_label(os)
}

/// Whether `step` is what comes of looking at a library of which `found` was found at `path`. What
/// is fetched goes to that same place.
pub open spec fn library_step(
    library: Library,
    os: OsName,
    found: FoundFile,
    path: Seq<char>,
    step: LibraryStep,
) -> bool {
    let artifact = library.downloads.artifact;
    &&& found.damaged_by(path, artifact.sha1@, step.damage)
    &&& match step.action {
        LibraryAction::NotRequired { notice } => {
            &&& !crate::rules::rules_allow(library.rules, os)
            &&& notice@ == not_required_text(library, os)
        },
        LibraryAction::UpToDate => {
            &&& crate::rules::rules_allow(library.rules, os)
            &&& !found.wanted(artifact.sha1@)
        },
        LibraryAction::Download(request) => {
            &&& fetched(library, os, found)
            &&& crate::files::asks_for(request, artifact.url@, path)
        },
    }
}

/// The file to fetch for a library that goes to `destination`.
pub fn download_library(library: &Library, destination: &str) -> (request: DownloadRequest)
    ensures
        crate::files::asks_for(request, library.downloads.artifact.url@, destination@),
{
    DownloadRequest {
        url: library.downloads.artifact.url.clone(),
        path: destination.to_owned(),
    }
}

/// The pool of the libraries of a release on the system `os`, of which none is taken yet.
pub fn parallel_library(library_list: Vec<Library>, os: OsName) -> (result: (LibraryPool, Claims))
    ensures
        result.0 == (LibraryPool { libraries: library_list, os }),
        result.1.wf(),
        result.1.next == 0,
        result.1.count == library_list@.len(),
{
    let count = library_list.len();
    (LibraryPool { libraries: library_list, os }, Claims { next: 0, count })
}

impl Claims {
    /// No more libraries were taken than there are.
    pub open spec fn wf(self) -> bool {
        self.next <= self.count
    }

    /// The library that the next task takes, where one is left.
    pub open spec fn next_claim(self) -> Option<usize> {
        if self.next < self.count {
            Some(self.next)
        } else {
            None
        }
    }

    /// What is taken after a task took its library.
    pub open spec fn after_claim(self) -> Claims {
        if self.next < self.count {
            Claims { next: (self.next + 1) as usize, ..self }
        } else {
            self
        }
    }

    /// What the next `tasks` tasks take.
    pub open spec fn claims(self, tasks: nat) -> Seq<Option<usize>>
        decreases tasks,
    {
        if tasks == 0 {
            Seq::empty()
        } else {
            seq![self.next_claim()] + self.after_claim().claims((tasks - 1) as nat)
        }
    }

    /// Takes the next library, by its position; `None` where all are taken.
    pub fn claim(&mut self) -> (index: Option<usize>)
        requires
            old(self).wf(),
        ensures
            final(self).wf(),
            index == old(self).next_claim(),
            *final(self) == old(self).after_claim(),
    {
        let index = self.next;
        if index < self.count {
            self.next = index + 1;
            Some(index)
        } else {
            None
        }
    }
}

impl LibraryPool {
    /// The number of libraries, which is the number of tasks to start.
    pub fn len(&self) -> (len: usize)
        ensures
            len == self.libraries@.len(),
    {
        self.libraries.len()
    }

    /// Where a library goes, relative to the folder of the libraries.
    pub fn path(&self, index: usize) -> (path: &str)
        requires
            index < self.libraries@.len(),
        ensures
            path@ == self.libraries@[index as int].downloads.artifact.path@,
    {
        self.libraries[index].downloads.artifact.path.as_str()
    }

    /// Decides what is done about the library at `index`, of which `found` was found at `path`,
    /// and counts it where it is fetched. It is fetched to `path`.
    pub fn settle(&self, index: usize, found: FoundFile, path: &str, progress: &mut Progress) -> (step:
        LibraryStep)
        requires
            index < self.libraries@.len(),
            found.hashable(),
        ensures
            library_step(self.libraries@[index as int], self.os, found, path@, step),
            final(progress).total == crate::progress::total_after(
                old(progress).total,
                fetched(self.libraries@[index as int], self.os, found),
                self.libraries@[index as int].downloads.artifact.size,
            ),
            final(progress).current == old(progress).current,
    {
        let library = &self.libraries[index];
        let required = is_required(&library.rules, self.os);
        let (wanted, damage) = found.inspect(path, library.downloads.artifact.sha1.as_str());
        let action = if !required {
            let mut notice = library.name.clone();
            notice.append(" is not required on ");
            notice.append(self.os.to_string().as_str());
            LibraryAction::NotRequired { notice }
        } else if !wanted {
            LibraryAction::UpToDate
        } else {
            progress.start_download(library.downloads.artifact.size);
            LibraryAction::Download(download_library(library, path))
        };
        LibraryStep { damage, action }
    }
}

/// Each library is taken by exactly one task: the tasks take them in order, as many as there are,
/// and any further task finds none.
pub proof fn law_each_library_is_taken_once(taken: Claims, tasks: nat, i: int)
    requires
        taken.wf(),
        0 <= i < tasks,
    ensures
        taken.claims(tasks).len() == tasks,
        taken.claims(tasks)[i] == if taken.next + i < taken.count {
            Some((taken.next + i) as usize)
        } else {
            None
        },
    decreases tasks,
{
    let rest = taken.after_claim();
    let more = rest.claims((tasks - 1) as nat);
    assert(taken.claims(tasks) == seq![taken.next_claim()] + more);
    if tasks > 1 {
        law_each_library_is_taken_once(rest, (tasks - 1) as nat, if i > 0 {
            i - 1
        } else {
            0
        });
    }
}

/// What is decided about the libraries of a pool, in its order. `found` holds what was found of
/// each of them.
pub open spec fn decisions(pool: LibraryPool, found: Seq<FoundFile>) -> Seq<(bool, usize)> {
    Seq::new(
        pool.libraries@.len(),
        |i: int|
            (
                fetched(pool.libraries@[i], pool.os, found[i]),
                pool.libraries@[i].downloads.artifact.size,
            ),
    )
}

/// In whatever order the tasks settle their libraries, the total grows by the sum of the sizes of
/// the libraries that are required, and missing or damaged.
pub proof fn law_library_total(
    pool: LibraryPool,
    found: Seq<FoundFile>,
    order: Seq<(bool, usize)>,
    start: usize,
)
    requires
        order.to_multiset() == decisions(pool, found).to_multiset(),
    ensures
        crate::progress::total_after_all(start, order) == crate::progress::wrapped(
            start + crate::progress::sum(
                decisions(pool, found).map_values(
                    |decision: (bool, usize)| crate::progress::amount(decision),
                ),
            ),
        ),
{
    crate::progress::law_total_ignores_order(start, order, decisions(pool, found));
    crate::progress::law_total_is_the_sum(start, decisions(pool, found));
}

/// A library that the rules do not require is never fetched, whatever was found of it.
pub proof fn law_unrequired_libraries_are_not_fetched(
    library: Library,
    os: OsName,
    found: FoundFile,
    path: Seq<char>,
    step: LibraryStep,
)
    requires
        library_step(library, os, found, path, step),
        !crate::rules::rules_allow(library.rules, os),
    ensures
        step.action is NotRequired,
        !fetched(library, os, found),
{
}

/// Where every library is intact or not required, nothing is fetched and the total stays what it
/// was.
pub proof fn law_up_to_date_libraries_are_left_alone(
    pool: LibraryPool,
    found: Seq<FoundFile>,
    start: usize,
)
    requires
        forall|i: int|
            0 <= i < pool.libraries@.len() ==> {
                ||| !crate::rules::rules_allow((#[trigger] pool.libraries@[i]).rules, pool.os)
                ||| !found[i].wanted(pool.libraries@[i].downloads.artifact.sha1@)
            },
    ensures
        crate::progress::total_after_all(start, decisions(pool, found)) == start,
{
    let all = decisions(pool, found);
    assert forall|i: int| 0 <= i < all.len() implies !(#[trigger] all[i]).0 by {
        assert(!fetched(pool.libraries@[i], pool.os, found[i]));
    }
    crate::progress::law_nothing_fetched_nothing_counted(start, all);
}

/// What is done about a library follows from the rules and from what was found: nothing, with a
/// notice that names it and the system, where the rules do not require it; nothing where the file
/// has the expected digest; and otherwise the artifact is fetched to the place looked at.
pub proof fn law_every_library_has_its_action(
    library: Library,
    os: OsName,
    found: FoundFile,
    path: Seq<char>,
    step: LibraryStep,
)
    requires
        library_step(library, os, found, path, step),
    ensures
        found.damaged_by(path, library.downloads.artifact.sha1@, step.damage),
        !crate::rules::rules_allow(library.rules, os) ==> (step.action matches
            LibraryAction::NotRequired { notice } && notice@ == library.name@
            + " is not required on "@ + crate::rules::os_label(os)),
        crate::rules::rules_allow(library.rules, os) && !found.wanted(
            library.downloads.artifact.sha1@,
        ) ==> step.action is UpToDate,
        crate::rules::rules_allow(library.rules, os) && found.wanted(
            library.downloads.artifact.sha1@,
        ) ==> (step.action matches LibraryAction::Download(request) && request.url@
            == library.downloads.artifact.url@ && request.path@ == path),
        step.action is Download <==> fetched(library, os, found),
        fetched(library, os, found) <==> crate::rules::rules_allow(library.rules, os)
            && found.wanted(library.downloads.artifact.sha1@),
{
}

/// A missing library with a rule that allows it on the system, and no later rule that names the
/// system, is fetched.
pub proof fn law_allowed_missing_library_is_fetched(
    library: Library,
    rules: Vec<Rule>,
    os: OsName,
    i: int,
    path: Seq<char>,
    step: LibraryStep,
)
    requires
        library.rules == Some(rules),
        0 <= i < rules@.len(),
        rules@[i].os matches Some(system) && system.name == Some(os),
        rules@[i].action is Allow,
        forall|j: int|
            i < j < rules@.len() ==> !((#[trigger] rules@[j]).os matches Some(system)
                && system.name == Some(os)),
        library_step(library, os, FoundFile::Missing, path, step),
    ensures
        step.damage is None,
        step.action matches LibraryAction::Download(request) && request.url@
            == library.downloads.artifact.url@ && request.path@ == path,
{
    crate::rules::law_required_as_the_last_named_rule_says(rules, os, i);
}

/// Each claim gives the position whose turn it is and passes the turn to the one after it, until
/// all positions are taken.
pub proof fn law_a_claim_passes_the_turn_on(taken: Claims)
    requires
        taken.next <= taken.count,
    ensures
        taken.wf(),
        taken.next < taken.count ==> taken.next_claim() == Some(taken.next)
            && taken.after_claim().next == taken.next + 1 && taken.after_claim().count
            == taken.count,
        taken.next == taken.count ==> taken.next_claim() is None && taken.after_claim() == taken,
{
}

/// No position is claimed twice.
pub proof fn law_no_library_is_taken_twice(taken: Claims, tasks: nat, i: int, j: int)
    requires
        taken.next <= taken.count,
        0 <= i < j < tasks,
        taken.claims(tasks)[i] is Some,
    ensures
        taken.claims(tasks)[i] != taken.claims(tasks)[j],
{
    law_each_library_is_taken_once(taken, tasks, i);
    law_each_library_is_taken_once(taken, tasks, j);
}

/// What is decided about a library depends on that library and what was found of it alone.
pub proof fn law_each_library_is_decided_by_itself(
    pool: LibraryPool,
    found: Seq<FoundFile>,
    i: int,
)
    requires
        0 <= i < pool.libraries@.len(),
    ensures
        decisions(pool, found).len() == pool.libraries@.len(),
        decisions(pool, found)[i].0 <==> crate::rules::rules_allow(
            pool.libraries@[i].rules,
            pool.os,
        ) && found[i].wanted(pool.libraries@[i].downloads.artifact.sha1@),
        decisions(pool, found)[i].1 == pool.libraries@[i].downloads.artifact.size,
{
}

} // verus!
