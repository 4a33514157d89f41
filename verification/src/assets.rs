//! The assets of a release: the index that lists them, and the queue that fetches them.
use vstd::prelude::*;

use crate::files::{plan_file, FileStep, FoundFile};
use crate::json::Json;
use crate::progress::Progress;

verus! {

/// Why an asset index cannot be used.
#[derive(Debug, Clone, Copy, PartialEq, Eq, Structural)]
pub enum AssetError {
    /// It has no list of objects.
    NoObjects,
    /// The hash of an object is no string.
    HashNotText,
    /// The size of an object is no non-negative integer of at most 64 bits.
    SizeNotNumber,
    /// The size of an object does not fit in this machine's sizes.
    SizeTooLarge,
}

/// What is said of an asset index that cannot be used.
pub open spec fn asset_error_text(error: AssetError) -> Seq<char> {
    match error {
        AssetError::NoObjects => "Failure to parse asset_index_content[\"objects\"]"@,
        AssetError::HashNotText => "asset hash is not a string"@,
        AssetError::SizeNotNumber => "asset size is not u64"@,
        AssetError::SizeTooLarge => "out of range integral type conversion attempted"@,
    }
}

impl AssetError {
    /// The text that tells a person what is wrong with the index.
    pub fn message(&self) -> (text: String)
        ensures
            text@ == asset_error_text(*self),
    {
        match self {
            AssetError::NoObjects => "Failure to parse asset_index_content[\"objects\"]".to_owned(),
            AssetError::HashNotText => "asset hash is not a string".to_owned(),
            AssetError::SizeNotNumber => "asset size is not u64".to_owned(),
            AssetError::SizeTooLarge => {
                "out of range integral type conversion attempted".to_owned()
            },
        }
    }
}

/// Why an asset cannot be put in its place.
#[derive(Debug, Clone, Copy, PartialEq, Eq, Structural)]
pub enum DirectoryError {
    /// Its place lies in no directory.
    NoParent,
}

impl DirectoryError {
    /// The text that tells a person what is wrong with the place.
    pub fn message(&self) -> (text: String)
        ensures
            text@ == "can't find asset_download's parent dir"@,
    {
        match self {
            DirectoryError::NoParent => "can't find asset_download's parent dir".to_owned(),
        }
    }
}

/// The directory to create before an asset is put in its place. `parent` is the directory that the
/// place lies in, where it lies in one; without one the work ends.
pub fn asset_directory(parent: Option<&str>) -> (result: Result<String, DirectoryError>)
    ensures
        match parent {
            Some(parent) => result matches Ok(directory) && directory@ == parent@,
            None => result == Err::<String, DirectoryError>(DirectoryError::NoParent),
        },
{
    match parent {
        Some(parent) => Ok(parent.to_owned()),
        None => Err(DirectoryError::NoParent),
    }
}

/// The assets to have: of each its address, its digest, its place and its size, at the same
/// position of the four lists. There are as many assets as addresses; what the other lists hold
/// beyond that belongs to no asset.
#[derive(Debug)]
pub struct AssetDownloads {
    pub list: Vec<String>,
    pub hash: Vec<String>,
    pub path: Vec<String>,
    pub size: Vec<usize>,
}

/// Where an asset lies, below the server's and the installation's directory of objects: in a
/// directory named by the first two characters of its hash, under its hash.
pub open spec fn asset_place(hash: Seq<char>) -> Seq<char> {
    hash.take(if hash.len() < 2 {
        hash.len() as int
    } else {
        2
    }) + "/"@ + hash
}

/// The address of an asset.
pub open spec fn asset_url(hash: Seq<char>) -> Seq<char> {
    "https://resources.download.minecraft.net/"@ + asset_place(hash)
}

/// The file of an asset.
pub open spec fn asset_path(hash: Seq<char>) -> Seq<char> {
    ".minecraft/assets/objects/"@ + asset_place(hash)
}

/// The hash that an object of the index gives.
pub open spec fn object_hash(object: Json) -> Option<Seq<char>> {
    object.field("hash"@).text()
}

/// The size that an object of the index gives.
pub open spec fn object_size(object: Json) -> Option<u64> {
    object.field("size"@).number()
}

/// What is wrong with an object of the index, if anything. The hash is looked at first.
pub open spec fn object_error(object: Json) -> Option<AssetError> {
    if object_hash(object) is None {
        Some(AssetError::HashNotText)
    } else {
        match object_size(object) {
            None => Some(AssetError::SizeNotNumber),
            Some(size) => if size > usize::MAX {
                Some(AssetError::SizeTooLarge)
            } else {
                None
            },
        }
    }
}

/// What is wrong with the first bad object of the index, if there is one.
pub open spec fn first_error(objects: Seq<(String, Json)>) -> Option<AssetError>
    decreases objects.len(),
{
    if objects.len() == 0 {
        None
    } else if object_error(objects[0].1) is Some {
        object_error(objects[0].1)
    } else {
        first_error(objects.skip(1))
    }
}

impl AssetDownloads {
    /// Every address has a digest, a place and a size beside it.
    pub open spec fn wf(self) -> bool {
        &&& self.hash@.len() >= self.list@.len()
        &&& self.path@.len() >= self.list@.len()
        &&& self.size@.len() >= self.list@.len()
    }

    /// Whether position `i` of the lists describes `object`.
    pub open spec fn describes(self, i: int, object: Json) -> bool {
        &&& object_hash(object) == Some(self.hash@[i]@)
        &&& object_size(object) == Some(self.size@[i] as u64)
        &&& self.list@[i]@ == asset_url(self.hash@[i]@)
        &&& self.path@[i]@ == asset_path(self.hash@[i]@)
    }

    /// Whether the lists hold the objects of an index, in its order, and nothing else.
    pub open spec fn lists(self, objects: Seq<(String, Json)>) -> bool {
        &&& self.list@.len() == objects.len()
        &&& self.hash@.len() == objects.len()
        &&& self.path@.len() == objects.len()
        &&& self.size@.len() == objects.len()
        &&& forall|i: int| 0 <= i < objects.len() ==> self.describes(i, #[trigger] objects[i].1)
    }
}

/// Joins `base` and the place of an asset below it.
fn below(base: &str, hash: &str) -> (place: String)
    ensures
        place@ == base@ + asset_place(hash@),
{
    let len = hash.unicode_len();
    let prefix = hash.substring_char(
        0,
        if len < 2 {
            len
        } else {
            2
        },
    );
    let mut place = base.to_owned();
    place.append(prefix);
    place.append("/");
    place.append(hash);
    proof {
        assert(prefix@ =~= hash@.take(if hash@.len() < 2 {
            hash@.len() as int
        } else {
            2
        }));
        assert(place@ =~= base@ + asset_place(hash@));
    }
    place
}

/// The assets that an index lists, in its order. The first object that lacks a hash or a usable
/// size has the whole index refused.
pub fn extract_assets(asset_index_content: &Json) -> (result: Result<AssetDownloads, AssetError>)
    ensures
        match asset_index_content.field("objects"@).members() {
            None => result matches Err(AssetError::NoObjects),
            Some(objects) => match first_error(objects) {
                Some(error) => result matches Err(e) && e == error,
                None => result matches Ok(downloads) && downloads.lists(objects),
            },
        },
{
    let objects = match asset_index_content.get("objects").as_object() {
        Some(objects) => objects,
        None => return Err(AssetError::NoObjects),
    };
    let mut downloads = AssetDownloads {
        list: Vec::new(),
        hash: Vec::new(),
        path: Vec::new(),
        size: Vec::new(),
    };
    proof {
        assert(objects@.skip(0) =~= objects@);
    }
    for i in 0..objects.len()
        invariant
            downloads.lists(objects@.take(i as int)),
            first_error(objects@) == first_error(objects@.skip(i as int)),
            asset_index_content.field("objects"@).members() == Some(objects@),
    {
        let ghost rest = objects@.skip(i as int);
        let ghost before = downloads;
        let object = &objects[i].1;
        assert(rest[0].1 == *object);
        let hash = match object.get("hash").as_str() {
            Some(hash) => hash,
            None => return Err(AssetError::HashNotText),
        };
        let size = match object.get("size").as_u64() {
            Some(size) => size,
            None => return Err(AssetError::SizeNotNumber),
        };
        if size > usize::MAX as u64 {
            return Err(AssetError::SizeTooLarge);
        }
        downloads.list.push(below("https://resources.download.minecraft.net/", hash));
        downloads.hash.push(hash.to_owned());
        downloads.path.push(below(".minecraft/assets/objects/", hash));
        downloads.size.push(size as usize);
        proof {
            assert(rest.skip(1) =~= objects@.skip(i + 1));
            assert forall|j: int| 0 <= j < i + 1 implies downloads.describes(
                j,
                #[trigger] objects@.take(i + 1)[j].1,
            ) by {
                if j < i {
                    assert(before.describes(j, objects@.take(i as int)[j].1));
                }
            }
        }
    }
    proof {
        assert(objects@.take(objects@.len() as int) =~= objects@);
        assert(objects@.skip(objects@.len() as int) =~= Seq::empty());
    }
    Ok(downloads)
}

/// The assets of a release, which are looked at one after the other.
#[derive(Debug)]
pub struct AssetQueue {
    pub downloads: AssetDownloads,
    pub next: usize,
}

/// The queue of the assets of a release, of which none has been looked at.
pub fn parallel_assets(downloads: AssetDownloads) -> (queue: AssetQueue)
    requires
        downloads.wf(),
    ensures
        queue.wf(),
        queue == (AssetQueue { downloads, next: 0 }),
{
    AssetQueue { downloads, next: 0 }
}

impl AssetQueue {
    /// Every asset is complete, and no more were looked at than there are.
    pub open spec fn wf(self) -> bool {
        self.downloads.wf() && self.next <= self.downloads.list@.len()
    }

    /// Whether every asset was looked at.
    pub open spec fn finished(self) -> bool {
        self.next >= self.downloads.list@.len()
    }

    /// The place of the asset to look at next; `None` at the end.
    pub fn next_path(&self) -> (path: Option<&str>)
        requires
            self.wf(),
        ensures
            match path {
                Some(path) => !self.finished() && path@
                    == self.downloads.path@[self.next as int]@,
                None => self.finished(),
            },
    {
        if self.next < self.downloads.list.len() {
            Some(self.downloads.path[self.next].as_str())
        } else {
            None
        }
    }

    /// Decides whether the next asset, of which `found` was found at its place, is fetched, counts
    /// it where it is, and goes on to the one after it. At the end nothing happens.
    pub fn advance(&mut self, found: FoundFile, progress: &mut Progress) -> (result: Option<FileStep>)
        requires
            old(self).wf(),
            found.hashable(),
        ensures
            final(self).wf(),
            final(self).downloads == old(self).downloads,
            match result {
                Some(step) => {
                    let i = old(self).next as int;
                    let downloads = old(self).downloads;
                    &&& !old(self).finished()
                    &&& final(self).next == i + 1
                    &&& crate::files::file_step(
                        found,
                        downloads.list@[i]@,
                        downloads.path@[i]@,
                        downloads.hash@[i]@,
                        step,
                    )
                    &&& final(progress).total == crate::progress::total_after(
                        old(progress).total,
                        found.wanted(downloads.hash@[i]@),
                        downloads.size@[i],
                    )
                },
                None => {
                    &&& old(self).finished()
                    &&& final(self).next == old(self).next
                    &&& final(progress).total == old(progress).total
                },
            },
            final(progress).current == old(progress).current,
    {
        let index = self.next;
        if index >= self.downloads.list.len() {
            return None;
        }
        let step = plan_file(
            found,
            self.downloads.list[index].as_str(),
            self.downloads.path[index].as_str(),
            self.downloads.hash[index].as_str(),
            self.downloads.size[index],
            progress,
        );
        self.next = index + 1;
        Some(step)
    }
}

/// An index is accepted exactly when each of its objects has a hash and a usable size.
pub proof fn law_index_accepted_when_every_object_is_good(objects: Seq<(String, Json)>)
    ensures
        first_error(objects) is None <==> forall|i: int|
            0 <= i < objects.len() ==> object_error(#[trigger] objects[i].1) is None,
    decreases objects.len(),
{
    if objects.len() > 0 {
        let rest = objects.skip(1);
        law_index_accepted_when_every_object_is_good(rest);
        if first_error(objects) is None {
            assert forall|i: int| 0 <= i < objects.len() implies object_error(
                #[trigger] objects[i].1,
            ) is None by {
                if i > 0 {
                    assert(rest[i - 1] == objects[i]);
                }
            }
        } else if object_error(objects[0].1) is None {
            let k = choose|k: int|
                0 <= k < rest.len() && object_error(#[trigger] rest[k].1) is Some;
            assert(objects[k + 1] == rest[k]);
        }
    }
}

/// The first bad object of an index decides how it is refused.
pub proof fn law_first_bad_object_is_reported(objects: Seq<(String, Json)>, k: int)
    requires
        0 <= k < objects.len(),
        object_error(objects[k].1) is Some,
        forall|i: int| 0 <= i < k ==> object_error(#[trigger] objects[i].1) is None,
    ensures
        first_error(objects) == object_error(objects[k].1),
    decreases objects.len(),
{
    if k > 0 {
        let rest = objects.skip(1);
        assert(rest[k - 1] == objects[k]);
        assert forall|i: int| 0 <= i < k - 1 implies object_error(#[trigger] rest[i].1) is None by {
            assert(rest[i] == objects[i + 1]);
        }
        law_first_bad_object_is_reported(rest, k - 1);
    }
}

/// Assets with different hashes go to different files, and come from different addresses.
pub proof fn law_different_assets_do_not_collide(left: Seq<char>, right: Seq<char>)
    requires
        left != right,
    ensures
        asset_path(left) != asset_path(right),
        asset_url(left) != asset_url(right),
{
    lemma_place_determines_hash(left, right);
    if asset_path(left) == asset_path(right) {
        let base = ".minecraft/assets/objects/"@;
        assert(asset_place(left) =~= asset_path(left).skip(base.len() as int));
        assert(asset_place(right) =~= asset_path(right).skip(base.len() as int));
    }
    if asset_url(left) == asset_url(right) {
        let base = "https://resources.download.minecraft.net/"@;
        assert(asset_place(left) =~= asset_url(left).skip(base.len() as int));
        assert(asset_place(right) =~= asset_url(right).skip(base.len() as int));
    }
}

/// What is decided about the assets, in their order. `found` holds what was found of each.
pub open spec fn decisions(downloads: AssetDownloads, found: Seq<FoundFile>) -> Seq<(bool, usize)> {
    Seq::new(
        downloads.list@.len(),
        |i: int| (found[i].wanted(downloads.hash@[i]@), downloads.size@[i]),
    )
}

/// The total grows by the sum of the sizes of the assets that are missing or damaged.
pub proof fn law_asset_total(downloads: AssetDownloads, found: Seq<FoundFile>, start: usize)
    requires
        downloads.wf(),
        found.len() == downloads.list@.len(),
    ensures
        crate::progress::total_after_all(start, decisions(downloads, found))
            == crate::progress::wrapped(
            start + crate::progress::sum(
                decisions(downloads, found).map_values(
                    |decision: (bool, usize)| crate::progress::amount(decision),
                ),
            ),
        ),
{
    crate::progress::law_total_is_the_sum(start, decisions(downloads, found));
}

/// The addresses alone bound the work: what the other lists hold beyond them changes no decision.
pub proof fn law_surplus_entries_are_not_looked_at(
    left: AssetDownloads,
    right: AssetDownloads,
    found: Seq<FoundFile>,
)
    requires
        left.wf(),
        right.wf(),
        left.list@ == right.list@,
        left.hash@.take(left.list@.len() as int) == right.hash@.take(left.list@.len() as int),
        left.size@.take(left.list@.len() as int) == right.size@.take(left.list@.len() as int),
    ensures
        decisions(left, found) == decisions(right, found),
{
    let count = left.list@.len() as int;
    assert forall|i: int| 0 <= i < count implies #[trigger] left.hash@[i] == right.hash@[i]
        && left.size@[i] == right.size@[i] by {
        assert(left.hash@.take(count)[i] == right.hash@.take(count)[i]);
        assert(left.size@.take(count)[i] == right.size@.take(count)[i]);
    }
    assert(decisions(left, found) =~= decisions(right, found));
}

/// Where every asset is intact, nothing is fetched and the total stays what it was.
pub proof fn law_up_to_date_assets_are_left_alone(
    downloads: AssetDownloads,
    found: Seq<FoundFile>,
    start: usize,
)
    requires
        downloads.wf(),
        found.len() == downloads.list@.len(),
        forall|i: int|
            0 <= i < found.len() ==> !(#[trigger] found[i]).wanted(downloads.hash@[i]@),
    ensures
        crate::progress::total_after_all(start, decisions(downloads, found)) == start,
{
    let all = decisions(downloads, found);
    assert forall|i: int| 0 <= i < all.len() implies !(#[trigger] all[i]).0 by {
        assert(!found[i].wanted(downloads.hash@[i]@));
    }
    crate::progress::law_nothing_fetched_nothing_counted(start, all);
}

proof fn lemma_place_determines_hash(left: Seq<char>, right: Seq<char>)
    ensures
        asset_place(left) == asset_place(right) ==> left == right,
{
    reveal_strlit("/");
    if asset_place(left) == asset_place(right) {
        let place = asset_place(left);
        let prefix_len = |hash: Seq<char>| if hash.len() < 2 {
            hash.len() as int
        } else {
            2
        };
        assert(asset_place(left).len() == prefix_len(left) + 1 + left.len());
        assert(asset_place(right).len() == prefix_len(right) + 1 + right.len());
        assert(left =~= place.skip(place.len() - left.len()));
        assert(right =~= place.skip(place.len() - right.len()));
    }
}

/// An asset lies under its hash, in a directory named by the first two characters of it, both on
/// the server and in the installation; a shorter hash names its directory whole.
pub proof fn law_assets_lie_under_their_hash(hash: Seq<char>)
    ensures
        hash.len() >= 2 ==> {
            &&& asset_url(hash) == "https://resources.download.minecraft.net/"@ + seq![
                hash[0],
                hash[1],
            ] + "/"@ + hash
            &&& asset_path(hash) == ".minecraft/assets/objects/"@ + seq![hash[0], hash[1]] + "/"@
                + hash
        },
        hash.len() < 2 ==> {
            &&& asset_url(hash) == "https://resources.download.minecraft.net/"@ + hash + "/"@
                + hash
            &&& asset_path(hash) == ".minecraft/assets/objects/"@ + hash + "/"@ + hash
        },
{
    let prefix = if hash.len() >= 2 {
        seq![hash[0], hash[1]]
    } else {
        hash
    };
    assert(asset_place(hash) =~= prefix + "/"@ + hash);
    let server = "https://resources.download.minecraft.net/"@;
    let folder = ".minecraft/assets/objects/"@;
    assert(asset_url(hash) =~= server + prefix + "/"@ + hash);
    assert(asset_path(hash) =~= folder + prefix + "/"@ + hash);
}

/// An object of the index is good exactly when its hash is a string and its size a number that fits
/// in a size of this machine; otherwise what is wrong with it is told, the hash first.
pub proof fn law_good_objects(object: Json)
    ensures
        object_error(object) is None <==> object.field("hash"@) is Text && (object.field(
            "size"@,
        ) matches Json::Number(Some(size)) && size <= usize::MAX),
        object_error(object) == Some(AssetError::HashNotText) <==> !(object.field(
            "hash"@,
        ) is Text),
        object_error(object) == Some(AssetError::SizeNotNumber) <==> object.field("hash"@) is Text
            && !(object.field("size"@) matches Json::Number(Some(_))),
        object_error(object) != Some(AssetError::NoObjects),
{
}

/// The lists of an accepted index hold each object at its position: its hash as it stands, its
/// size as it stands, and the address and the file that the hash gives.
pub proof fn law_lists_hold_each_object(
    downloads: AssetDownloads,
    objects: Seq<(String, Json)>,
    i: int,
)
    requires
        downloads.lists(objects),
        0 <= i < objects.len(),
    ensures
        downloads.list@.len() == objects.len(),
        downloads.hash@.len() == objects.len(),
        downloads.path@.len() == objects.len(),
        downloads.size@.len() == objects.len(),
        objects[i].1.field("hash"@) matches Json::Text(hash) && downloads.hash@[i]@ == hash@
            && downloads.list@[i]@ == asset_url(hash@) && downloads.path@[i]@ == asset_path(hash@),
        objects[i].1.field("size"@) matches Json::Number(Some(size)) && downloads.size@[i] == size,
{
    assert(downloads.describes(i, objects[i].1));
}

/// The lists of an empty index are empty.
pub proof fn law_empty_index_gives_empty_lists(downloads: AssetDownloads)
    requires
        downloads.lists(Seq::empty()),
    ensures
        downloads.list@.len() == 0,
        downloads.hash@.len() == 0,
        downloads.path@.len() == 0,
        downloads.size@.len() == 0,
        first_error(Seq::empty()) is None,
{
}

/// What is wrong with two lots of objects put together is what is wrong with the first lot, and
/// where that is nothing what is wrong with the second.
pub proof fn law_errors_of_two_lots(first: Seq<(String, Json)>, second: Seq<(String, Json)>)
    ensures
        first_error(first + second) == if first_error(first) is Some {
            first_error(first)
        } else {
            first_error(second)
        },
    decreases first.len(),
{
    if first.len() == 0 {
        assert(first + second =~= second);
    } else {
        assert((first + second)[0] == first[0]);
        assert((first + second).skip(1) =~= first.skip(1) + second);
        law_errors_of_two_lots(first.skip(1), second);
    }
}

/// The queue is at its end exactly when it has passed as many assets as there are addresses.
pub proof fn law_queue_ends_with_the_addresses(queue: AssetQueue)
    ensures
        queue.finished() <==> queue.next >= queue.downloads.list@.len(),
        queue.wf() <==> {
            &&& queue.next <= queue.downloads.list@.len()
            &&& queue.downloads.list@.len() <= queue.downloads.hash@.len()
            &&& queue.downloads.list@.len() <= queue.downloads.path@.len()
            &&& queue.downloads.list@.len() <= queue.downloads.size@.len()
        },
{
}

/// What is decided about an asset depends on its own hash and size, and on what was found of it.
pub proof fn law_each_asset_is_decided_by_itself(
    downloads: AssetDownloads,
    found: Seq<FoundFile>,
    i: int,
)
    requires
        0 <= i < downloads.list@.len(),
    ensures
        decisions(downloads, found).len() == downloads.list@.len(),
        decisions(downloads, found)[i].0 <==> found[i].wanted(downloads.hash@[i]@),
        decisions(downloads, found)[i].1 == downloads.size@[i],
{
}

/// Each reason for which an index cannot be used is told in its own words.
pub proof fn law_asset_errors_have_their_texts()
    ensures
        asset_error_text(AssetError::NoObjects)
            == "Failure to parse asset_index_content[\"objects\"]"@,
        asset_error_text(AssetError::HashNotText) == "asset hash is not a string"@,
        asset_error_text(AssetError::SizeNotNumber) == "asset size is not u64"@,
        asset_error_text(AssetError::SizeTooLarge)
            == "out of range integral type conversion attempted"@,
{
}

} // verus!
