//! What was found where a file belongs, and whether it has to be fetched.
use vstd::prelude::*;

use crate::address::{extract_filename, FilenameError};
use crate::checksum::{validate_sha1, Sha1Error};
use crate::progress::Progress;

verus! {

/// What was found at the place of a file.
#[derive(Debug)]
pub enum FoundFile {
    /// Nothing.
    Missing,
    /// A file that could not be read; the text is the operating system's.
    Unreadable(String),
    /// A file with these contents.
    Contents(Vec<u8>),
}

/// A file to fetch: where it is, and where it goes.
#[derive(Debug, PartialEq, Eq)]
pub struct DownloadRequest {
    pub url: String,
    pub path: String,
}

/// What is known of a file that a download offers.
#[derive(Debug, PartialEq, Eq)]
pub struct DownloadMetadata {
    pub sha1: String,
    pub size: usize,
    pub url: String,
}

/// What comes of looking at one file: what is wrong with the one that is there, and what to fetch.
#[derive(Debug)]
pub struct FileStep {
    pub damage: Option<Sha1Error>,
    pub request: Option<DownloadRequest>,
}

impl FoundFile {
    /// Whether the contents, if any, are short enough to have a digest.
    pub open spec fn hashable(self) -> bool {
        self matches FoundFile::Contents(contents) ==> contents@.len()
            <= crate::checksum::MAX_HASHED_LEN
    }

    /// Whether the file has to be fetched, given the expected digest: always, unless it is there,
    /// can be read and has that digest.
    pub open spec fn wanted(self, sha1: Seq<char>) -> bool {
        match self {
            FoundFile::Contents(contents) => !crate::checksum::names_digest(
                sha1,
                crate::checksum::sha1_digest(contents@),
            ),
            _ => true,
        }
    }

    /// Whether `damage` is what is wrong with a file that is there. Of a missing one nothing is
    /// said.
    pub open spec fn damaged_by(
        self,
        path: Seq<char>,
        sha1: Seq<char>,
        damage: Option<Sha1Error>,
    ) -> bool {
        match self {
            FoundFile::Missing => damage is None,
            FoundFile::Unreadable(message) => damage == Some(Sha1Error::Unreadable(message)),
            FoundFile::Contents(contents) => crate::checksum::digest_outcome(
                crate::checksum::sha1_digest(contents@),
                path,
                sha1,
                match damage {
                    Some(error) => Err(error),
                    None => Ok(()),
                },
            ),
        }
    }

    /// Looks at the file found at `path`: whether it has to be fetched, and what is wrong with it.
    pub fn inspect(self, path: &str, sha1: &str) -> (result: (bool, Option<Sha1Error>))
        requires
            self.hashable(),
        ensures
            result.0 == self.wanted(sha1@),
            self.damaged_by(path@, sha1@, result.1),
    {
        match self {
            FoundFile::Missing => (true, None),
            FoundFile::Unreadable(message) => (true, Some(Sha1Error::Unreadable(message))),
            FoundFile::Contents(contents) => {
                match validate_sha1(contents.as_slice(), path, sha1) {
                    Ok(()) => (false, None),
                    Err(error) => (true, Some(error)),
                }
            },
        }
    }
}

/// What is said where a damaged file is about to be replaced.
pub open spec fn redownload_text(error: Sha1Error) -> Seq<char> {
    crate::checksum::sha1_error_text(error) + ", \nredownloading."@
}

/// What to say where a damaged file is about to be replaced.
pub fn redownload_notice(error: &Sha1Error) -> (text: String)
    ensures
        text@ == redownload_text(*error),
{
    error.message().concat(", \nredownloading.")
}

/// Whether `request` asks for exactly the file at `url`, to be put at `path`.
pub open spec fn asks_for(request: DownloadRequest, url: Seq<char>, path: Seq<char>) -> bool {
    request.url@ == url && request.path@ == path
}

/// Whether `step` is what comes of looking at one file: it is fetched exactly when it is wanted.
pub open spec fn file_step(
    found: FoundFile,
    url: Seq<char>,
    path: Seq<char>,
    sha1: Seq<char>,
    step: FileStep,
) -> bool {
    &&& found.damaged_by(path, sha1, step.damage)
    &&& match step.request {
        Some(request) => found.wanted(sha1) && asks_for(request, url, path),
        None => !found.wanted(sha1),
    }
}

/// Decides whether the file at `path` has to be fetched from `url`, and counts it where it has.
pub fn plan_file(
    found: FoundFile,
    url: &str,
    path: &str,
    sha1: &str,
    size: usize,
    progress: &mut Progress,
) -> (step: FileStep)
    requires
        found.hashable(),
    ensures
        file_step(found, url@, path@, sha1@, step),
        final(progress).total == crate::progress::total_after(
            old(progress).total,
            found.wanted(sha1@),
            size,
        ),
        final(progress).current == old(progress).current,
{
    let (wanted, damage) = found.inspect(path, sha1);
    let request = if wanted {
        progress.start_download(size);
        Some(DownloadRequest { url: url.to_owned(), path: path.to_owned() })
    } else {
        None
    };
    FileStep { damage, request }
}

/// Decides whether the client has to be fetched. It goes into the file that its address names, in
/// the working directory; an address that names none is refused, and nothing is counted.
pub fn plan_client(client: &DownloadMetadata, found: FoundFile, progress: &mut Progress) -> (result:
    Result<FileStep, FilenameError>)
    requires
        found.hashable(),
        client.url@.len() <= crate::address::MAX_URL_LEN,
    ensures
        match result {
            Ok(step) => {
                &&& crate::address::filename(
                    crate::address::url_path_segments(client.url@),
                ) matches Some(name)
                &&& file_step(found, client.url@, name, client.sha1@, step)
                &&& final(progress).total == crate::progress::total_after(
                    old(progress).total,
                    found.wanted(client.sha1@),
                    client.size,
                )
            },
            Err(error) => {
                &&& crate::address::filename_outcome(
                    crate::address::url_path_segments(client.url@),
                    Err(error),
                )
                &&& final(progress).total == old(progress).total
            },
        },
        final(progress).current == old(progress).current,
{
    match extract_filename(client.url.as_str()) {
        Ok(name) => {
            Ok(
                plan_file(
                    found,
                    client.url.as_str(),
                    name.as_str(),
                    client.sha1.as_str(),
                    client.size,
                    progress,
                ),
            )
        },
        Err(error) => Err(error),
    }
}

/// A file whose digest is the expected one is left alone: it is not fetched, nothing is wrong with
/// it and the total does not change.
pub proof fn law_intact_files_are_left_alone(
    contents: Vec<u8>,
    url: Seq<char>,
    path: Seq<char>,
    sha1: Seq<char>,
    total: usize,
    size: usize,
    step: FileStep,
)
    requires
        crate::checksum::names_digest(sha1, crate::checksum::sha1_digest(contents@)),
        file_step(FoundFile::Contents(contents), url, path, sha1, step),
    ensures
        step.request is None,
        step.damage is None,
        crate::progress::total_after(
            total,
            FoundFile::Contents(contents).wanted(sha1),
            size,
        ) == total,
{
}

/// A file that is there is replaced exactly when something is wrong with it.
pub proof fn law_replaced_exactly_when_damaged(
    found: FoundFile,
    url: Seq<char>,
    path: Seq<char>,
    sha1: Seq<char>,
    step: FileStep,
)
    requires
        !(found matches FoundFile::Missing),
        file_step(found, url, path, sha1, step),
    ensures
        step.request is Some == step.damage is Some,
{
}

/// A file whose contents do not have the expected digest is fetched again, however long it is:
/// something is wrong with it, and the request asks for exactly that file.
pub proof fn law_damaged_files_are_fetched(
    contents: Vec<u8>,
    url: Seq<char>,
    path: Seq<char>,
    sha1: Seq<char>,
    total: usize,
    size: usize,
    step: FileStep,
)
    requires
        sha1.map_values(|c: char| crate::checksum::ascii_lower(c)) != crate::checksum::hex_text(
            crate::checksum::sha1_digest(contents@),
        ),
        file_step(FoundFile::Contents(contents), url, path, sha1, step),
    ensures
        FoundFile::Contents(contents).wanted(sha1),
        step.damage is Some,
        step.request matches Some(request) && request.url@ == url && request.path@ == path,
        total + size <= usize::MAX ==> crate::progress::total_after(
            total,
            FoundFile::Contents(contents).wanted(sha1),
            size,
        ) == total + size,
{
    crate::checksum::law_named_digest_is_the_hexadecimal_form(
        sha1,
        crate::checksum::sha1_digest(contents@),
    );
    crate::progress::law_only_fetched_files_are_counted(total, size);
}

/// What is wrong with a file is told by its digest: a readable digest that differs is reported
/// beside the one expected.
pub proof fn law_damage_is_told_by_the_digest(
    contents: Vec<u8>,
    path: Seq<char>,
    sha1: Seq<char>,
    damage: Option<Sha1Error>,
)
    requires
        FoundFile::Contents(contents).damaged_by(path, sha1, damage),
    ensures
        damage is None <==> sha1.map_values(|c: char| crate::checksum::ascii_lower(c))
            == crate::checksum::hex_text(crate::checksum::sha1_digest(contents@)),
        !(damage matches Some(Sha1Error::Unreadable(_))),
        damage matches Some(Sha1Error::Mismatch { message }) ==> message@ == "\n"@ + path
            + " hash don't fit!\nget: "@ + crate::checksum::hex_text(
            crate::checksum::sha1_digest(contents@),
        ) + "\nexpected: "@ + sha1 + "\n"@,
        damage matches Some(Sha1Error::InvalidHex(error)) ==> crate::checksum::hex_refused(
            vstd::utf8::encode_utf8(sha1),
            error,
        ),
{
    let result: Result<(), Sha1Error> = match damage {
        Some(error) => Err(error),
        None => Ok(()),
    };
    crate::checksum::law_every_digest_has_its_outcome(
        crate::checksum::sha1_digest(contents@),
        path,
        sha1,
        result,
    );
}

/// A file that is not there is fetched without a word, and one that cannot be read is fetched after
/// the operating system's message is reported.
pub proof fn law_missing_and_unreadable_files_are_fetched(
    message: String,
    url: Seq<char>,
    path: Seq<char>,
    sha1: Seq<char>,
    missing: FileStep,
    unreadable: FileStep,
)
    requires
        file_step(FoundFile::Missing, url, path, sha1, missing),
        file_step(FoundFile::Unreadable(message), url, path, sha1, unreadable),
    ensures
        FoundFile::Missing.wanted(sha1),
        FoundFile::Unreadable(message).wanted(sha1),
        missing.damage is None,
        missing.request matches Some(request) && request.url@ == url && request.path@ == path,
        unreadable.damage == Some(Sha1Error::Unreadable(message)),
        unreadable.request matches Some(request) && request.url@ == url && request.path@ == path,
{
}

/// Whether a file is wanted is decided by its digest and the expected one: a file that is there is
/// wanted exactly when the expected text is not the hexadecimal form of its digest.
pub proof fn law_wanted_is_decided_by_the_digest(contents: Vec<u8>, sha1: Seq<char>)
    ensures
        FoundFile::Contents(contents).wanted(sha1) <==> sha1.map_values(
            |c: char| crate::checksum::ascii_lower(c),
        ) != crate::checksum::hex_text(crate::checksum::sha1_digest(contents@)),
{
    crate::checksum::law_named_digest_is_the_hexadecimal_form(
        sha1,
        crate::checksum::sha1_digest(contents@),
    );
}

/// A file can be looked at unless its length in bits is beyond 64 bits.
pub proof fn law_only_the_longest_contents_have_no_digest(contents: Vec<u8>, message: String)
    ensures
        FoundFile::Contents(contents).hashable() <==> 8 * contents@.len() <= u64::MAX,
        FoundFile::Missing.hashable(),
        FoundFile::Unreadable(message).hashable(),
{
}

/// The notice of a replaced file is what is wrong with it, followed by the same words each time.
pub proof fn law_redownload_notice(error: Sha1Error)
    ensures
        redownload_text(error) == crate::checksum::sha1_error_text(error)
            + ", \nredownloading."@,
{
}

/// Of a file that is not there nothing is reported, and of one that cannot be read exactly the
/// operating system's message.
pub proof fn law_damage_without_contents(
    message: String,
    path: Seq<char>,
    sha1: Seq<char>,
    damage: Option<Sha1Error>,
)
    ensures
        FoundFile::Missing.damaged_by(path, sha1, damage) <==> damage is None,
        FoundFile::Unreadable(message).damaged_by(path, sha1, damage) <==> damage == Some(
            Sha1Error::Unreadable(message),
        ),
{
}

/// A request asks for the file at its own address, to be put at its own path, and for no other.
pub proof fn law_requests_ask_for_one_file(request: DownloadRequest, url: Seq<char>, path: Seq<char>)
    ensures
        asks_for(request, url, path) <==> request.url@ == url && request.path@ == path,
{
}

/// Of two files with the same digest, held against the same expected one, both are wanted or
/// neither is.
pub proof fn law_equal_digests_are_treated_alike(left: Vec<u8>, right: Vec<u8>, sha1: Seq<char>)
    requires
        crate::checksum::sha1_digest(left@) == crate::checksum::sha1_digest(right@),
    ensures
        FoundFile::Contents(left).wanted(sha1) == FoundFile::Contents(right).wanted(sha1),
{
}

} // verus!
