//! Web addresses and the file names they end in.
use vstd::prelude::*;

verus! {

/// The number of characters of the longest address that can be parsed: the parser counts
/// characters in a signed 32-bit integer.
pub const MAX_URL_LEN: u64 = 0x7fff_ffff;

/// The segments of the path of an address, as the `url` crate parses it: `Err` with the parser's
/// text where it is no absolute address, `None` where the address has no path that could be
/// divided, such as a `data:` address.
pub uninterp spec fn url_path_segments(url: Seq<char>) -> Result<
    Option<Seq<Seq<char>>>,
    Seq<char>,
>;

/// The characters of a parsed address' segments, or of the parser's message.
pub open spec fn segments_view(segments: Result<Option<Vec<String>>, String>) -> Result<
    Option<Seq<Seq<char>>>,
    Seq<char>,
> {
    match segments {
        Ok(Some(segments)) => Ok(Some(crate::text::texts(segments@))),
        Ok(None) => Ok(None),
        Err(message) => Err(message@),
    }
}

/// Whether a text can be a segment of the path of a parsed address: it is ASCII, and holds none of
/// the characters that end a segment or the path.
pub open spec fn is_segment(segment: Seq<char>) -> bool {
    &&& vstd::utf8::is_ascii_chars(segment)
    &&& !segment.contains('/')
    &&& !segment.contains('?')
    &&& !segment.contains('#')
}

/// Calls `reqwest::Url::parse` and, on the parsed address, `Url::path_segments`.
///
/// Claimed: the segments, or the text of the parse error, are a function of the address; where
/// there are segments there is at least one; a segment is ASCII text without a slash, which
/// separates segments, and without a question mark or a number sign, which end the path. The
/// number of characters has to fit in the parser's counter.
#[verifier::external_body]
fn path_segments(url: &str) -> (result: Result<Option<Vec<String>>, String>)
    requires
        url@.len() <= MAX_URL_LEN,
    ensures
        segments_view(result) == url_path_segments(url@),
        match result {
            Ok(Some(segments)) => {
                &&& segments@.len() >= 1
                &&& forall|i: int|
                    0 <= i < segments@.len() ==> is_segment((#[trigger] segments@[i])@)
            },
            _ => true,
        },
{
    match reqwest::Url::parse(url) {
        Ok(parsed) => Ok(
            parsed.path_segments().map(|segments| segments.map(String::from).collect()),
        ),
        Err(error) => Err(error.to_string()),
    }
}

/// Why an address gives no file name.
#[derive(Debug)]
pub enum FilenameError {
    /// The text is no absolute address; the message is the parser's.
    Parse(String),
    /// The address has no path that could be divided into segments.
    InvalidUrl,
    /// The path has no segment.
    NoFilename,
}

/// What is said of an address that gives no file name.
pub open spec fn filename_error_text(error: FilenameError) -> Seq<char> {
    match error {
        FilenameError::Parse(message) => message@,
        FilenameError::InvalidUrl => "Invalid URL"@,
        FilenameError::NoFilename => "No filename found in URL"@,
    }
}

impl FilenameError {
    /// The text that tells a person what is wrong with the address.
    pub fn message(&self) -> (text: String)
        ensures
            text@ == filename_error_text(*self),
    {
        match self {
            FilenameError::Parse(message) => message.clone(),
            FilenameError::InvalidUrl => "Invalid URL".to_owned(),
            FilenameError::NoFilename => "No filename found in URL".to_owned(),
        }
    }
}

/// Whether `result` is the file name that the segments of an address give: the last of them.
pub open spec fn filename_outcome(
    segments: Result<Option<Seq<Seq<char>>>, Seq<char>>,
    result: Result<String, FilenameError>,
) -> bool {
    match segments {
        Err(text) => result matches Err(FilenameError::Parse(message)) && message@ == text,
        Ok(None) => result matches Err(FilenameError::InvalidUrl),
        Ok(Some(segments)) => if segments.len() == 0 {
            result matches Err(FilenameError::NoFilename)
        } else {
            result matches Ok(name) && name@ == segments.last()
        },
    }
}

/// The file name that the segments of an address give, where they give one.
pub open spec fn filename(segments: Result<Option<Seq<Seq<char>>>, Seq<char>>) -> Option<Seq<char>> {
    match segments {
        Ok(Some(segments)) => if segments.len() == 0 {
            None
        } else {
            Some(segments.last())
        },
        _ => None,
    }
}

/// The file name that a parsed address gives.
pub fn filename_of_segments(segments: Result<Option<Vec<String>>, String>) -> (result: Result<
    String,
    FilenameError,
>)
    ensures
        filename_outcome(segments_view(segments), result),
{
    match segments {
        Err(message) => Err(FilenameError::Parse(message)),
        Ok(None) => Err(FilenameError::InvalidUrl),
        Ok(Some(segments)) => {
            if segments.len() == 0 {
                Err(FilenameError::NoFilename)
            } else {
                Ok(segments[segments.len() - 1].clone())
            }
        },
    }
}

/// The file name that `url` ends in. It may be empty; it is a single segment of a path, and so
/// never holds a slash.
pub fn extract_filename(url: &str) -> (result: Result<String, FilenameError>)
    requires
        url@.len() <= MAX_URL_LEN,
    ensures
        filename_outcome(url_path_segments(url@), result),
        result matches Ok(name) ==> is_segment(name@),
        !(result matches Err(FilenameError::NoFilename)),
{
    let segments = path_segments(url);
    filename_of_segments(segments)
}

/// The file that a download from `url` is written to: `name` where one is given, and otherwise the
/// file name that the address ends in.
pub fn download_filename(url: &str, name: Option<&str>) -> (result: Result<String, FilenameError>)
    requires
        name is None ==> url@.len() <= MAX_URL_LEN,
    ensures
        match name {
            Some(name) => result matches Ok(filename) && filename@ == name@,
            None => {
                &&& filename_outcome(url_path_segments(url@), result)
                &&& result matches Ok(filename) ==> is_segment(filename@)
                &&& !(result matches Err(FilenameError::NoFilename))
            },
        },
{
    match name {
        Some(name) => Ok(name.to_owned()),
        None => extract_filename(url),
    }
}

/// A file name is found exactly where the segments give one, and it is that one: whoever works it
/// out anew arrives at the same file.
pub proof fn law_filename_is_determined(
    segments: Result<Option<Seq<Seq<char>>>, Seq<char>>,
    result: Result<String, FilenameError>,
)
    requires
        filename_outcome(segments, result),
    ensures
        match filename(segments) {
            Some(name) => result matches Ok(found) && found@ == name,
            None => result is Err,
        },
{
}

/// The file name is the last segment, whatever stands before it; an address that cannot be parsed
/// is refused with the parser's message, and one without a divisible path as such.
pub proof fn law_last_segment_is_the_file_name(
    front: Seq<Seq<char>>,
    last: Seq<char>,
    message: Seq<char>,
    result: Result<String, FilenameError>,
)
    ensures
        filename_outcome(Ok(Some(front.push(last))), result) <==> (result matches Ok(name)
            && name@ == last),
        filename_outcome(Err(message), result) <==> (result matches Err(
            FilenameError::Parse(text),
        ) && text@ == message),
        filename_outcome(Ok(None), result) <==> (result matches Err(FilenameError::InvalidUrl)),
        filename_outcome(Ok(Some(Seq::empty())), result) <==> (result matches Err(
            FilenameError::NoFilename,
        )),
        filename(Ok(Some(front.push(last)))) == Some(last),
        filename(Err(message)) is None,
        filename(Ok(None)) is None,
        filename(Ok(Some(Seq::empty()))) is None,
{
    assert(front.push(last).last() == last);
}

/// Segments are seen as their characters, one after the other, and a message as its characters.
pub proof fn law_segments_are_seen_as_their_characters(segments: Vec<String>, message: String)
    ensures
        segments_view(Err(message)) == Err::<Option<Seq<Seq<char>>>, Seq<char>>(message@),
        segments_view(Ok(None)) == Ok::<Option<Seq<Seq<char>>>, Seq<char>>(None),
        segments_view(Ok(Some(segments))) matches Ok(Some(seen)) && seen.len() == segments@.len()
            && forall|i: int| 0 <= i < seen.len() ==> #[trigger] seen[i] == segments@[i]@,
{
}

/// A segment is ASCII text without a slash, a question mark or a number sign, and any such text can
/// be one.
pub proof fn law_segments_hold_no_delimiter(segment: Seq<char>)
    ensures
        is_segment(segment) <==> forall|i: int|
            0 <= i < segment.len() ==> {
                &&& '\0' <= #[trigger] segment[i] <= '\u{7f}'
                &&& segment[i] != '/'
                &&& segment[i] != '?'
                &&& segment[i] != '#'
            },
{
    if is_segment(segment) {
        assert forall|i: int| 0 <= i < segment.len() implies {
            &&& '\0' <= #[trigger] segment[i] <= '\u{7f}'
            &&& segment[i] != '/'
            &&& segment[i] != '?'
            &&& segment[i] != '#'
        } by {
            assert(segment.contains(segment[i]));
        }
    }
}

/// Each reason for which an address gives no file name is told in its own words.
pub proof fn law_filename_errors_have_their_texts(message: String)
    ensures
        filename_error_text(FilenameError::Parse(message)) == message@,
        filename_error_text(FilenameError::InvalidUrl) == "Invalid URL"@,
        filename_error_text(FilenameError::NoFilename) == "No filename found in URL"@,
{
}

} // verus!
