//! The name of the destination: what a bare file name is, and the name
//! that a download gets when none is given, after the last segment of the
//! URL's path.

use crate::error::{ErrMsg, ErrorKind, TransferError};
use vstd::prelude::*;

verus! {

/// Whether `name` is a bare file name, one that names a file in whatever
/// directory it is put: not empty, not one of the two names `.` and `..`
/// that stand for directories, and without a slash.
pub open spec fn is_file_name(name: Seq<char>) -> bool {
    &&& name.len() > 0
    &&& name != seq!['.']
    &&& name != seq!['.', '.']
    &&& forall|i: int| 0 <= i < name.len() ==> #[trigger] name[i] != '/'
}

/// Tells whether `name` is a bare file name.
pub fn names_a_file(name: &str) -> (yes: bool)
    ensures
        yes == is_file_name(name@),
{
    let len = name.unicode_len();
    if len == 0 {
        return false;
    }
    let mut dots: usize = 0;
    let mut i: usize = 0;
    while i < len
        invariant
            len == name@.len(),
            i <= len,
            dots <= i,
            forall|k: int| 0 <= k < i ==> #[trigger] name@[k] != '/',
            dots == i <==> forall|k: int| 0 <= k < i ==> #[trigger] name@[k] == '.',
        decreases len - i,
    {
        let c = name.get_char(i);
        if c == '/' {
            return false;
        }
        if c == '.' && dots == i {
            dots = dots + 1;
        }
        i = i + 1;
    }
    let only_dots = dots == len && len <= 2;
    proof {
        if only_dots {
            if len == 1 {
                assert(name@ =~= seq!['.']);
            } else {
                assert(name@ =~= seq!['.', '.']);
            }
        } else if len <= 2 {
            let k = choose|k: int| 0 <= k < len && name@[k] != '.';
            assert(name@[k] != '.');
        }
    }
    !only_dots
}

/// The error of the `url` crate's parser. Nothing is known of what it
/// holds; it is only turned into text.
#[verifier::external_type_specification]
#[verifier::external_body]
pub struct ExParseError(url::ParseError);

/// Whether `url::Url::parse` makes a URL of `input`.
pub uninterp spec fn url_parses(input: Seq<char>) -> bool;

/// What `url::Url::path_segments` gives for the URL that `input` parses
/// to: the segments of its path in order, each as percent-encoded text, or
/// nothing for a URL that cannot be a base.
pub uninterp spec fn url_path_segments(input: Seq<char>) -> Option<Seq<Seq<char>>>;

/// Parses `input` with `url::Url::parse` and, where that gives a URL,
/// hands out what `url::Url::path_segments` gives for it, each segment as
/// a string of its own.
///
/// Not proved, but taken from the `url` crate: whether the parser accepts
/// `input`, and which segments the path has. The contract claims only
/// that both depend on the text of `input` and on nothing else.
#[verifier::external_body]
fn parse_path_segments(input: &str) -> (parsed: Result<Option<Vec<String>>, url::ParseError>)
    ensures
        parsed is Ok <==> url_parses(input@),
        parsed matches Ok(segments) ==> segments.deep_view() == url_path_segments(input@),
{
    let url = url::Url::parse(input)?;
    Ok(url.path_segments().map(|segments| segments.map(String::from).collect()))
}

/// The name of the file for a path with these segments: the last segment,
/// or `index.html` where there is no segment or the last one is empty.
pub open spec fn dest_of(segments: Option<Seq<Seq<char>>>) -> Seq<char> {
    match segments {
        Some(names) => if names.len() > 0 && names.last().len() > 0 {
            names.last()
        } else {
            "index.html"@
        },
        None => "index.html"@,
    }
}

/// Names the file for a path with these segments.
pub fn dest_from_segments(segments: &Option<Vec<String>>) -> (dest: String)
    ensures
        dest@ == dest_of(segments.deep_view()),
{
    match segments {
        Some(names) => {
            let count = names.len();
            if count > 0 {
                let last = &names[count - 1];
                if last.as_str().is_empty() {
                    "index.html".to_owned()
                } else {
                    last.clone()
                }
            } else {
                "index.html".to_owned()
            }
        },
        None => "index.html".to_owned(),
    }
}

/// Names the file for a download from `url`: after the last segment of the
/// URL's path. Text that is no URL is an `InvalidUrl` error, whose cause
/// is what the parser said.
pub fn dest_from_url(url: &str) -> (dest: Result<String, TransferError>)
    ensures
        dest is Ok <==> url_parses(url@),
        dest matches Ok(name) ==> name@ == dest_of(url_path_segments(url@)),
        dest matches Err(err) ==> err.kind == ErrorKind::InvalidUrl && err.detail@.len() == 2
            && err.detail@[0] == "invalid URL"@,
{
    match parse_path_segments(url) {
        Ok(segments) => Ok(dest_from_segments(&segments)),
        Err(err) => {
            let text = err.to_string();
            let cause = ErrMsg::new(text.as_str());
            Err(TransferError::caused_by(ErrorKind::InvalidUrl, "invalid URL", cause))
        },
    }
}

} // verus!
