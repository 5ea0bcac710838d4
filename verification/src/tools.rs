//! Streams named by an optional path: no path, and the path `-`, stand for
//! the standard stream.

use vstd::prelude::*;
use vstd::string::StringExecFns;
use crate::path_buf::{texts, PathBuf};
use crate::std_streams::{
    denotes_std,
    join_lines,
    joined_lines,
    InputSource,
    OutputTarget,
    Written,
    STREAM_PATH_STR,
};

verus! {

/// What names a path by its text.
pub trait PathLike {
    /// The text of the path.
    spec fn path_text(&self) -> Seq<char>;

    /// The text of the path.
    fn as_path_str(&self) -> (text: &str)
        ensures
            text@ == self.path_text(),
    ;
}

impl PathLike for str {
    open spec fn path_text(&self) -> Seq<char> {
        self@
    }

    fn as_path_str(&self) -> (text: &str) {
        self
    }
}

impl PathLike for String {
    open spec fn path_text(&self) -> Seq<char> {
        self@
    }

    fn as_path_str(&self) -> (text: &str) {
        self.as_str()
    }
}

impl PathLike for PathBuf {
    open spec fn path_text(&self) -> Seq<char> {
        self@
    }

    fn as_path_str(&self) -> (text: &str) {
        self.as_str()
    }
}

impl<'a, P: PathLike + ?Sized> PathLike for &'a P {
    open spec fn path_text(&self) -> Seq<char> {
        (**self).path_text()
    }

    fn as_path_str(&self) -> (text: &str) {
        (**self).as_path_str()
    }
}

/// Whether `ident` stands for a standard stream: whether it is no path, or a
/// path with the components of `-`.
pub open spec fn is_std_stream<P: PathLike>(ident: Option<P>) -> bool {
    ident matches Some(path) ==> denotes_std(path.path_text())
}

/// The words for `ident`: `std_stream_name` where it stands for a standard
/// stream, else `file: ` and the path between single quotes.
pub open spec fn stream_description<P: PathLike>(
    ident: Option<P>,
    std_stream_name: Seq<char>,
) -> Seq<char> {
    if is_std_stream(ident) {
        std_stream_name
    } else {
        "file: '"@ + ident->0.path_text() + "'"@
    }
}

/// The path of the file that `ident` names, or `None` where it stands for a
/// standard stream.
pub fn ident_to_path<P: PathLike>(ident: Option<P>) -> (path: Option<P>)
    ensures
        path == if is_std_stream(ident) {
            None
        } else {
            ident
        },
{
    let is_stream = match &ident {
        Some(file_path) => PathBuf::from(file_path.as_path_str()) == PathBuf::from(STREAM_PATH_STR),
        None => true,
    };
    if is_stream {
        None
    } else {
        ident
    }
}

/// Whether `ident` stands for a standard stream.
pub fn denotes_std_stream<P: PathLike>(ident: Option<P>) -> (r: bool)
    ensures
        r == is_std_stream(ident),
{
    ident_to_path(ident).is_none()
}

/// Where to read from for `ident`: standard input where it stands for a
/// standard stream, else the file that it names. The opening is the
/// caller's.
pub fn create_input_reader<P: PathLike>(ident: Option<P>) -> (source: InputSource)
    ensures
        is_std_stream(ident) ==> source == InputSource::Stdin,
        !is_std_stream(ident) ==> (source matches InputSource::File(file) && file@
            == ident->0.path_text()),
{
    match ident_to_path(ident) {
        None => InputSource::Stdin,
        Some(path) => InputSource::File(PathBuf::from(path.as_path_str())),
    }
}

/// Where to write to for `ident`: standard output where it stands for a
/// standard stream, else the file that it names. The opening is the
/// caller's.
pub fn create_output_writer<P: PathLike>(ident: Option<P>) -> (target: OutputTarget)
    ensures
        is_std_stream(ident) ==> target == OutputTarget::Stdout,
        !is_std_stream(ident) ==> (target matches OutputTarget::File(file) && file@
            == ident->0.path_text()),
{
    match ident_to_path(ident) {
        None => OutputTarget::Stdout,
        Some(path) => OutputTarget::File(PathBuf::from(path.as_path_str())),
    }
}

/// `std_stream_name` where `ident` stands for a standard stream, else the
/// words `file: ` and the path between single quotes.
fn create_stream_ident_description<P: PathLike>(ident: Option<P>, std_stream_name: &str) -> (text:
    String)
    ensures
        text@ == stream_description(ident, std_stream_name@),
{
    match ident_to_path(ident) {
        None => String::from_str(std_stream_name),
        Some(path) => {
            let mut text = String::from_str("file: '");
            text.append(path.as_path_str());
            text.append("'");
            text
        },
    }
}

/// `stdin` where `ident` stands for a standard stream, else the words
/// `file: ` and the path between single quotes.
pub fn create_input_reader_description<P: PathLike>(ident: Option<P>) -> (text: String)
    ensures
        text@ == stream_description(ident, "stdin"@),
{
    create_stream_ident_description(ident, "stdin")
}

/// `stdout` where `ident` stands for a standard stream, else the words
/// `file: ` and the path between single quotes.
pub fn create_output_writer_description<P: PathLike>(ident: Option<P>) -> (text: String)
    ensures
        text@ == stream_description(ident, "stdout"@),
{
    create_stream_ident_description(ident, "stdout")
}

/// What writing `lines` to `destination` comes to: the text, one line after
/// the other and each followed by a line feed, and where it goes. The
/// writing itself is the caller's.
pub fn write_to_file<P: PathLike>(lines: &Vec<String>, destination: Option<P>) -> (written: Written)
    ensures
        written.text@ == joined_lines(texts(lines@)),
        is_std_stream(destination) ==> written.target == OutputTarget::Stdout,
        !is_std_stream(destination) ==> (written.target matches OutputTarget::File(file) && file@
            == destination->0.path_text()),
{
    let target = create_output_writer(destination);
    Written { target, text: join_lines(lines) }
}

} // verus!
