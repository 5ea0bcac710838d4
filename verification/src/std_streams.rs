//! Naming a stream (standard input, standard output, or a file), and lines
//! of text with their ends.

use vstd::prelude::*;
use vstd::string::StringExecFns;
use crate::path_buf::{path_components, texts, PathBuf};

verus! {

/// The path that stands for a standard stream.
pub const STREAM_PATH_STR: &'static str = "-";

/// `String::pop` takes the last character off the string and returns it; of
/// an empty string it takes nothing and returns `None`.
pub assume_specification[ String::pop ](text: &mut String) -> (last: Option<char>)
    ensures
        old(text)@.len() == 0 ==> last is None && final(text)@ == old(text)@,
        old(text)@.len() > 0 ==> last == Some(old(text)@.last()) && final(text)@ == old(
            text,
        )@.drop_last(),
;

/// `String::push` appends one character to the string.
pub assume_specification[ String::push ](text: &mut String, ch: char)
    ensures
        final(text)@ == old(text)@.push(ch),
;

/// Whether `text` ends with `ch`.
fn ends_with_char(text: &str, ch: char) -> (r: bool)
    ensures
        r == (text@.len() > 0 && text@.last() == ch),
{
    let len = text.unicode_len();
    len > 0 && text.get_char(len - 1) == ch
}

/// Calls `std::io::Error::other` with `message`. Nothing is known of the
/// error that it makes.
#[verifier::external_body]
fn other_error(message: &str) -> (error: std::io::Error) {
    std::io::Error::other(message)
}

/// `line` without the end of line that it ends with, if it ends with one:
/// a line feed, or a carriage return and a line feed. A carriage return
/// alone, or one behind the line feed, is no end of line.
pub open spec fn without_eol(line: Seq<char>) -> Seq<char> {
    if line.len() > 0 && line.last() == '\n' {
        let rest = line.drop_last();
        if rest.len() > 0 && rest.last() == '\r' {
            rest.drop_last()
        } else {
            rest
        }
    } else {
        line
    }
}

/// The length of the first line of `text`, its line feed included: the whole
/// of a text that holds no line feed.
pub open spec fn first_line_len(text: Seq<char>) -> int
    decreases text.len(),
{
    if text.len() == 0 {
        0
    } else if text[0] == '\n' {
        1
    } else {
        1 + first_line_len(text.skip(1))
    }
}

/// The lines of `text`, in order. A line ends behind its line feed, and what
/// follows the last line feed is a line if it is not empty. With `strip_eol`
/// each line comes without its end of line, else as it stands in the text.
pub open spec fn lines_of(text: Seq<char>, strip_eol: bool) -> Seq<Seq<char>>
    decreases text.len(),
    via lines_of_decreases
{
    if text.len() == 0 {
        Seq::empty()
    } else {
        let line = text.take(first_line_len(text));
        seq![if strip_eol { without_eol(line) } else { line }] + lines_of(
            text.skip(first_line_len(text)),
            strip_eol,
        )
    }
}

#[via_fn]
proof fn lines_of_decreases(text: Seq<char>, strip_eol: bool) {
    if text.len() != 0 {
        lemma_first_line_len(text);
    }
}

/// The first line of a text that is not empty is not empty, and no longer
/// than the text.
pub proof fn lemma_first_line_len(text: Seq<char>)
    ensures
        0 <= first_line_len(text) <= text.len(),
        text.len() > 0 ==> first_line_len(text) > 0,
    decreases text.len(),
{
    if text.len() > 0 && text[0] != '\n' {
        lemma_first_line_len(text.skip(1));
    }
}

/// The lines of a text, taken as they stand, hold the whole text: put end
/// to end they give it back.
pub proof fn lemma_lines_hold_the_text(text: Seq<char>)
    ensures
        lines_of(text, false).flatten() == text,
    decreases text.len(),
{
    if text.len() > 0 {
        lemma_first_line_len(text);
        let n = first_line_len(text);
        lemma_lines_hold_the_text(text.skip(n));
        assert(lines_of(text, false).drop_first() =~= lines_of(text.skip(n), false));
    }
}

/// No line of a text holds a line feed but at its end, and with `strip_eol`
/// no line holds one at all.
pub proof fn lemma_lines_end_at_line_feeds(text: Seq<char>, strip_eol: bool, i: int, j: int)
    requires
        0 <= i < lines_of(text, strip_eol).len(),
        0 <= j < lines_of(text, strip_eol)[i].len(),
        lines_of(text, strip_eol)[i][j] == '\n',
    ensures
        !strip_eol,
        j == lines_of(text, strip_eol)[i].len() - 1,
    decreases text.len(),
{
    lemma_first_line_len(text);
    if i == 0 {
        lemma_first_line_holds_one_line_feed(text, j);
    } else {
        lemma_lines_end_at_line_feeds(text.skip(first_line_len(text)), strip_eol, i - 1, j);
    }
}

/// A line feed in the first line of a text is the last character of that
/// line.
proof fn lemma_first_line_holds_one_line_feed(text: Seq<char>, j: int)
    requires
        0 <= j < first_line_len(text),
    ensures
        first_line_len(text) <= text.len(),
        text[j] == '\n' ==> j == first_line_len(text) - 1,
    decreases text.len(),
{
    lemma_first_line_len(text);
    if text.len() > 0 && text[0] != '\n' && j > 0 {
        lemma_first_line_holds_one_line_feed(text.skip(1), j - 1);
    }
}

/// Takes the end of line off `line`, if it ends with one.
pub fn remove_eol(line: &mut String)
    ensures
        final(line)@ == without_eol(old(line)@),
{
    if ends_with_char(line.as_str(), '\n') {
        line.pop();
        if ends_with_char(line.as_str(), '\r') {
            line.pop();
        }
    }
}

/// Where the first line feed of `text` stands at `k`, the first line is
/// `k + 1` long; where `text` is `k` long and holds none, it is the whole.
proof fn lemma_first_line_ends(text: Seq<char>, k: int)
    requires
        0 <= k <= text.len(),
        forall|j: int| 0 <= j < k ==> text[j] != '\n',
        k < text.len() ==> text[k] == '\n',
    ensures
        first_line_len(text) == if k < text.len() {
            k + 1
        } else {
            k
        },
    decreases k,
{
    if k > 0 {
        lemma_first_line_ends(text.skip(1), k - 1);
    }
}

/// The lines of `text`, in order: see [`lines_of`].
pub fn lines_iterator(text: &str, strip_eol: bool) -> (lines: Vec<String>)
    ensures
        texts(lines@) == lines_of(text@, strip_eol),
{
    let mut lines: Vec<String> = Vec::new();
    let mut line = String::new();
    let ghost mut start: int = 0;
    assert(text@.skip(0) =~= text@);
    for ch in it: text.chars()
        invariant
            it.seq() == text@,
            0 <= start <= it.index() <= text@.len(),
            line@ == text@.subrange(start, it.index() as int),
            forall|j: int| start <= j < it.index() ==> text@[j] != '\n',
            texts(lines@) + lines_of(text@.skip(start), strip_eol) == lines_of(text@, strip_eol),
    {
        let ghost at = it.index() as int;
        let ghost done = texts(lines@);
        line.push(ch);
        if ch == '\n' {
            proof {
                let rest = text@.skip(start);
                lemma_first_line_ends(rest, at - start);
                assert(rest.take(at - start + 1) =~= line@);
                assert(rest.skip(at - start + 1) =~= text@.skip(at + 1));
            }
            if strip_eol {
                remove_eol(&mut line);
            }
            lines.push(line);
            line = String::new();
            proof {
                assert(texts(lines@) + lines_of(text@.skip(at + 1), strip_eol) =~= done + lines_of(
                    text@.skip(start),
                    strip_eol,
                ));
                start = at + 1;
            }
        }
    }
    let ghost rest = text@.skip(start);
    if line.as_str().unicode_len() > 0 {
        proof {
            lemma_first_line_ends(rest, rest.len() as int);
            assert(rest.take(rest.len() as int) =~= rest);
            assert(lines_of(rest.skip(rest.len() as int), strip_eol) =~= Seq::<Seq<char>>::empty());
        }
        if strip_eol {
            remove_eol(&mut line);
        }
        lines.push(line);
    }
    lines
}

/// What a reader of lines yields after one read into an empty buffer:
/// nothing more when the read came to the end of the input (it read no
/// byte), the error when it failed, else the line in `buffer`, without its
/// end of line if `strip_eol`.
pub fn line_item(read: Result<usize, std::io::Error>, buffer: String, strip_eol: bool) -> (item:
    Option<Result<String, std::io::Error>>)
    ensures
        match read {
            Err(error) => item == Some(Err::<String, std::io::Error>(error)),
            Ok(read_bytes) => if read_bytes == 0 {
                item is None
            } else {
                item matches Some(Ok(line)) && line@ == if strip_eol {
                    without_eol(buffer@)
                } else {
                    buffer@
                }
            },
        },
{
    match read {
        Err(error) => Some(Err(error)),
        Ok(read_bytes) => {
            if read_bytes == 0 {
                None
            } else {
                let mut line = buffer;
                if strip_eol {
                    remove_eol(&mut line);
                }
                Some(Ok(line))
            }
        },
    }
}

/// Whether the path written as `path` stands for a standard stream: whether
/// it has the components of `-`.
pub open spec fn denotes_std(path: Seq<char>) -> bool {
    path_components(path) == path_components(STREAM_PATH_STR@)
}

/// `lines`, each followed by a line feed, one after the other.
pub open spec fn joined_lines(lines: Seq<Seq<char>>) -> Seq<char>
    decreases lines.len(),
{
    if lines.len() == 0 {
        Seq::empty()
    } else {
        joined_lines(lines.drop_last()) + lines.last() + seq!['\n']
    }
}

/// Names a stream: standard input, standard output, or a file.
#[derive(Debug, PartialEq, Eq)]
pub enum StreamIdent {
    /// Standard input.
    StdIn,
    /// Standard output.
    StdOut,
    /// The file at a path, and whether it is to be read (`true`) or written.
    /// The path `-` has no special meaning here: it is a file of that name.
    Path(PathBuf, bool),
}

/// What to read from.
#[derive(Debug, PartialEq, Eq)]
pub enum InputSource {
    /// Standard input.
    Stdin,
    /// The file at this path.
    File(PathBuf),
}

/// What to write to.
#[derive(Debug, PartialEq, Eq)]
pub enum OutputTarget {
    /// Standard output.
    Stdout,
    /// The file at this path.
    File(PathBuf),
}

/// A text, and where it is to be written.
#[derive(Debug, PartialEq, Eq)]
pub struct Written {
    /// Where the text goes.
    pub target: OutputTarget,
    /// What is written.
    pub text: String,
}

impl StreamIdent {
    /// The standard stream of a direction.
    pub open spec fn spec_new_std(input: bool) -> StreamIdent {
        if input {
            StreamIdent::StdIn
        } else {
            StreamIdent::StdOut
        }
    }

    /// Whether this names what the path written as `path` names in
    /// direction `input`: the standard stream of that direction for `-`,
    /// the file at that path for any other.
    pub open spec fn names(&self, path: Seq<char>, input: bool) -> bool {
        if denotes_std(path) {
            *self == Self::spec_new_std(input)
        } else {
            *self matches StreamIdent::Path(file, direction) && file@ == path && direction == input
        }
    }

    /// What [`StreamIdent::description`] says of this stream.
    pub open spec fn spec_description(&self) -> Seq<char> {
        match self {
            StreamIdent::StdIn => "stdin"@,
            StreamIdent::StdOut => "stdout"@,
            StreamIdent::Path(path, input) => "file-system stream ("@ + (if *input {
                "in"@
            } else {
                "out"@
            }) + "): '"@ + path@ + "'"@,
        }
    }

    /// The standard stream of a direction: standard input if `input`, else
    /// standard output.
    pub fn new_std(input: bool) -> (ident: StreamIdent)
        ensures
            ident == Self::spec_new_std(input),
    {
        if input {
            StreamIdent::StdIn
        } else {
            StreamIdent::StdOut
        }
    }

    /// What `ident` names in direction `input`. Without a path, and for the
    /// path `-`, that is the standard stream of the direction.
    pub fn from_path_opt(ident: Option<&PathBuf>, input: bool) -> (named: StreamIdent)
        ensures
            match ident {
                Some(path) => named.names(path@, input),
                None => named == Self::spec_new_std(input),
            },
    {
        match ident {
            Some(file_path) => Self::from_path(file_path, input),
            None => Self::new_std(input),
        }
    }

    /// What `ident` names in direction `input`. Without a path, and for the
    /// path `-`, that is the standard stream of the direction.
    pub fn from_path_buf_opt(ident: Option<PathBuf>, input: bool) -> (named: StreamIdent)
        ensures
            match ident {
                Some(path) => named.names(path@, input),
                None => named == Self::spec_new_std(input),
            },
    {
        match ident {
            Some(file_path) => Self::from_path_buf(file_path, input),
            None => Self::new_std(input),
        }
    }

    /// What `ident` names in direction `input`: the standard stream of the
    /// direction for the path `-`, the file at `ident` for any other.
    pub fn from_path(ident: &PathBuf, input: bool) -> (named: StreamIdent)
        ensures
            named.names(ident@, input),
    {
        if *ident != PathBuf::from(STREAM_PATH_STR) {
            return StreamIdent::Path(ident.clone(), input);
        }
        Self::new_std(input)
    }

    /// What `ident` names in direction `input`: the standard stream of the
    /// direction for the path `-`, the file at `ident` for any other.
    pub fn from_path_buf(ident: PathBuf, input: bool) -> (named: StreamIdent)
        ensures
            named.names(ident@, input),
            !denotes_std(ident@) ==> named == StreamIdent::Path(ident, input),
    {
        if ident != PathBuf::from(STREAM_PATH_STR) {
            return StreamIdent::Path(ident, input);
        }
        Self::new_std(input)
    }

    /// A description of this stream for a reader.
    pub fn description(&self) -> (text: String)
        ensures
            text@ == self.spec_description(),
    {
        match self {
            StreamIdent::StdIn => String::from_str("stdin"),
            StreamIdent::StdOut => String::from_str("stdout"),
            StreamIdent::Path(path, input) => {
                let mut text = String::from_str("file-system stream (");
                text.append(
                    if *input {
                        "in"
                    } else {
                        "out"
                    },
                );
                text.append("): '");
                text.append(path.display());
                text.append("'");
                text
            },
        }
    }

    /// Where to read from for this stream. Only what names an input can be
    /// read: standard output, and a file that is to be written, give an
    /// error.
    pub fn create_input_reader(&self) -> (source: Result<InputSource, std::io::Error>)
        ensures
            match self {
                StreamIdent::StdIn => source == Ok::<InputSource, std::io::Error>(
                    InputSource::Stdin,
                ),
                StreamIdent::Path(path, true) => source matches Ok(InputSource::File(file))
                    && file@ == path@,
                _ => source is Err,
            },
    {
        match self {
            StreamIdent::StdIn => Ok(InputSource::Stdin),
            StreamIdent::Path(path, true) => Ok(InputSource::File(path.clone())),
            _ => Err(
                other_error("Can not create an input reader from an output stream identifier!"),
            ),
        }
    }

    /// Where to write to for this stream. Only what names an output can be
    /// written: standard input, and a file that is to be read, give an
    /// error.
    pub fn create_output_writer(&self) -> (target: Result<OutputTarget, std::io::Error>)
        ensures
            match self {
                StreamIdent::StdOut => target == Ok::<OutputTarget, std::io::Error>(
                    OutputTarget::Stdout,
                ),
                StreamIdent::Path(path, false) => target matches Ok(OutputTarget::File(file))
                    && file@ == path@,
                _ => target is Err,
            },
    {
        match self {
            StreamIdent::StdOut => Ok(OutputTarget::Stdout),
            StreamIdent::Path(path, false) => Ok(OutputTarget::File(path.clone())),
            _ => Err(
                other_error("Can not create an output writer from an input stream identifier!"),
            ),
        }
    }
}

impl Clone for StreamIdent {
    /// A name for the same stream.
    fn clone(&self) -> (copy: StreamIdent)
        ensures
            match self {
                StreamIdent::Path(path, input) => copy matches StreamIdent::Path(file, direction)
                    && file@ == path@ && direction == input,
                _ => copy == *self,
            },
    {
        match self {
            StreamIdent::StdIn => StreamIdent::StdIn,
            StreamIdent::StdOut => StreamIdent::StdOut,
            StreamIdent::Path(path, input) => StreamIdent::Path(path.clone(), *input),
        }
    }
}

/// The text that holds `lines`, each followed by a line feed.
pub fn join_lines(lines: &Vec<String>) -> (text: String)
    ensures
        text@ == joined_lines(texts(lines@)),
{
    let mut text = String::new();
    let mut i: usize = 0;
    while i < lines.len()
        invariant
            i <= lines.len(),
            text@ == joined_lines(texts(lines@).take(i as int)),
        decreases lines.len() - i,
    {
        proof {
            let next = texts(lines@).take(i + 1);
            assert(next.drop_last() =~= texts(lines@).take(i as int));
        }
        text.append(lines[i].as_str());
        text.push('\n');
        i += 1;
    }
    assert(texts(lines@).take(i as int) =~= texts(lines@));
    text
}

/// What writing `lines` to `destination` comes to: the text, one line
/// after the other and each followed by a line feed, and where it goes. It
/// is an error if `destination` names no output. The writing itself is the
/// caller's.
pub fn write_to_file(lines: &Vec<String>, destination: &StreamIdent) -> (written: Result<
    Written,
    std::io::Error,
>)
    ensures
        match destination {
            StreamIdent::StdOut => written matches Ok(done) && done.target == OutputTarget::Stdout
                && done.text@ == joined_lines(texts(lines@)),
            StreamIdent::Path(path, false) => written matches Ok(done) && (done.target matches OutputTarget::File(
                file,
            ) && file@ == path@) && done.text@ == joined_lines(texts(lines@)),
            _ => written is Err,
        },
{
    match destination.create_output_writer() {
        Ok(target) => Ok(Written { target, text: join_lines(lines) }),
        Err(error) => Err(error),
    }
}

} // verus!
