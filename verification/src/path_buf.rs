//! An owned path, held as text together with its components.

use vstd::prelude::*;
use vstd::std_specs::cmp::PartialEqSpecImpl;

verus! {

/// The components of the path written as `text`, in order and each as text:
/// what `std::path::Path::iter` yields for that path, on the platform that
/// the library is built for.
pub uninterp spec fn path_components(text: Seq<char>) -> Seq<Seq<char>>;

/// The texts of a sequence of strings.
pub open spec fn texts(parts: Seq<String>) -> Seq<Seq<char>> {
    Seq::new(parts.len(), |i: int| parts[i]@)
}

/// Calls `std::path::Path::iter` on the path written as `text` and collects
/// what it yields. Trusted: the result is what [`path_components`] names.
/// Every component of a path that is valid UTF-8 is valid UTF-8 itself, so
/// turning each into a `String` loses nothing.
#[verifier::external_body]
fn split_components(text: &str) -> (parts: Vec<String>)
    ensures
        texts(parts@) == path_components(text@),
{
    std::path::Path::new(text).iter().map(|part| part.to_string_lossy().into_owned()).collect()
}

/// Whether the components `base` are the first of the components `path`,
/// one for one.
pub fn components_start_with(path: &Vec<String>, base: &Vec<String>) -> (r: bool)
    ensures
        r == texts(base@).is_prefix_of(texts(path@)),
{
    if base.len() > path.len() {
        return false;
    }
    let mut i: usize = 0;
    while i < base.len()
        invariant
            i <= base.len() <= path.len(),
            forall|j: int| 0 <= j < i ==> base[j]@ == path[j]@,
        decreases base.len() - i,
    {
        if base[i] != path[i] {
            assert(texts(base@)[i as int] != texts(path@)[i as int]);
            return false;
        }
        i += 1;
    }
    assert(texts(base@) =~= texts(path@).subrange(0, base.len() as int));
    true
}

/// Whether the components `one` and `other` are the same, one for one.
pub fn components_equal(one: &Vec<String>, other: &Vec<String>) -> (r: bool)
    ensures
        r == (texts(one@) == texts(other@)),
{
    let same = one.len() == other.len() && components_start_with(one, other);
    proof {
        let whole = texts(one@);
        assert(whole.subrange(0, whole.len() as int) =~= whole);
    }
    same
}

/// An owned path.
///
/// Its view is its text. Two paths are equal when their components are, so
/// `a/b`, `a//b` and `a/b/` are all the same path.
#[derive(Debug)]
pub struct PathBuf {
    text: String,
    parts: Vec<String>,
}

impl View for PathBuf {
    type V = Seq<char>;

    closed spec fn view(&self) -> Seq<char> {
        self.text@
    }
}

impl PathBuf {
    #[verifier::type_invariant]
    spec fn parts_are_components(self) -> bool {
        texts(self.parts@) == path_components(self.text@)
    }

    /// The components of this path.
    pub open spec fn components(&self) -> Seq<Seq<char>> {
        path_components(self@)
    }

    /// Whether `base` is a prefix of this path, component by component.
    pub open spec fn spec_starts_with(&self, base: &PathBuf) -> bool {
        base.components().is_prefix_of(self.components())
    }

    /// The empty path.
    pub fn new() -> (path: PathBuf)
        ensures
            path@ == Seq::<char>::empty(),
    {
        let text = String::new();
        let parts = split_components(text.as_str());
        PathBuf { text, parts }
    }

    /// The path written as `text`.
    pub fn from(text: &str) -> (path: PathBuf)
        ensures
            path@ == text@,
    {
        let parts = split_components(text);
        PathBuf { text: String::from_str(text), parts }
    }

    /// The text of this path.
    pub fn as_str(&self) -> (text: &str)
        ensures
            text@ == self@,
    {
        self.text.as_str()
    }

    /// This path, borrowed.
    pub fn as_path(&self) -> (path: &PathBuf)
        ensures
            path == self,
    {
        self
    }

    /// The text of this path, as it is shown to a reader.
    pub fn display(&self) -> (text: &str)
        ensures
            text@ == self@,
    {
        self.text.as_str()
    }

    /// The components of this path, in order.
    pub fn iter(&self) -> (parts: Vec<String>)
        ensures
            texts(parts@) == self.components(),
    {
        proof {
            use_type_invariant(self);
        }
        let mut parts: Vec<String> = Vec::new();
        let mut i: usize = 0;
        while i < self.parts.len()
            invariant
                i <= self.parts.len(),
                parts.len() == i,
                forall|j: int| 0 <= j < i ==> parts[j]@ == self.parts[j]@,
            decreases self.parts.len() - i,
        {
            parts.push(self.parts[i].clone());
            i += 1;
        }
        parts
    }

    /// Whether `base` is a prefix of this path. Only whole components count:
    /// `/a/b` is a prefix of `/a/b` and of `/a/b/c`, not of `/a/bc`.
    pub fn starts_with(&self, base: &PathBuf) -> (r: bool)
        ensures
            r == self.spec_starts_with(base),
    {
        proof {
            use_type_invariant(self);
            use_type_invariant(base);
        }
        components_start_with(&self.parts, &base.parts)
    }
}

impl Clone for PathBuf {
    /// A path with the same text.
    fn clone(&self) -> (copy: PathBuf)
        ensures
            copy@ == self@,
    {
        PathBuf::from(self.as_str())
    }
}

impl Default for PathBuf {
    /// The empty path.
    fn default() -> (path: PathBuf)
        ensures
            path@ == Seq::<char>::empty(),
    {
        PathBuf::new()
    }
}

impl PartialEq for PathBuf {
    /// Whether the two paths have the same components.
    fn eq(&self, other: &PathBuf) -> (r: bool) {
        proof {
            use_type_invariant(self);
            use_type_invariant(other);
        }
        components_equal(&self.parts, &other.parts)
    }
}

impl PartialEqSpecImpl for PathBuf {
    open spec fn obeys_eq_spec() -> bool {
        true
    }

    open spec fn eq_spec(&self, other: &PathBuf) -> bool {
        self.components() == other.components()
    }
}

impl Eq for PathBuf {

}

} // verus!
