//! Paths of files.
//!
//! A path is its text; what the text means depends on the platform. Every
//! [`FilePath`] belongs to a [`Platform`], which records the main separator,
//! and what the standard library computes from a path is named with that
//! separator beside the text.

use vstd::prelude::*;

use crate::strings::{same_text, texts};

verus! {

/// What a [`FilePath`] holds.
#[verifier::ext_equal]
pub struct PathModel {
    /// The path as text.
    pub text: Seq<char>,
    /// The main separator of the platform that the path belongs to.
    pub separator: char,
}

/// The platform that the program runs on. There is no other way to make one
/// than [`Platform::current`].
#[derive(Debug, Clone, Copy)]
pub struct Platform {
    separator: char,
}

impl View for Platform {
    type V = char;

    /// The main separator of paths.
    closed spec fn view(&self) -> char {
        self.separator
    }
}

impl Platform {
    /// The platform that the program runs on. Its separator is what the
    /// standard library gives there, so nothing is said of it.
    pub fn current() -> (r: Self) {
        Platform { separator: main_separator() }
    }
}

/// The path of a file on the platform that the program runs on.
#[derive(Debug, Clone)]
pub struct FilePath {
    text: String,
    platform: Platform,
}

impl View for FilePath {
    type V = PathModel;

    closed spec fn view(&self) -> PathModel {
        PathModel { text: self.text@, separator: self.platform@ }
    }
}

/// `Path::is_absolute` of the path `text`, where `separator` is the platform's
/// main separator.
pub uninterp spec fn absolute_path(separator: char, text: Seq<char>) -> bool;

/// `Path::join` of the paths `base` and `file`, where `separator` is the
/// platform's main separator.
pub uninterp spec fn joined_path(separator: char, base: Seq<char>, file: Seq<char>) -> Seq<char>;

/// `Path::file_name` of the path `text`, where `separator` is the platform's
/// main separator.
pub uninterp spec fn path_file_name(separator: char, text: Seq<char>) -> Option<Seq<char>>;

/// Whether `Path` compares `a` and `b` as equal, where `separator` is the
/// platform's main separator.
pub uninterp spec fn equal_paths(separator: char, a: Seq<char>, b: Seq<char>) -> bool;

/// `std::path::MAIN_SEPARATOR`. It differs between platforms, so nothing is
/// said of it.
#[verifier::external_body]
fn main_separator() -> (r: char) {
    std::path::MAIN_SEPARATOR
}

/// `std::path::Path::is_absolute`: a function of the path's text on a given
/// platform. `path` belongs to the running platform, as every [`FilePath`]
/// does.
#[verifier::external_body]
fn is_absolute(path: &FilePath) -> (r: bool)
    ensures
        r == absolute_path(path@.separator, path@.text),
{
    std::path::Path::new(path.text.as_str()).is_absolute()
}

/// `std::path::Path::join`: a function of the two texts on a given platform.
/// Both are Unicode, and so is the result, which is handed back as text.
#[verifier::external_body]
fn join(base: &str, file: &FilePath) -> (r: String)
    ensures
        r@ == joined_path(file@.separator, base@, file@.text),
{
    std::path::Path::new(base).join(file.text.as_str()).to_string_lossy().into_owned()
}

/// `std::path::Path::file_name`: a function of the path's text on a given
/// platform. The text is Unicode, and so is the name.
#[verifier::external_body]
fn file_name(path: &FilePath) -> (r: Option<String>)
    ensures
        match r {
            Some(name) => path_file_name(path@.separator, path@.text) == Some(name@),
            None => path_file_name(path@.separator, path@.text) is None,
        },
{
    std::path::Path::new(path.text.as_str()).file_name().map(
        |name| name.to_string_lossy().into_owned(),
    )
}

/// `==` of `std::path::Path`, which compares the components: a function of the
/// two texts on a given platform, and true of a path and itself.
#[verifier::external_body]
fn same_components(a: &FilePath, b: &FilePath) -> (r: bool)
    ensures
        r == equal_paths(a@.separator, a@.text, b@.text),
        a@.text == b@.text ==> r,
{
    std::path::Path::new(a.text.as_str()) == std::path::Path::new(b.text.as_str())
}

/// The path of `file` seen from the directory `base`.
pub open spec fn resolved(base: Seq<char>, file: PathModel) -> PathModel {
    if absolute_path(file.separator, file.text) {
        file
    } else {
        PathModel {
            text: joined_path(file.separator, base, file.text),
            separator: file.separator,
        }
    }
}

/// The last component of a path, or `otherwise` where it has none.
pub open spec fn name_or(path: PathModel, otherwise: Seq<char>) -> Seq<char> {
    match path_file_name(path.separator, path.text) {
        Some(name) => name,
        None => otherwise,
    }
}

/// Whether two paths lead to the same file, as far as their components tell.
pub open spec fn same_path(a: PathModel, b: PathModel) -> bool {
    equal_paths(a.separator, a.text, b.text)
}

impl FilePath {
    /// The path that `text` stands for.
    pub fn new(platform: &Platform, text: String) -> (r: Self)
        ensures
            r@ == (PathModel { text: text@, separator: platform@ }),
    {
        FilePath { text, platform: *platform }
    }

    /// The path as text.
    pub fn as_str(&self) -> (r: &str)
        ensures
            r@ == self@.text,
    {
        self.text.as_str()
    }

    /// The same path once more.
    pub fn duplicate(&self) -> (r: Self)
        ensures
            r@ == self@,
    {
        FilePath { text: self.text.clone(), platform: self.platform }
    }

    /// This path as seen from the directory `base`: itself where it is
    /// absolute, otherwise joined to `base`.
    pub fn resolve(&self, base: &str) -> (r: Self)
        ensures
            r@ == resolved(base@, self@),
    {
        if is_absolute(self) {
            self.duplicate()
        } else {
            FilePath { text: join(base, self), platform: self.platform }
        }
    }

    /// The last component, or `otherwise` where there is none.
    pub fn name_or(&self, otherwise: &str) -> (r: String)
        ensures
            r@ == name_or(self@, otherwise@),
    {
        match file_name(self) {
            Some(name) => name,
            None => otherwise.to_owned(),
        }
    }

    /// Whether this path and `other` have the same components.
    pub fn same_as(&self, other: &FilePath) -> (r: bool)
        ensures
            r == same_path(self@, other@),
            self@.text == other@.text ==> r,
    {
        same_components(self, other)
    }
}

// ---------------------------------------------------------------------------
// Paths that read alike
// ---------------------------------------------------------------------------

/// `text` with `n` marks behind it.
pub open spec fn marked(text: Seq<char>, n: nat) -> Seq<char> {
    text + Seq::new(n, |i: int| '\'')
}

/// Whether `text` is one of the given texts.
fn is_taken(text: &str, taken: &Vec<String>) -> (r: bool)
    ensures
        r == texts(taken@).contains(text@),
{
    let mut i: usize = 0;
    while i < taken.len()
        invariant
            i <= taken@.len(),
            forall|k: int| 0 <= k < i ==> #[trigger] texts(taken@)[k] != text@,
        decreases taken@.len() - i,
    {
        assert(texts(taken@)[i as int] == taken@[i as int]@);
        if same_text(taken[i].as_str(), text) {
            return true;
        }
        i += 1;
    }
    false
}

/// The length of the longest of the given texts.
spec fn longest(list: Seq<Seq<char>>) -> nat
    decreases list.len(),
{
    if list.len() == 0 {
        0
    } else if list.last().len() > longest(list.drop_last()) {
        list.last().len()
    } else {
        longest(list.drop_last())
    }
}

proof fn lemma_longest(list: Seq<Seq<char>>, i: int)
    requires
        0 <= i < list.len(),
    ensures
        list[i].len() <= longest(list),
    decreases list.len(),
{
    if i < list.len() - 1 {
        assert(list.drop_last()[i] == list[i]);
        lemma_longest(list.drop_last(), i);
    }
}

/// A text for a path that reads as `readable`, told apart by marks from those
/// of other paths that read alike: the first one that is not taken.
pub fn told_apart(readable: &str, taken: &Vec<String>) -> (r: String)
    ensures
        !texts(taken@).contains(r@),
        exists|n: nat|
            r@ == #[trigger] marked(readable@, n) && forall|k: nat|
                k < n ==> texts(taken@).contains(#[trigger] marked(readable@, k)),
{
    let mut r: String = readable.to_owned();
    let ghost mut n: nat = 0;
    assert(r@ =~= marked(readable@, 0));
    while is_taken(r.as_str(), taken)
        invariant
            r@ == marked(readable@, n),
            forall|k: nat| k < n ==> texts(taken@).contains(#[trigger] marked(readable@, k)),
        decreases longest(texts(taken@)) + 1 - r@.len(),
    {
        proof {
            let k = texts(taken@).index_of(r@);
            lemma_longest(texts(taken@), k);
        }
        r.push('\'');
        proof {
            n = n + 1;
            assert(r@ =~= marked(readable@, n));
        }
    }
    r
}

} // verus!
