//! What the commands know of the machine and of the installation.
use crate::model::{group_views, view_option, views};
use vstd::prelude::*;

verus! {

broadcast use group_views;

/// The operating systems that are told apart.
#[derive(Clone, Copy, PartialEq, Eq, Structural, Debug)]
pub enum Os {
    MacOs,
    Windows,
    Other,
}

/// The processor architectures that are told apart.
#[derive(Clone, Copy, PartialEq, Eq, Structural, Debug)]
pub enum Arch {
    Aarch64,
    Other,
}

/// The folders that paths start from.
#[derive(Clone, Copy, PartialEq, Eq, Structural, Debug)]
pub enum Folder {
    /// The application's root folder.
    Root,
    /// The COSMOS installation.
    Cosmos,
    /// The source checkout of development mode.
    Development,
    /// The system's folder for temporary files.
    Temporary,
}

/// A path: a folder, joined with one part after the other.
#[derive(Debug)]
pub struct FilePath {
    pub folder: Folder,
    pub parts: Vec<String>,
}

/// Model of a [`FilePath`].
pub struct FilePathView {
    pub folder: Folder,
    pub parts: Seq<Seq<char>>,
}

impl View for FilePath {
    type V = FilePathView;

    open spec fn view(&self) -> FilePathView {
        FilePathView { folder: self.folder, parts: views(self.parts@) }
    }
}

impl FilePath {
    /// The folder itself.
    pub fn folder(folder: Folder) -> (path: FilePath)
        ensures
            path@ == (FilePathView { folder, parts: seq![] }),
    {
        let path = FilePath { folder, parts: Vec::new() };
        assert(path@.parts == Seq::<Seq<char>>::empty());
        path
    }

    /// The path one part further.
    pub fn join(self, part: &str) -> (path: FilePath)
        ensures
            path@ == (FilePathView { folder: self.folder, parts: self@.parts.push(part@) }),
    {
        let mut parts = self.parts;
        parts.push(part.to_owned());
        FilePath { folder: self.folder, parts }
    }
}

/// One word of a command line.
#[derive(Debug)]
pub enum Word {
    Text(String),
    Path(FilePath),
}

/// Model of a [`Word`].
pub enum WordView {
    Text(Seq<char>),
    Path(FilePathView),
}

impl View for Word {
    type V = WordView;

    open spec fn view(&self) -> WordView {
        match self {
            Word::Text(text) => WordView::Text(text@),
            Word::Path(path) => WordView::Path(path@),
        }
    }
}

/// A command line: the program, its arguments and the folder it runs in, where it
/// is not the current one.
#[derive(Debug)]
pub struct Invocation {
    pub program: Word,
    pub args: Vec<Word>,
    pub dir: Option<FilePath>,
}

/// Model of an [`Invocation`].
pub struct InvocationView {
    pub program: WordView,
    pub args: Seq<WordView>,
    pub dir: Option<FilePathView>,
}

impl View for Invocation {
    type V = InvocationView;

    open spec fn view(&self) -> InvocationView {
        InvocationView {
            program: self.program@,
            args: views(self.args@),
            dir: view_option(self.dir),
        }
    }
}

/// The words that hold the given texts.
pub open spec fn text_words(list: Seq<Seq<char>>) -> Seq<WordView> {
    Seq::new(list.len(), |i: int| WordView::Text(list[i]))
}

/// A program run on arguments that are all texts, in the current folder.
pub open spec fn plain_invocation(program: Seq<char>, args: Seq<Seq<char>>) -> InvocationView {
    InvocationView { program: WordView::Text(program), args: text_words(args), dir: None }
}

/// Appends the texts of `list` to `words`.
pub fn push_texts(words: &mut Vec<Word>, list: &Vec<String>)
    ensures
        views(final(words)@) == views(old(words)@) + text_words(views(list@)),
{
    let mut i: usize = 0;
    assert(views(words@) == views(old(words)@) + text_words(views(list@).take(0)));
    while i < list.len()
        invariant
            i <= list@.len(),
            views(words@) == views(old(words)@) + text_words(views(list@).take(i as int)),
        decreases list@.len() - i,
    {
        words.push(Word::Text(list[i].clone()));
        i += 1;
        assert(text_words(views(list@).take(i as int)) == text_words(
            views(list@).take(i - 1),
        ).push(WordView::Text(list@[i - 1]@)));
    }
    assert(views(list@).take(list@.len() as int) == views(list@));
}

/// What a finished program left behind.
#[derive(Debug)]
pub struct Output {
    /// Whether the program reported success.
    pub success: bool,
    /// The exit status in words.
    pub status: String,
    pub stdout: Vec<u8>,
    pub stderr: Vec<u8>,
}

/// Model of an [`Output`].
pub struct OutputView {
    pub success: bool,
    pub status: Seq<char>,
    pub stdout: Seq<u8>,
    pub stderr: Seq<u8>,
}

impl View for Output {
    type V = OutputView;

    open spec fn view(&self) -> OutputView {
        OutputView {
            success: self.success,
            status: self.status@,
            stdout: self.stdout@,
            stderr: self.stderr@,
        }
    }
}

/// The installation that a command works on.
#[derive(Debug)]
pub struct Context {
    pub os: Os,
    /// The source checkout to run from, in development mode.
    pub dev_folder: Option<String>,
    /// Where COSMOS is installed.
    pub cosmos: String,
    /// Whether the installation holds what building from source needs.
    pub devel: bool,
    /// Whether this is COSMOS Enterprise.
    pub enterprise: bool,
}

/// The variables of an environment file, in the order in which it sets them.
#[derive(Debug)]
pub struct EnvFile {
    pub entries: Vec<(String, String)>,
}

impl View for EnvFile {
    type V = Map<Seq<char>, Seq<char>>;

    /// The value of each variable: a later entry replaces an earlier one.
    open spec fn view(&self) -> Map<Seq<char>, Seq<char>> {
        assignments(self.entries@)
    }
}

/// The values after the given assignments, made one after the other.
pub open spec fn assignments(entries: Seq<(String, String)>) -> Map<Seq<char>, Seq<char>>
    decreases entries.len(),
{
    if entries.len() == 0 {
        Map::empty()
    } else {
        assignments(entries.drop_last()).insert(entries.last().0@, entries.last().1@)
    }
}

impl EnvFile {
    /// The value of the variable `name`.
    pub fn get(&self, name: &str) -> (value: Option<String>)
        ensures
            value is Some <==> self@.contains_key(name@),
            value is Some ==> value->0@ == self@[name@],
    {
        let wanted = name.to_owned();
        let mut i: usize = self.entries.len();
        assert(self.entries@.take(i as int) == self.entries@);
        while i > 0
            invariant
                i <= self.entries@.len(),
                wanted@ == name@,
                self@.contains_key(name@) == assignments(
                    self.entries@.take(i as int),
                ).contains_key(name@),
                self@.contains_key(name@) ==> self@[name@] == assignments(
                    self.entries@.take(i as int),
                )[name@],
            decreases i,
        {
            i -= 1;
            assert(self.entries@.take(i + 1).drop_last() == self.entries@.take(i as int));
            if self.entries[i].0 == wanted {
                return Some(self.entries[i].1.clone());
            }
        }
        None
    }
}

} // verus!
