//! The raw text of a configuration document and the place it came from.

use vstd::prelude::*;

verus! {

/// Holds the path of a configuration document and its text as read.
#[derive(Debug, PartialEq, Eq)]
pub struct Reader {
    file_path: String,
    content: String,
}

/// What a `Reader` stands for.
pub struct ReaderModel {
    pub file_path: Seq<char>,
    pub content: Seq<char>,
}

impl View for Reader {
    type V = ReaderModel;

    closed spec fn view(&self) -> ReaderModel {
        ReaderModel { file_path: self.file_path@, content: self.content@ }
    }
}

impl Reader {
    /// A reader with no path and no text.
    pub fn new() -> (reader: Self)
        ensures
            reader@.file_path.len() == 0,
            reader@.content.len() == 0,
    {
        Reader { file_path: String::new(), content: String::new() }
    }

    /// Takes in what reading the document at `yaml_file_path` gave: its text,
    /// or `None` where it could not be read.
    ///
    /// The path is kept either way. The text replaces what the reader held
    /// only where the document was read; the result says whether it was.
    pub fn load_file(&mut self, yaml_file_path: String, text: Option<String>) -> (loaded: bool)
        ensures
            loaded == text is Some,
            final(self)@.file_path == yaml_file_path@,
            final(self)@.content == match text {
                Some(read) => read@,
                None => old(self)@.content,
            },
    {
        self.file_path = yaml_file_path;
        match text {
            Some(read) => {
                self.content = read;
                true
            },
            None => false,
        }
    }

    /// The text of the document as it was read.
    pub fn get_raw_content(&self) -> (content: &str)
        ensures
            content@ == self@.content,
    {
        self.content.as_str()
    }

    /// The path of the document that was last taken in.
    pub fn get_file_path(&self) -> (path: &str)
        ensures
            path@ == self@.file_path,
    {
        self.file_path.as_str()
    }
}

} // verus!
