//! Source locations and the tokens that carry them.

use vstd::prelude::*;
use vstd::string::StringExecFns;
use crate::text::str_eq;

verus! {

/// Which of the two layered file trees a file came from.
#[derive(Copy, Debug, PartialEq, Eq, Structural, PartialOrd, Ord)]
pub enum FileKind {
    Vanilla,
    Mod,
}

impl Clone for FileKind {
    fn clone(&self) -> (r: Self)
        ensures
            r == *self,
    {
        *self
    }
}

impl FileKind {
    /// The layer's position in the load order: the base game first.
    pub open spec fn spec_rank(self) -> u8 {
        match self {
            FileKind::Vanilla => 0,
            FileKind::Mod => 1,
        }
    }

    #[verifier::when_used_as_spec(spec_rank)]
    pub fn rank(self) -> (r: u8)
        ensures
            r == self.spec_rank(),
    {
        match self {
            FileKind::Vanilla => 0,
            FileKind::Mod => 1,
        }
    }
}

/// A place in a source file. `file` is the handle of the file in the load
/// order; line and column are 1-based, 0 standing for the file as a whole.
#[derive(Copy, Debug, PartialEq, Eq, Structural)]
pub struct Loc {
    pub file: usize,
    pub kind: FileKind,
    pub line: u32,
    pub column: u32,
}

impl Clone for Loc {
    fn clone(&self) -> (r: Self)
        ensures
            r == *self,
    {
        *self
    }
}

impl Loc {
    /// The location that stands for a whole file.
    pub fn for_file(file: usize, kind: FileKind) -> (r: Loc)
        ensures
            r == (Loc { file, kind, line: 0, column: 0 }),
    {
        Loc { file, kind, line: 0, column: 0 }
    }
}

/// A piece of script text with the place it was read from.
#[derive(Debug)]
pub struct Token {
    pub s: String,
    pub loc: Loc,
}

/// What a token is, as mathematics: its characters and its place.
pub struct TokenView {
    pub s: Seq<char>,
    pub loc: Loc,
}

impl View for Token {
    type V = TokenView;

    open spec fn view(&self) -> TokenView {
        TokenView { s: self.s@, loc: self.loc }
    }
}

impl Clone for Token {
    fn clone(&self) -> (r: Self)
        ensures
            r == *self,
    {
        Token { s: self.s.clone(), loc: self.loc }
    }
}

impl Token {
    pub fn new(s: &str, loc: Loc) -> (r: Token)
        ensures
            r@ == (TokenView { s: s@, loc }),
    {
        Token { s: String::from_str(s), loc }
    }

    pub fn as_str(&self) -> (r: &str)
        ensures
            r@ == self@.s,
    {
        self.s.as_str()
    }

    /// Whether the token's text is exactly `s`.
    pub fn is(&self, s: &str) -> (r: bool)
        ensures
            r == (self@.s == s@),
    {
        str_eq(self.s.as_str(), s)
    }
}

} // verus!
