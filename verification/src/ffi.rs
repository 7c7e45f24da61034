//! The interface between the parser and the tree builder: tokens, the
//! parser's static environment of local variables, its diagnostics and its
//! comments. Each is held as plain values.

use std::rc::Rc;
use vstd::prelude::*;
use crate::ast::{Comment, Diagnostic, Level, Loc, SourceFile};
use crate::text::str_eq;

verus! {

broadcast use vstd::string::group_string_axioms;

/// A token handed to the builder by the parser: its byte range in the
/// current file and its text.
#[derive(Debug)]
pub struct Token {
    pub begin: usize,
    pub end: usize,
    pub text: String,
}

impl Token {
    pub fn new(begin: usize, end: usize, text: String) -> (r: Token)
        ensures
            r.begin == begin,
            r.end == end,
            r.text@ == text@,
    {
        Token { begin, end, text }
    }

    pub fn begin_pos(&self) -> (r: usize)
        ensures
            r == self.begin,
    {
        self.begin
    }

    pub fn end_pos(&self) -> (r: usize)
        ensures
            r == self.end,
    {
        self.end
    }

    /// The text of the token.
    pub fn string(&self) -> (r: String)
        ensures
            r@ == self.text@,
    {
        self.text.clone()
    }

    /// The UTF-8 bytes of the text of the token.
    pub fn bytes(&self) -> (r: Vec<u8>)
        ensures
            r@ == vstd::utf8::encode_utf8(self.text@),
    {
        vstd::slice::slice_to_vec(self.text.as_str().as_bytes())
    }

    /// The location of the token in `file`.
    pub fn location(&self, file: Rc<SourceFile>) -> (r: Loc)
        ensures
            r == (Loc { file: file, begin_pos: self.begin, end_pos: self.end }),
    {
        Loc { file: file, begin_pos: self.begin, end_pos: self.end }
    }
}

/// The characters of each string of `v`.
pub open spec fn string_views(v: Seq<String>) -> Seq<Seq<char>> {
    v.map_values(|s: String| s@)
}

/// The parser's state that the builder reads and writes: the file being
/// parsed, the local variables declared so far, the diagnostics reported and
/// the comments seen.
pub struct Driver {
    pub current_file: Rc<SourceFile>,
    pub env: Vec<String>,
    pub diagnostics: Vec<Diagnostic>,
    pub comments: Vec<Comment>,
}

impl Driver {
    /// The names declared as local variables.
    pub open spec fn env(&self) -> Seq<Seq<char>> {
        string_views(self.env@)
    }

    /// The diagnostics reported so far, in order.
    pub open spec fn diags(&self) -> Seq<Diagnostic> {
        self.diagnostics@
    }

    /// The comments recorded so far, in source order.
    pub open spec fn comment_seq(&self) -> Seq<Comment> {
        self.comments@
    }

    /// A driver for `file` with nothing declared, reported or recorded.
    pub fn new(file: Rc<SourceFile>) -> (r: Driver)
        ensures
            r.current_file == file,
            r.env() == Seq::<Seq<char>>::empty(),
            r.diags() == Seq::<Diagnostic>::empty(),
            r.comment_seq() == Seq::<Comment>::empty(),
    {
        let r = Driver { current_file: file, env: Vec::new(), diagnostics: Vec::new(), comments: Vec::new() };
        assert(r.env() =~= Seq::<Seq<char>>::empty());
        r
    }

    /// Whether `id` has been declared as a local variable.
    pub fn is_declared(&self, id: &str) -> (r: bool)
        ensures
            r == self.env().contains(id@),
    {
        let mut i: usize = 0;
        while i < self.env.len()
            invariant
                i <= self.env@.len(),
                forall|j: int| 0 <= j < i ==> self.env()[j] != id@,
            decreases self.env@.len() - i,
        {
            if str_eq(self.env[i].as_str(), id) {
                assert(self.env()[i as int] == id@);
                return true;
            }
            i = i + 1;
        }
        false
    }

    /// Declares `id` as a local variable.
    pub fn declare(&mut self, id: &str)
        ensures
            final(self).env() == old(self).env().push(id@),
            final(self).current_file == old(self).current_file,
            final(self).diags() == old(self).diags(),
            final(self).comment_seq() == old(self).comment_seq(),
    {
        self.env.push(id.to_owned());
        assert(self.env() =~= old(self).env().push(id@));
    }

    /// Reports a diagnostic.
    pub fn diagnostic(&mut self, level: Level, message: String, loc: Loc)
        ensures
            final(self).diags() == old(self).diags().push(Diagnostic { level, message, loc }),
            final(self).env() == old(self).env(),
            final(self).current_file == old(self).current_file,
            final(self).comment_seq() == old(self).comment_seq(),
    {
        self.diagnostics.push(Diagnostic { level, message, loc });
    }

    /// Reports an error.
    pub fn error(&mut self, message: String, loc: Loc)
        ensures
            final(self).diags() == old(self).diags().push(Diagnostic { level: Level::Error, message, loc }),
            final(self).env() == old(self).env(),
            final(self).current_file == old(self).current_file,
            final(self).comment_seq() == old(self).comment_seq(),
    {
        self.diagnostic(Level::Error, message, loc)
    }

    /// Records a comment; comments are recorded in source order.
    pub fn add_comment(&mut self, comment: Comment)
        ensures
            final(self).comment_seq() == old(self).comment_seq().push(comment),
            final(self).env() == old(self).env(),
            final(self).current_file == old(self).current_file,
            final(self).diags() == old(self).diags(),
    {
        self.comments.push(comment);
    }

    /// The diagnostics reported, in order.
    pub fn into_diagnostics(self) -> (r: Vec<Diagnostic>)
        ensures
            r@ == self.diags(),
    {
        self.diagnostics
    }

    /// A view of the comments recorded.
    pub fn comments(&self) -> (r: Comments<'_>)
        ensures
            r.driver == self,
    {
        Comments { driver: self }
    }
}

/// The last comment of `cs` that ends at or before `pos`.
pub open spec fn comment_before(cs: Seq<Comment>, pos: usize) -> Option<Comment>
    decreases cs.len(),
{
    if cs.len() == 0 {
        None
    } else if cs.last().loc.end_pos <= pos {
        Some(cs.last())
    } else {
        comment_before(cs.drop_last(), pos)
    }
}

/// The comments of a driver.
pub struct Comments<'d> {
    pub driver: &'d Driver,
}

impl<'d> Comments<'d> {
    pub fn len(&self) -> (r: usize)
        ensures
            r == self.driver.comment_seq().len(),
    {
        self.driver.comments.len()
    }

    /// The comment at index `idx`.
    pub fn at(&self, idx: usize) -> (r: Comment)
        requires
            idx < self.driver.comment_seq().len(),
        ensures
            r.loc == self.driver.comment_seq()[idx as int].loc,
            r.contents@ == self.driver.comment_seq()[idx as int].contents@,
    {
        let c = &self.driver.comments[idx];
        Comment { loc: c.loc.clone(), contents: c.contents.clone() }
    }

    /// The last comment that ends at or before byte offset `pos`.
    pub fn before(&self, pos: usize) -> (r: Option<Comment>)
        ensures
            r is Some <==> comment_before(self.driver.comment_seq(), pos) is Some,
            r matches Some(c) ==> ({
                let e = comment_before(self.driver.comment_seq(), pos)->0;
                c.loc == e.loc && c.contents@ == e.contents@
            }),
    {
        let ghost cs = self.driver.comment_seq();
        let mut i = self.len();
        assert(cs.take(cs.len() as int) =~= cs);
        while i > 0
            invariant
                i <= cs.len(),
                cs == self.driver.comment_seq(),
                comment_before(cs, pos) == comment_before(cs.take(i as int), pos),
            decreases i,
        {
            i = i - 1;
            assert(cs.take(i + 1).drop_last() =~= cs.take(i as int));
            let comment = self.at(i);
            if comment.loc.end_pos <= pos {
                return Some(comment);
            }
        }
        assert(cs.take(0) =~= Seq::<Comment>::empty());
        None
    }
}

} // verus!
