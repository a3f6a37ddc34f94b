//! A forward-only view of a text's characters with one character of lookahead.
//! The characters are decoded once, when the cursor is made; after that the
//! cursor only moves forward and never rewinds.
use vstd::prelude::*;

verus! {

pub struct Cursor<'a> {
    source: &'a str,
    chars: Vec<char>,
    pos: usize,
}

impl<'a> Cursor<'a> {
    /// The characters of the text the cursor runs over.
    pub closed spec fn text(&self) -> Seq<char> {
        self.chars@
    }

    /// How many characters have been consumed.
    pub closed spec fn pos(&self) -> int {
        self.pos as int
    }

    pub closed spec fn wf(&self) -> bool {
        &&& self.chars@ == self.source@
        &&& self.pos <= self.chars.len()
    }

    pub fn new(source: &'a str) -> (r: Self)
        ensures
            r.wf(),
            r.text() == source@,
            r.pos() == 0,
    {
        let mut chars: Vec<char> = Vec::new();
        for c in it: source.chars()
            invariant
                chars@ == it.seq().take(it.index() as int),
        {
            chars.push(c);
        }
        proof {
            assert(chars@ =~= source@);
        }
        Cursor { source, chars, pos: 0 }
    }

    /// The next character, left unconsumed.
    pub fn peek(&self) -> (r: Option<char>)
        requires
            self.wf(),
        ensures
            r == if self.pos() < self.text().len() {
                Some(self.text()[self.pos()])
            } else {
                None
            },
    {
        if self.pos < self.chars.len() {
            Some(self.chars[self.pos])
        } else {
            None
        }
    }

    /// Consumes and returns the next character.
    pub fn next(&mut self) -> (r: Option<char>)
        requires
            old(self).wf(),
        ensures
            final(self).wf(),
            final(self).text() == old(self).text(),
            r == if old(self).pos() < old(self).text().len() {
                Some(old(self).text()[old(self).pos()])
            } else {
                None
            },
            final(self).pos() == if old(self).pos() < old(self).text().len() {
                old(self).pos() + 1
            } else {
                old(self).pos()
            },
    {
        if self.pos < self.chars.len() {
            let c = self.chars[self.pos];
            self.pos = self.pos + 1;
            Some(c)
        } else {
            None
        }
    }
}

} // verus!
