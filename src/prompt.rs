use vstd::prelude::*;
use crate::buffer::{EditorMessage, Key, BACKSPACE, CARRIAGE_RETURN};

verus! {

/// What a submitted command asks for.
#[derive(Debug)]
pub enum PromptUpdate {
    OpenFile(Vec<char>),
    CloseActiveFile,
    SaveActiveFile,
    OpenHelp,
    Status(String),
    SaveAs(Vec<char>),
}

/// `s` cut at every single space; always at least one (possibly empty) token.
pub open spec fn tokens(s: Seq<char>) -> Seq<Seq<char>>
    decreases s.len(),
{
    if s.len() == 0 {
        seq![Seq::<char>::empty()]
    } else {
        let t = tokens(s.drop_last());
        if s.last() == ' ' {
            t.push(Seq::empty())
        } else {
            t.update(t.len() - 1, t.last().push(s.last()))
        }
    }
}

/// Cutting at spaces always leaves at least one token.
pub proof fn lemma_tokens_nonempty(s: Seq<char>)
    ensures
        tokens(s).len() >= 1,
    decreases s.len(),
{
    if s.len() > 0 {
        lemma_tokens_nonempty(s.drop_last());
    }
}

/// The tokens joined with single spaces.
pub open spec fn spaced(t: Seq<Seq<char>>) -> Seq<char>
    decreases t.len(),
{
    if t.len() == 0 {
        Seq::empty()
    } else if t.len() == 1 {
        t[0]
    } else {
        spaced(t.drop_last()) + seq![' '] + t.last()
    }
}

pub open spec fn word_open() -> Seq<char> {
    seq!['o', 'p', 'e', 'n']
}

pub open spec fn word_close() -> Seq<char> {
    seq!['c', 'l', 'o', 's', 'e']
}

pub open spec fn word_save() -> Seq<char> {
    seq!['s', 'a', 'v', 'e']
}

pub open spec fn word_help() -> Seq<char> {
    seq!['h', 'e', 'l', 'p']
}

pub open spec fn is_invalid(u: PromptUpdate) -> bool {
    match u {
        PromptUpdate::Status(m) => m@ == "Invalid command"@,
        _ => false,
    }
}

/// Whether `u` is what the command text `s` asks for: the first token picks
/// the command, `open` takes the second as a path, `save` with more tokens
/// saves under them joined by spaces, and anything else is invalid.
pub open spec fn command_of(s: Seq<char>, u: PromptUpdate) -> bool {
    let t = tokens(s);
    if t[0] == word_open() {
        if t.len() > 1 {
            match u {
                PromptUpdate::OpenFile(p) => p@ == t[1],
                _ => false,
            }
        } else {
            is_invalid(u)
        }
    } else if t[0] == word_close() {
        u is CloseActiveFile
    } else if t[0] == word_save() {
        if t.len() > 1 {
            match u {
                PromptUpdate::SaveAs(p) => p@ == spaced(t.skip(1)),
                _ => false,
            }
        } else {
            u is SaveActiveFile
        }
    } else if t[0] == word_help() {
        u is OpenHelp
    } else {
        is_invalid(u)
    }
}

/// Text and cursor after a message other than a carriage return: left and
/// right move within the text, backspace deletes before the cursor, any
/// other character is inserted at it.
pub open spec fn prompt_edited(s: Seq<char>, cursor: int, m: EditorMessage) -> (Seq<char>, int) {
    match m {
        EditorMessage::Keypress(Key::Left) => (s, if cursor > 0 { cursor - 1 } else { cursor }),
        EditorMessage::Keypress(Key::Right) => (s, if cursor < s.len() { cursor + 1 } else { cursor }),
        EditorMessage::Keypress(_) => (s, cursor),
        EditorMessage::Char(c) => {
            if c == BACKSPACE {
                if cursor > 0 {
                    (s.remove(cursor - 1), cursor - 1)
                } else {
                    (s, cursor)
                }
            } else {
                (s.insert(cursor, c), cursor + 1)
            }
        },
    }
}

fn same_chars(a: &Vec<char>, b: &Vec<char>) -> (r: bool)
    ensures
        r == (a@ == b@),
{
    if a.len() != b.len() {
        return false;
    }
    let mut i: usize = 0;
    while i < a.len()
        invariant
            0 <= i <= a@.len(),
            a@.len() == b@.len(),
            forall|j: int| 0 <= j < i ==> a@[j] == b@[j],
        decreases a@.len() - i,
    {
        if a[i] != b[i] {
            assert(a@[i as int] != b@[i as int]);
            return false;
        }
        i = i + 1;
    }
    assert(a@ =~= b@);
    true
}

/// The text cut at every single space.
pub fn split_tokens(s: &Vec<char>) -> (r: Vec<Vec<char>>)
    ensures
        Seq::new(r@.len(), |j: int| r@[j]@) == tokens(s@),
{
    let mut done: Vec<Vec<char>> = Vec::new();
    let mut cur: Vec<char> = Vec::new();
    let mut i: usize = 0;
    assert(s@.take(0) =~= Seq::<char>::empty());
    assert(Seq::new(done@.len(), |j: int| done@[j]@).push(cur@) =~= tokens(s@.take(0)));
    while i < s.len()
        invariant
            0 <= i <= s@.len(),
            Seq::new(done@.len(), |j: int| done@[j]@).push(cur@) == tokens(s@.take(i as int)),
        decreases s@.len() - i,
    {
        let ghost before = Seq::new(done@.len(), |j: int| done@[j]@);
        let ghost cur0 = cur@;
        assert(s@.take(i + 1).drop_last() =~= s@.take(i as int));
        assert(s@.take(i + 1).last() == s@[i as int]);
        if s[i] == ' ' {
            done.push(cur);
            cur = Vec::new();
            assert(Seq::new(done@.len(), |j: int| done@[j]@) =~= before.push(cur0));
            assert(Seq::new(done@.len(), |j: int| done@[j]@).push(cur@) =~= tokens(s@.take(i + 1)));
        } else {
            cur.push(s[i]);
            assert(Seq::new(done@.len(), |j: int| done@[j]@).push(cur@) =~= before.push(cur0).update(
                before.len() as int,
                cur0.push(s@[i as int]),
            ));
        }
        i = i + 1;
    }
    assert(s@.take(i as int) =~= s@);
    let ghost before = Seq::new(done@.len(), |j: int| done@[j]@);
    done.push(cur);
    assert(Seq::new(done@.len(), |j: int| done@[j]@) =~= before.push(cur@));
    done
}

/// The tokens from `from` on, joined with single spaces.
fn join_from(t: &Vec<Vec<char>>, from: usize) -> (r: Vec<char>)
    requires
        from < t@.len(),
    ensures
        r@ == spaced(Seq::new(t@.len(), |j: int| t@[j]@).skip(from as int)),
{
    let ghost all = Seq::new(t@.len(), |j: int| t@[j]@);
    let mut out: Vec<char> = Vec::new();
    let mut i: usize = from;
    assert(all.skip(from as int).take(0) =~= Seq::<Seq<char>>::empty());
    while i < t.len()
        invariant
            from <= i <= t@.len(),
            all == Seq::new(t@.len(), |j: int| t@[j]@),
            out@ == spaced(all.skip(from as int).take(i - from)),
        decreases t@.len() - i,
    {
        let ghost before = out@;
        if i > from {
            out.push(' ');
        }
        let word = &t[i];
        let mut k: usize = 0;
        while k < word.len()
            invariant
                0 <= k <= word@.len(),
                i > from ==> out@ == before + seq![' '] + word@.take(k as int),
                i == from ==> out@ == before + word@.take(k as int),
            decreases word@.len() - k,
        {
            out.push(word[k]);
            assert(word@.take(k + 1) =~= word@.take(k as int).push(word@[k as int]));
            k = k + 1;
        }
        assert(word@.take(k as int) =~= word@);
        let ghost w = all.skip(from as int).take(i + 1 - from);
        assert(w.drop_last() =~= all.skip(from as int).take(i - from));
        assert(w.last() == word@);
        if i == from {
            assert(before =~= Seq::<char>::empty());
            assert(out@ =~= w[0]);
        }
        i = i + 1;
    }
    assert(all.skip(from as int).take(i - from) =~= all.skip(from as int));
    out
}

/// A one-line command input with a cursor.
pub struct Prompt {
    text: Vec<char>,
    cursor: usize,
}

impl Prompt {
    pub closed spec fn content(&self) -> Seq<char> {
        self.text@
    }

    pub closed spec fn caret(&self) -> int {
        self.cursor as int
    }

    pub open spec fn wf(&self) -> bool {
        0 <= self.caret() <= self.content().len()
    }

    /// An empty prompt.
    pub fn new() -> (p: Prompt)
        ensures
            p.wf(),
            p.content() == Seq::<char>::empty(),
            p.caret() == 0,
    {
        Prompt { text: Vec::new(), cursor: 0 }
    }

    pub fn text(&self) -> (r: &Vec<char>)
        ensures
            r@ == self.content(),
    {
        &self.text
    }

    pub fn cursor(&self) -> (r: usize)
        ensures
            r == self.caret(),
    {
        self.cursor
    }

    /// The command that the current text asks for.
    pub fn parse_command(&self) -> (r: Option<PromptUpdate>)
        ensures
            r is Some,
            command_of(self.content(), r->Some_0),
    {
        let mut t = split_tokens(&self.text);
        let ghost tv = Seq::new(t@.len(), |j: int| t@[j]@);
        proof {
            lemma_tokens_nonempty(self.content());
        }
        assert(tv[0] == t@[0]@);
        if t.len() < 1 {
            return None;
        }
        let first = &t[0];
        if same_chars(first, &vec!['o', 'p', 'e', 'n']) {
            if t.len() > 1 {
                assert(tv[1] == t@[1]@);
                Some(PromptUpdate::OpenFile(t.remove(1)))
            } else {
                Some(PromptUpdate::Status("Invalid command".to_owned()))
            }
        } else if same_chars(first, &vec!['c', 'l', 'o', 's', 'e']) {
            Some(PromptUpdate::CloseActiveFile)
        } else if same_chars(first, &vec!['s', 'a', 'v', 'e']) {
            if t.len() > 1 {
                Some(PromptUpdate::SaveAs(join_from(&t, 1)))
            } else {
                Some(PromptUpdate::SaveActiveFile)
            }
        } else if same_chars(first, &vec!['h', 'e', 'l', 'p']) {
            Some(PromptUpdate::OpenHelp)
        } else {
            Some(PromptUpdate::Status("Invalid command".to_owned()))
        }
    }

    /// Applies one message. A carriage return submits: the command that the
    /// text asks for comes back and the prompt empties. Anything else edits
    /// the text and gives nothing back.
    pub fn update(&mut self, m: EditorMessage) -> (r: Option<PromptUpdate>)
        requires
            old(self).wf(),
        ensures
            final(self).wf(),
            m == EditorMessage::Char(CARRIAGE_RETURN) ==> {
                &&& r is Some
                &&& command_of(old(self).content(), r->Some_0)
                &&& final(self).content() == Seq::<char>::empty()
                &&& final(self).caret() == 0
            },
            m != EditorMessage::Char(CARRIAGE_RETURN) ==> {
                &&& r is None
                &&& (final(self).content(), final(self).caret()) == prompt_edited(
                    old(self).content(),
                    old(self).caret(),
                    m,
                )
            },
    {
        match m {
            EditorMessage::Keypress(key) => {
                match key {
                    Key::Left => {
                        if self.cursor > 0 {
                            self.cursor = self.cursor - 1;
                        }
                    },
                    Key::Right => {
                        if self.cursor < self.text.len() {
                            self.cursor = self.cursor + 1;
                        }
                    },
                    _ => {},
                }
                None
            },
            EditorMessage::Char(c) => {
                if c == CARRIAGE_RETURN {
                    let update = self.parse_command();
                    self.text.clear();
                    self.cursor = 0;
                    update
                } else if c == BACKSPACE {
                    if self.cursor > 0 {
                        self.text.remove(self.cursor - 1);
                        self.cursor = self.cursor - 1;
                    }
                    None
                } else {
                    self.text.insert(self.cursor, c);
                    let len = self.text.len();
                    assert(self.cursor < len);
                    self.cursor = self.cursor + 1;
                    None
                }
            },
        }
    }
}

} // verus!
