use vstd::prelude::*;

verus! {

/// A text buffer, as far as preparing a new settings.json touches it: its bytes, the
/// cursor, its line ending convention and whether it holds unsaved changes.
pub struct TextBuffer {
    text: Vec<u8>,
    cursor: usize,
    crlf: bool,
    dirty: bool,
}

/// A text buffer as plain values; `cursor` is a byte offset into `text`.
pub struct TextBufferView {
    pub text: Seq<u8>,
    pub cursor: nat,
    pub crlf: bool,
    pub dirty: bool,
}

impl View for TextBuffer {
    type V = TextBufferView;

    closed spec fn view(&self) -> TextBufferView {
        TextBufferView {
            text: self.text@,
            cursor: self.cursor as nat,
            crlf: self.crlf,
            dirty: self.dirty,
        }
    }
}

impl TextBuffer {
    #[verifier::type_invariant]
    spec fn cursor_in_text(self) -> bool {
        self.cursor <= self.text.len()
    }

    /// A buffer holding `text`, with the cursor at its start and no unsaved changes.
    pub fn from_bytes(text: Vec<u8>, crlf: bool) -> (tb: TextBuffer)
        ensures
            tb@ == (TextBufferView { text: text@, cursor: 0, crlf: crlf, dirty: false }),
    {
        TextBuffer { text, cursor: 0, crlf, dirty: false }
    }

    /// The bytes the buffer holds.
    pub fn bytes(&self) -> (r: &Vec<u8>)
        ensures
            r@ == self@.text,
    {
        &self.text
    }

    /// The number of bytes the buffer holds.
    pub fn text_length(&self) -> (r: usize)
        ensures
            r == self@.text.len(),
    {
        self.text.len()
    }

    /// Whether the buffer holds changes that were not saved.
    pub fn is_dirty(&self) -> (r: bool)
        ensures
            r == self@.dirty,
    {
        self.dirty
    }

    /// Whether line breaks are written as CRLF.
    pub fn is_crlf(&self) -> (r: bool)
        ensures
            r == self@.crlf,
    {
        self.crlf
    }

    /// Chooses between CRLF and LF line breaks.
    pub fn set_crlf(&mut self, crlf: bool)
        ensures
            final(self)@ == (TextBufferView { crlf: crlf, ..old(self)@ }),
    {
        proof { use_type_invariant(&*self); }
        self.crlf = crlf;
    }

    /// Inserts `bytes` as they are at the cursor and moves the cursor behind them.
    pub fn write_raw(&mut self, bytes: &[u8])
        requires
            old(self)@.text.len() + bytes@.len() <= usize::MAX,
        ensures
            old(self)@.cursor <= old(self)@.text.len(),
            final(self)@ == (TextBufferView {
                text: old(self)@.text.take(old(self)@.cursor as int) + bytes@ + old(self)@.text.skip(
                    old(self)@.cursor as int,
                ),
                cursor: old(self)@.cursor + bytes@.len(),
                crlf: old(self)@.crlf,
                dirty: true,
            }),
    {
        proof { use_type_invariant(&*self); }
        let cursor = self.cursor;
        let mut text: Vec<u8> = Vec::new();
        let mut i: usize = 0;
        while i < cursor
            invariant
                cursor <= self.text.len(),
                i <= cursor,
                text@ == self.text@.take(i as int),
            decreases cursor - i,
        {
            text.push(self.text[i]);
            i = i + 1;
            assert(text@ =~= self.text@.take(i as int));
        }
        let mut j: usize = 0;
        while j < bytes.len()
            invariant
                cursor <= self.text.len(),
                j <= bytes.len(),
                text@ == self.text@.take(cursor as int) + bytes@.take(j as int),
            decreases bytes.len() - j,
        {
            text.push(bytes[j]);
            j = j + 1;
            assert(text@ =~= self.text@.take(cursor as int) + bytes@.take(j as int));
        }
        assert(bytes@.take(bytes@.len() as int) =~= bytes@);
        let mut k: usize = cursor;
        while k < self.text.len()
            invariant
                cursor <= k <= self.text.len(),
                text@ == self.text@.take(cursor as int) + bytes@ + self.text@.subrange(
                    cursor as int,
                    k as int,
                ),
            decreases self.text.len() - k,
        {
            text.push(self.text[k]);
            k = k + 1;
            assert(text@ =~= self.text@.take(cursor as int) + bytes@ + self.text@.subrange(
                cursor as int,
                k as int,
            ));
        }
        assert(self.text@.subrange(cursor as int, self.text@.len() as int) =~= self.text@.skip(
            cursor as int,
        ));
        let new_cursor = cursor + bytes.len();
        self.text = text;
        self.cursor = new_cursor;
        self.dirty = true;
    }

    /// Moves the cursor to the start of the text.
    pub fn cursor_move_to_start(&mut self)
        ensures
            final(self)@ == (TextBufferView { cursor: 0, ..old(self)@ }),
    {
        self.cursor = 0;
    }

    /// Records that the buffer matches what is saved.
    pub fn mark_as_clean(&mut self)
        ensures
            final(self)@ == (TextBufferView { dirty: false, ..old(self)@ }),
    {
        proof { use_type_invariant(&*self); }
        self.dirty = false;
    }
}

} // verus!
