//! The text buffer: a rope of UTF-8 text, the file it belongs to and
//! whether it changed since it was last saved.
use ropey::Rope;
use vstd::prelude::*;
use vstd::utf8::*;
use crate::rope_api::{
    rope_byte, rope_byte_to_line, rope_bytes, rope_from_str, rope_insert, rope_len,
    rope_len_lines, rope_line_to_byte, rope_new, rope_remove, rope_slice_string, rope_to_string,
};
use crate::text_model::{
    breaks_before, char_boundary, is_cr, is_lf, lemma_insert_valid, lemma_line_start,
    lemma_line_start_boundary, lemma_remove_valid, line_content, line_count, line_len, line_start,
    splice_insert, splice_remove, strip_trailing_breaks,
};

verus! {

/// The file name (last component) of a path, as `std::path::Path::file_name`
/// gives it, when there is one.
pub uninterp spec fn path_file_name(path: Seq<char>) -> Option<Seq<char>>;

/// `Path::file_name` on `path`, converted to a `String`.
#[verifier::external_body]
fn file_name_of(path: &String) -> (res: Option<String>)
    ensures
        match res {
            Some(n) => path_file_name(path@) == Some(n@),
            None => path_file_name(path@) is None,
        },
{
    std::path::Path::new(path.as_str()).file_name().and_then(|n| n.to_str()).map(
        |n| n.to_string(),
    )
}

pub struct Buffer {
    rope: Rope,
    path: Option<String>,
    modified: bool,
}

impl View for Buffer {
    type V = Seq<u8>;

    /// The bytes of the text.
    closed spec fn view(&self) -> Seq<u8> {
        rope_bytes(self.rope)
    }
}

/// What `path_or_untitled` shows for a buffer with this path.
pub open spec fn display_name(path: Option<Seq<char>>) -> Seq<char> {
    match path {
        Some(p) => match path_file_name(p) {
            Some(n) => n,
            None => "untitled"@,
        },
        None => "untitled"@,
    }
}

impl Buffer {
    /// The path of the file the buffer belongs to, if any.
    pub closed spec fn spec_path(&self) -> Option<Seq<char>> {
        match self.path {
            Some(p) => Some(p@),
            None => None,
        }
    }

    /// Whether the text changed since it was last marked saved.
    pub closed spec fn spec_modified(&self) -> bool {
        self.modified
    }

    /// The buffer holds valid UTF-8.
    pub open spec fn wf(&self) -> bool {
        valid_utf8(self@)
    }

    pub fn new() -> (b: Self)
        ensures
            b.wf(),
            b@ == Seq::<u8>::empty(),
            b.spec_path() is None,
            !b.spec_modified(),
    {
        Buffer { rope: rope_new(), path: None, modified: false }
    }

    pub fn load_from_str(s: &str) -> (b: Self)
        ensures
            b.wf(),
            b@ == encode_utf8(s@),
            b.spec_path() is None,
            !b.spec_modified(),
    {
        proof {
            encode_utf8_valid_utf8(s@);
        }
        Buffer { rope: rope_from_str(s), path: None, modified: false }
    }

    pub fn line_count(&self) -> (n: usize)
        ensures
            n == line_count(self@),
    {
        rope_len_lines(&self.rope)
    }

    /// Line `idx` without its line break; empty past the last line.
    pub fn line(&self, idx: usize) -> (res: String)
        requires
            self.wf(),
        ensures
            idx >= line_count(self@) ==> res@ == Seq::<char>::empty(),
            idx < line_count(self@) ==> encode_utf8(res@) == line_content(self@, idx as nat),
    {
        if idx >= self.line_count() {
            return String::new();
        }
        let ghost t = self@;
        let start = rope_line_to_byte(&self.rope, idx);
        let mut end = rope_line_to_byte(&self.rope, idx + 1);
        proof {
            lemma_line_start(t, idx as nat);
            lemma_line_start_boundary(t, idx as nat);
            lemma_line_start_boundary(t, (idx + 1) as nat);
        }
        let ghost full_end = end as int;
        loop
            invariant
                t == self@,
                start as int <= end as int <= full_end <= t.len(),
                end as int == full_end || (is_lf(t[end as int]) || is_cr(t[end as int])),
                char_boundary(t, full_end),
                strip_trailing_breaks(t.subrange(start as int, full_end))
                    == strip_trailing_breaks(t.subrange(start as int, end as int)),
            ensures
                start as int <= end as int <= full_end,
                end as int == full_end || (is_lf(t[end as int]) || is_cr(t[end as int])),
                strip_trailing_breaks(t.subrange(start as int, full_end)) == t.subrange(
                    start as int,
                    end as int,
                ),
            decreases end,
        {
            if end == start {
                break;
            }
            let b = rope_byte(&self.rope, end - 1);
            let ghost s = t.subrange(start as int, end as int);
            assert(s.last() == b);
            if b == 10u8 || b == 13u8 {
                assert(s.drop_last() =~= t.subrange(start as int, end - 1));
                end = end - 1;
            } else {
                break;
            }
        }
        rope_slice_string(&self.rope, start, end)
    }

    /// Length in bytes of line `idx`, its line break included; 0 past the
    /// last line.
    pub fn line_len_bytes(&self, idx: usize) -> (n: usize)
        ensures
            idx >= line_count(self@) ==> n == 0,
            idx < line_count(self@) ==> n == line_len(self@, idx as nat),
    {
        if idx >= self.line_count() {
            return 0;
        }
        let start = rope_line_to_byte(&self.rope, idx);
        let end = rope_line_to_byte(&self.rope, idx + 1);
        proof {
            lemma_line_start(self@, idx as nat);
        }
        end - start
    }

    /// Byte index where line `idx` starts; the text length past the last
    /// line.
    pub fn line_to_byte(&self, idx: usize) -> (n: usize)
        ensures
            idx >= line_count(self@) ==> n == self@.len(),
            idx < line_count(self@) ==> n == line_start(self@, idx as nat),
    {
        if idx >= self.line_count() {
            return rope_len(&self.rope);
        }
        rope_line_to_byte(&self.rope, idx)
    }

    /// The line holding byte `byte_idx` (the last line for the end of the
    /// text).
    pub fn byte_to_line(&self, byte_idx: usize) -> (n: usize)
        requires
            byte_idx <= self@.len(),
        ensures
            n == breaks_before(self@, byte_idx as int),
    {
        rope_byte_to_line(&self.rope, byte_idx)
    }

    pub fn insert(&mut self, byte_idx: usize, text: &str)
        requires
            char_boundary(old(self)@, byte_idx as int),
        ensures
            final(self)@ == splice_insert(old(self)@, byte_idx as int, encode_utf8(text@)),
            final(self).spec_modified(),
            final(self).spec_path() == old(self).spec_path(),
            old(self).wf() ==> final(self).wf(),
    {
        proof {
            if valid_utf8(self@) {
                encode_utf8_valid_utf8(text@);
                lemma_insert_valid(self@, byte_idx as int, encode_utf8(text@));
            }
        }
        rope_insert(&mut self.rope, byte_idx, text);
        self.modified = true;
    }

    pub fn remove(&mut self, start: usize, end: usize)
        requires
            start <= end,
            char_boundary(old(self)@, start as int),
            char_boundary(old(self)@, end as int),
        ensures
            final(self)@ == splice_remove(old(self)@, start as int, end as int),
            final(self).spec_modified(),
            final(self).spec_path() == old(self).spec_path(),
            old(self).wf() ==> final(self).wf(),
    {
        proof {
            if valid_utf8(self@) {
                lemma_remove_valid(self@, start as int, end as int);
            }
        }
        rope_remove(&mut self.rope, start, end);
        self.modified = true;
    }

    /// The byte at index `i`.
    pub fn byte_at(&self, i: usize) -> (b: u8)
        requires
            i < self@.len(),
        ensures
            b == self@[i as int],
    {
        rope_byte(&self.rope, i)
    }

    pub fn len_bytes(&self) -> (n: usize)
        ensures
            n == self@.len(),
    {
        rope_len(&self.rope)
    }

    pub fn is_empty(&self) -> (b: bool)
        ensures
            b == (self@.len() == 0),
    {
        rope_len(&self.rope) == 0
    }

    pub fn modified(&self) -> (b: bool)
        ensures
            b == self.spec_modified(),
    {
        self.modified
    }

    pub fn set_modified(&mut self, val: bool)
        ensures
            final(self).spec_modified() == val,
            final(self)@ == old(self)@,
            final(self).spec_path() == old(self).spec_path(),
    {
        self.modified = val;
    }

    pub fn path(&self) -> (p: Option<&String>)
        ensures
            match p {
                Some(s) => self.spec_path() == Some(s@),
                None => self.spec_path() is None,
            },
    {
        self.path.as_ref()
    }

    pub fn set_path(&mut self, path: Option<String>)
        ensures
            final(self).spec_path() == (match path {
                Some(s) => Some(s@),
                None => None::<Seq<char>>,
            }),
            final(self)@ == old(self)@,
            final(self).spec_modified() == old(self).spec_modified(),
    {
        self.path = path;
    }

    /// The file name of the buffer's path, or "untitled".
    pub fn path_or_untitled(&self) -> (s: String)
        ensures
            s@ == display_name(self.spec_path()),
    {
        match &self.path {
            Some(p) => match file_name_of(p) {
                Some(n) => n,
                None => String::from_str("untitled"),
            },
            None => String::from_str("untitled"),
        }
    }

    /// The text of bytes `[start, end)`.
    pub fn text_between(&self, start: usize, end: usize) -> (s: String)
        requires
            start <= end,
            char_boundary(self@, start as int),
            char_boundary(self@, end as int),
        ensures
            encode_utf8(s@) == self@.subrange(start as int, end as int),
    {
        rope_slice_string(&self.rope, start, end)
    }

    /// The entire text content of the buffer.
    pub fn to_string(&self) -> (s: String)
        ensures
            encode_utf8(s@) == self@,
    {
        rope_to_string(&self.rope)
    }
}

} // verus!
