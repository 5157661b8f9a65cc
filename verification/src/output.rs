//! The framed rendering of one digest.

use vstd::prelude::*;
use vstd::string::*;

use crate::digest::HashAlgorithm;
use crate::text::push_char;

verus! {

/// The most characters of an entry that a frame shows.
pub const PREVIEW_LEN: usize = 40;

/// The width of a delimiter line.
pub const FRAME_WIDTH: usize = 80;

/// What a frame shows of an entry: all of it, or its first 40 characters.
pub open spec fn preview(text: Seq<char>) -> Seq<char> {
    if text.len() <= PREVIEW_LEN {
        text
    } else {
        text.subrange(0, PREVIEW_LEN as int)
    }
}

/// Whether a frame shows less than the whole entry.
pub open spec fn is_truncated(text: Seq<char>) -> bool {
    text.len() > PREVIEW_LEN
}

/// A delimiter line: 80 equals signs.
pub open spec fn delimiter() -> Seq<char> {
    Seq::new(FRAME_WIDTH as nat, |k: int| '=')
}

/// The mark behind a truncated preview; nothing behind a whole one.
pub open spec fn ellipsis(truncated: bool) -> Seq<char> {
    if truncated {
        "..."@
    } else {
        Seq::empty()
    }
}

/// The line that names the entry: `[<action> <kind>] [<entry>]`, then the ellipsis.
pub open spec fn entry_line(
    action: Seq<char>,
    kind: Seq<char>,
    entry: Seq<char>,
    truncated: bool,
) -> Seq<char> {
    "["@ + action + " "@ + kind + "] ["@ + entry + "]"@ + ellipsis(truncated)
}

/// The line that gives the digest: `[<algorithm> HASH] [<digest>]`.
pub open spec fn hash_line(tag: Seq<char>, hash: Seq<char>) -> Seq<char> {
    "["@ + tag + " HASH] ["@ + hash + "]"@
}

/// A frame: a delimiter line, the entry line, the hash line and a delimiter
/// line, each ended by a line feed.
pub open spec fn framed(
    action: Seq<char>,
    kind: Seq<char>,
    entry: Seq<char>,
    truncated: bool,
    tag: Seq<char>,
    hash: Seq<char>,
) -> Seq<char> {
    delimiter() + "\n"@ + entry_line(action, kind, entry, truncated) + "\n"@ + hash_line(tag, hash)
        + "\n"@ + delimiter() + "\n"@
}

/// What a frame shows: the preview of an entry, its kind, the algorithm and the digest.
#[derive(Clone, Debug)]
pub struct OutputStyle {
    pub entry: String,
    pub len: usize,
    pub truncated: bool,
    pub entry_type: &'static str,
    pub algo: HashAlgorithm,
    pub hash: String,
}

impl Default for OutputStyle {
    fn default() -> (style: Self)
        ensures
            style.wf(),
            style.entry@ == Seq::<char>::empty(),
            !style.truncated,
            style.entry_type@ == ""@,
            style.algo == HashAlgorithm::SHA256,
            style.hash@ == Seq::<char>::empty(),
    {
        OutputStyle {
            entry: String::new(),
            len: 0,
            truncated: false,
            entry_type: "",
            algo: HashAlgorithm::default(),
            hash: String::new(),
        }
    }
}

fn delimiter_line() -> (s: String)
    ensures
        s@ == delimiter(),
{
    let mut s = String::new();
    let mut i: usize = 0;
    while i < FRAME_WIDTH
        invariant
            i <= FRAME_WIDTH,
            s@ =~= Seq::new(i as nat, |k: int| '='),
        decreases FRAME_WIDTH - i,
    {
        push_char(&mut s, '=');
        i += 1;
    }
    s
}

impl OutputStyle {
    /// `len` is the length of the preview, which is at most 40 characters and
    /// exactly 40 where the entry was truncated.
    pub open spec fn wf(&self) -> bool {
        &&& self.len == self.entry@.len()
        &&& self.len <= PREVIEW_LEN
        &&& self.truncated ==> self.len == PREVIEW_LEN
    }

    /// An empty style, with the default algorithm.
    pub fn new() -> (style: Self)
        ensures
            style.wf(),
            style.entry@ == Seq::<char>::empty(),
            !style.truncated,
            style.entry_type@ == ""@,
            style.algo == HashAlgorithm::SHA256,
            style.hash@ == Seq::<char>::empty(),
    {
        Self::default()
    }

    fn set_entry(&mut self, entry: &str, entry_type: &'static str)
        ensures
            final(self).wf(),
            final(self).entry@ == preview(entry@),
            final(self).truncated == is_truncated(entry@),
            final(self).entry_type == entry_type,
            final(self).algo == old(self).algo,
            final(self).hash == old(self).hash,
    {
        let n = entry.unicode_len();
        let shown = if n < PREVIEW_LEN {
            n
        } else {
            PREVIEW_LEN
        };
        assert(entry@.subrange(0, shown as int) =~= preview(entry@));
        self.entry = String::from_str(entry.substring_char(0, shown));
        self.len = shown;
        self.truncated = n > PREVIEW_LEN;
        self.entry_type = entry_type;
    }

    /// Makes the entry the path of a file: at most its first 40 characters are kept.
    pub fn add_file(&mut self, path: &str)
        ensures
            final(self).wf(),
            final(self).entry@ == preview(path@),
            final(self).truncated == is_truncated(path@),
            final(self).entry_type@ == "FILE"@,
            final(self).algo == old(self).algo,
            final(self).hash == old(self).hash,
    {
        self.set_entry(path, "FILE");
    }

    /// Makes the entry a literal text: at most its first 40 characters are kept.
    pub fn add_text(&mut self, text: &str)
        ensures
            final(self).wf(),
            final(self).entry@ == preview(text@),
            final(self).truncated == is_truncated(text@),
            final(self).entry_type@ == "TEXT"@,
            final(self).algo == old(self).algo,
            final(self).hash == old(self).hash,
    {
        self.set_entry(text, "TEXT");
    }

    /// Sets the algorithm that the frame names.
    pub fn set_algorithm(&mut self, algorithm: HashAlgorithm)
        ensures
            final(self).algo == algorithm,
            final(self).entry == old(self).entry,
            final(self).len == old(self).len,
            final(self).truncated == old(self).truncated,
            final(self).entry_type == old(self).entry_type,
            final(self).hash == old(self).hash,
    {
        self.algo = algorithm;
    }

    /// Sets the rendered digest that the frame shows.
    pub fn add_hash(&mut self, hash_str: &str)
        ensures
            final(self).hash@ == hash_str@,
            final(self).entry == old(self).entry,
            final(self).len == old(self).len,
            final(self).truncated == old(self).truncated,
            final(self).entry_type == old(self).entry_type,
            final(self).algo == old(self).algo,
    {
        self.hash = String::from_str(hash_str);
    }

    /// The frame, with `action` as the label of the mode.
    pub fn summary(&self, action: &str) -> (s: String)
        ensures
            s@ == framed(
                action@,
                self.entry_type@,
                self.entry@,
                self.truncated,
                self.algo.tag(),
                self.hash@,
            ),
    {
        let mut entry_line = String::from_str("[");
        entry_line.append(action);
        entry_line.append(" ");
        entry_line.append(self.entry_type);
        entry_line.append("] [");
        entry_line.append(self.entry.as_str());
        entry_line.append("]");
        if self.truncated {
            entry_line.append("...");
        } else {
            assert(entry_line@ + Seq::<char>::empty() =~= entry_line@);
        }
        let mut hash_line = String::from_str("[");
        hash_line.append(self.algo.name());
        hash_line.append(" HASH] [");
        hash_line.append(self.hash.as_str());
        hash_line.append("]");
        let surr_line = delimiter_line();
        let mut s = surr_line.clone();
        s.append("\n");
        s.append(entry_line.as_str());
        s.append("\n");
        s.append(hash_line.as_str());
        s.append("\n");
        s.append(surr_line.as_str());
        s.append("\n");
        s
    }
}

/// An entry of more than 40 characters is shown by its first 40 and marked with
/// the ellipsis; one of 40 characters or fewer is shown whole, with no mark.
pub proof fn lemma_preview_limits(text: Seq<char>)
    ensures
        text.len() > 40 ==> preview(text) == text.subrange(0, 40) && preview(text).len() == 40
            && ellipsis(is_truncated(text)) == "..."@,
        text.len() <= 40 ==> preview(text) == text && ellipsis(is_truncated(text)) == Seq::<
            char,
        >::empty(),
{
}

} // verus!
