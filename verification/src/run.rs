//! A whole run: from the inputs and what was obtained for them to the text
//! that is shown, or to the error that stops the run.

use vstd::prelude::*;
use vstd::slice::slice_to_vec;
use vstd::string::*;
use vstd::utf8::encode_utf8;

use crate::digest::{folded, hex_digest_of, HashAlgorithm, HashImpl};
use crate::hex::{
    bytes_outcome, decoded, hex_to_byte_slice, message_of, HexError, HexErrorView,
};
use crate::inputs::HashInput;
use crate::output::{framed, is_truncated, preview, OutputStyle};

verus! {

/// The bytes that stand for a content: in hex mode what its byte literals
/// decode to, else its UTF-8 encoding.
pub open spec fn bytes_of(content: Seq<char>, hex_input: bool) -> Result<Seq<u8>, HexErrorView> {
    if hex_input {
        decoded(content)
    } else {
        Ok(encode_utf8(content))
    }
}

/// Turns the content of an input, a literal text or what a file holds, into
/// the bytes to digest.
pub fn content_bytes<'a>(content: &'a str, hex_input: bool) -> (r: Result<Vec<u8>, HexError<'a>>)
    ensures
        bytes_outcome(r) == bytes_of(content@, hex_input),
{
    if hex_input {
        hex_to_byte_slice(content)
    } else {
        Ok(slice_to_vec(content.as_bytes()))
    }
}

/// What was obtained for one input before the run.
#[derive(Debug, Clone, PartialEq, Eq)]
pub enum Acquired {
    /// A literal text, or what a file holds read as text.
    Text(String),
    /// What a file holds, as raw bytes. They are digested as they are, in
    /// either mode: for hex mode a file is read as text.
    Bytes(Vec<u8>),
    /// The file could not be read; the reason as the system gave it.
    Unreadable(String),
}

/// Why a run stops. It then shows nothing.
#[derive(Debug, Clone, Copy, PartialEq)]
pub enum RunError<'a> {
    /// A content holds a token that is no byte literal.
    InvalidHex(HexError<'a>),
    /// The file at `path` could not be read.
    UnreadableSource { path: &'a str, reason: &'a str },
}

/// The mathematical content of a [`RunError`].
pub ghost enum RunErrorView {
    InvalidHex(HexErrorView),
    UnreadableSource { path: Seq<char>, reason: Seq<char> },
}

impl<'a> View for RunError<'a> {
    type V = RunErrorView;

    open spec fn view(&self) -> RunErrorView {
        match *self {
            RunError::InvalidHex(e) => RunErrorView::InvalidHex(e@),
            RunError::UnreadableSource { path, reason } => RunErrorView::UnreadableSource {
                path: path@,
                reason: reason@,
            },
        }
    }
}

/// The message that reports the end of a run to a person.
pub open spec fn failure_message(e: RunErrorView) -> Seq<char> {
    match e {
        RunErrorView::InvalidHex(e) => message_of(e),
        RunErrorView::UnreadableSource { path, reason } => "Cannot read file "@ + path + ": "@
            + reason,
    }
}

impl<'a> RunError<'a> {
    /// The message that reports the error to a person: it names the token or
    /// the path, and says what went wrong.
    pub fn message(&self) -> (s: String)
        ensures
            s@ == failure_message(self@),
    {
        match *self {
            RunError::InvalidHex(e) => e.message(),
            RunError::UnreadableSource { path, reason } => {
                let mut s = String::from_str("Cannot read file ");
                s.append(path);
                s.append(": ");
                s.append(reason);
                s
            },
        }
    }
}

/// The kind of an input as a frame names it.
pub open spec fn kind_of(input: HashInput) -> Seq<char> {
    match input {
        HashInput::Text(_) => "TEXT"@,
        HashInput::File(_) => "FILE"@,
    }
}

/// The literal text or the path of an input.
pub open spec fn entry_of(input: HashInput) -> Seq<char> {
    match input {
        HashInput::Text(text) => text@,
        HashInput::File(path) => path@,
    }
}

/// What is shown for one digest: in quiet mode the digest alone, else the frame
/// around it.
pub open spec fn shown(
    input: HashInput,
    action: Seq<char>,
    algo: HashAlgorithm,
    digest: Seq<char>,
    quiet: bool,
) -> Seq<char> {
    if quiet {
        digest
    } else {
        framed(
            action,
            kind_of(input),
            preview(entry_of(input)),
            is_truncated(entry_of(input)),
            algo.tag(),
            digest,
        )
    }
}

/// The first `n` contents, folded into one stream in their order.
pub open spec fn stream(contents: Seq<Seq<u8>>, n: int) -> Seq<u8>
    decreases n,
{
    if n <= 0 {
        Seq::empty()
    } else {
        folded(stream(contents, n - 1), contents[n - 1])
    }
}

/// What a run shows. One by one: for each input, in order, the digest of its
/// content under the label `COMPUTE`. Incrementally: nothing for no input, else
/// once the digest of all contents as one stream, under the label `UPDATE` and
/// with the last input as the entry.
pub open spec fn outputs(
    inputs: Seq<HashInput>,
    contents: Seq<Seq<u8>>,
    algo: HashAlgorithm,
    incremental: bool,
    quiet: bool,
) -> Seq<Seq<char>> {
    if !incremental {
        Seq::new(
            inputs.len(),
            |k: int| shown(inputs[k], "COMPUTE"@, algo, hex_digest_of(contents[k], algo), quiet),
        )
    } else if inputs.len() == 0 {
        Seq::empty()
    } else {
        seq![
            shown(
                inputs.last(),
                "UPDATE"@,
                algo,
                hex_digest_of(stream(contents, inputs.len() as int), algo),
                quiet,
            ),
        ]
    }
}

/// The byte sequences that a sequence of vectors holds.
pub open spec fn views_of(contents: Seq<Vec<u8>>) -> Seq<Seq<u8>> {
    Seq::new(contents.len(), |k: int| contents[k]@)
}

/// The texts of a sequence of strings.
pub open spec fn texts_of(lines: Seq<String>) -> Seq<Seq<char>> {
    Seq::new(lines.len(), |k: int| lines[k]@)
}

fn show(input: &HashInput, action: &str, algo: HashAlgorithm, digest: String, quiet: bool) -> (s:
    String)
    ensures
        s@ == shown(*input, action@, algo, digest@, quiet),
{
    if quiet {
        digest
    } else {
        let mut style = OutputStyle::new();
        style.set_algorithm(algo);
        match input {
            HashInput::Text(text) => style.add_text(text),
            HashInput::File(path) => style.add_file(path),
        }
        style.add_hash(digest.as_str());
        style.summary(action)
    }
}

/// Digests the contents of the inputs and renders what is to be shown, one
/// string for each digest. `contents[k]` holds the bytes of `inputs[k]`.
pub fn compute(
    inputs: &[HashInput],
    contents: &[Vec<u8>],
    algo: HashAlgorithm,
    update_on_input: bool,
    print_hash_only: bool,
) -> (out: Vec<String>)
    requires
        inputs@.len() == contents@.len(),
    ensures
        texts_of(out@) == outputs(
            inputs@,
            views_of(contents@),
            algo,
            update_on_input,
            print_hash_only,
        ),
{
    let n = inputs.len();
    let mut hasher = HashImpl::new();
    let mut out: Vec<String> = Vec::new();
    let mut k: usize = 0;
    while k < n
        invariant
            n == inputs@.len(),
            n == contents@.len(),
            k <= n,
            update_on_input ==> hasher@ == stream(views_of(contents@), k as int),
            update_on_input ==> out@.len() == 0,
            !update_on_input ==> out@.len() == k,
            !update_on_input ==> forall|m: int|
                0 <= m < k ==> (#[trigger] out@[m])@ == shown(
                    inputs@[m],
                    "COMPUTE"@,
                    algo,
                    hex_digest_of(contents@[m]@, algo),
                    print_hash_only,
                ),
        decreases n - k,
    {
        if update_on_input {
            hasher.update(contents[k].as_slice());
        } else {
            let digest = HashImpl::hex_digest_input(contents[k].as_slice(), algo);
            out.push(show(&inputs[k], "COMPUTE", algo, digest, print_hash_only));
        }
        k += 1;
    }
    if update_on_input && n > 0 {
        let digest = hasher.hex_digest(algo);
        out.push(show(&inputs[n - 1], "UPDATE", algo, digest, print_hash_only));
    }
    assert(texts_of(out@) =~= outputs(
        inputs@,
        views_of(contents@),
        algo,
        update_on_input,
        print_hash_only,
    ));
    out
}

/// What stands for one input: the bytes to digest, or the error that stops the run.
pub open spec fn content_of(input: HashInput, acquired: Acquired, hex_input: bool) -> Result<
    Seq<u8>,
    RunErrorView,
> {
    match acquired {
        Acquired::Unreadable(reason) => Err(
            RunErrorView::UnreadableSource { path: entry_of(input), reason: reason@ },
        ),
        Acquired::Bytes(bytes) => Ok(bytes@),
        Acquired::Text(text) => match bytes_of(text@, hex_input) {
            Ok(bytes) => Ok(bytes),
            Err(e) => Err(RunErrorView::InvalidHex(e)),
        },
    }
}

/// The bytes of the first `n` inputs, in order, or the error of the first
/// among them that has one.
pub open spec fn gathered(
    inputs: Seq<HashInput>,
    acquired: Seq<Acquired>,
    hex_input: bool,
    n: int,
) -> Result<Seq<Seq<u8>>, RunErrorView>
    decreases n,
{
    if n <= 0 {
        Ok(Seq::empty())
    } else {
        match gathered(inputs, acquired, hex_input, n - 1) {
            Err(e) => Err(e),
            Ok(contents) => match content_of(inputs[n - 1], acquired[n - 1], hex_input) {
                Err(e) => Err(e),
                Ok(bytes) => Ok(contents.push(bytes)),
            },
        }
    }
}

/// The outcome of gathering, with bytes and error taken by their views.
pub open spec fn gather_outcome(r: Result<Vec<Vec<u8>>, RunError>) -> Result<
    Seq<Seq<u8>>,
    RunErrorView,
> {
    match r {
        Ok(contents) => Ok(views_of(contents@)),
        Err(e) => Err(e@),
    }
}

proof fn lemma_error_stays(
    inputs: Seq<HashInput>,
    acquired: Seq<Acquired>,
    hex_input: bool,
    k: int,
    n: int,
)
    requires
        0 <= k <= n,
        gathered(inputs, acquired, hex_input, k) is Err,
    ensures
        gathered(inputs, acquired, hex_input, n) == gathered(inputs, acquired, hex_input, k),
    decreases n - k,
{
    if k < n {
        lemma_error_stays(inputs, acquired, hex_input, k, n - 1);
    }
}

fn entry<'a>(input: &HashInput<'a>) -> (s: &'a str)
    ensures
        s@ == entry_of(*input),
{
    match *input {
        HashInput::Text(text) => text,
        HashInput::File(path) => path,
    }
}

/// Turns what was obtained for the inputs into the bytes to digest, one
/// vector for each input. The first input, in order, that could not be read or
/// decoded fails the whole.
pub fn gather<'a>(inputs: &[HashInput<'a>], acquired: &'a [Acquired], hex_input: bool) -> (r:
    Result<Vec<Vec<u8>>, RunError<'a>>)
    requires
        inputs@.len() == acquired@.len(),
    ensures
        gather_outcome(r) == gathered(inputs@, acquired@, hex_input, inputs@.len() as int),
        r is Ok ==> r->Ok_0@.len() == inputs@.len(),
{
    let n = inputs.len();
    let mut contents: Vec<Vec<u8>> = Vec::new();
    let mut k: usize = 0;
    assert(views_of(contents@) =~= Seq::empty());
    while k < n
        invariant
            n == inputs@.len(),
            n == acquired@.len(),
            k <= n,
            contents@.len() == k,
            gathered(inputs@, acquired@, hex_input, k as int) == Ok::<
                Seq<Seq<u8>>,
                RunErrorView,
            >(views_of(contents@)),
        decreases n - k,
    {
        let bytes = match &acquired[k] {
            Acquired::Unreadable(reason) => {
                proof {
                    lemma_error_stays(inputs@, acquired@, hex_input, k + 1, n as int);
                }
                return Err(
                    RunError::UnreadableSource { path: entry(&inputs[k]), reason: reason.as_str() },
                );
            },
            Acquired::Bytes(bytes) => slice_to_vec(bytes.as_slice()),
            Acquired::Text(text) => match content_bytes(text.as_str(), hex_input) {
                Ok(bytes) => bytes,
                Err(e) => {
                    proof {
                        lemma_error_stays(inputs@, acquired@, hex_input, k + 1, n as int);
                    }
                    return Err(RunError::InvalidHex(e));
                },
            },
        };
        assert(views_of(contents@.push(bytes)) =~= views_of(contents@).push(bytes@));
        contents.push(bytes);
        k += 1;
    }
    Ok(contents)
}

/// A whole run. Where every input was read and decoded, what `compute` shows
/// for them; else the error of the first input that failed, and nothing shown.
pub fn run<'a>(
    inputs: &[HashInput<'a>],
    acquired: &'a [Acquired],
    algo: HashAlgorithm,
    hex_input: bool,
    update_on_input: bool,
    print_hash_only: bool,
) -> (r: Result<Vec<String>, RunError<'a>>)
    requires
        inputs@.len() == acquired@.len(),
    ensures
        match gathered(inputs@, acquired@, hex_input, inputs@.len() as int) {
            Ok(contents) => r is Ok && texts_of(r->Ok_0@) == outputs(
                inputs@,
                contents,
                algo,
                update_on_input,
                print_hash_only,
            ),
            Err(e) => r is Err && r->Err_0@ == e,
        },
{
    match gather(inputs, acquired, hex_input) {
        Ok(contents) => Ok(
            compute(inputs, contents.as_slice(), algo, update_on_input, print_hash_only),
        ),
        Err(e) => Err(e),
    }
}

/// In quiet mode a run shows bare digests and no frame: one by one, the digest
/// of each content; incrementally, the one digest of the whole stream.
pub proof fn lemma_quiet_shows_bare_digests(
    inputs: Seq<HashInput>,
    contents: Seq<Seq<u8>>,
    algo: HashAlgorithm,
)
    requires
        inputs.len() == contents.len(),
    ensures
        outputs(inputs, contents, algo, false, true) == Seq::new(
            inputs.len(),
            |k: int| hex_digest_of(contents[k], algo),
        ),
        inputs.len() > 0 ==> outputs(inputs, contents, algo, true, true) == seq![
            hex_digest_of(stream(contents, inputs.len() as int), algo),
        ],
{
    assert(outputs(inputs, contents, algo, false, true) =~= Seq::new(
        inputs.len(),
        |k: int| hex_digest_of(contents[k], algo),
    ));
}

} // verus!
