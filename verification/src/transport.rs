use vstd::prelude::*;

use crate::dtc::texts;
use crate::text::{chars_of, lemma_trim_subrange, skip_white_end, skip_white_start, trim};

verus! {

/// The text that `String::from_utf8_lossy` makes of some bytes.
pub uninterp spec fn lossy_text(bytes: Seq<u8>) -> Seq<char>;

/// The text that `str::to_uppercase` makes of some text.
pub uninterp spec fn upper_text(s: Seq<char>) -> Seq<char>;

/// `String::from_utf8_lossy`: the bytes decoded as UTF-8, with each invalid
/// sequence replaced by U+FFFD. Claimed: the result is a function of the bytes
/// alone, and valid UTF-8 comes back as exactly the text it encodes.
#[verifier::external_body]
fn utf8_lossy(bytes: &[u8]) -> (r: String)
    ensures
        r@ == lossy_text(bytes@),
        vstd::utf8::valid_utf8(bytes@) ==> r@ == vstd::utf8::decode_utf8(bytes@),
{
    String::from_utf8_lossy(bytes).into_owned()
}

/// `str::to_uppercase`: the Unicode upper-case mapping of the text. Claimed:
/// the result is a function of the text alone.
#[verifier::external_body]
fn to_upper(s: &str) -> (r: String)
    ensures
        r@ == upper_text(s@),
{
    s.to_uppercase()
}

/// What is written to the port for a command: the command and a carriage
/// return.
pub fn command_line(cmd: &str) -> (r: String)
    ensures
        r@ == cmd@.push('\r'),
{
    let mut s = String::from_str(cmd);
    crate::text::push_char(&mut s, '\r');
    s
}

/// The byte that ends every reply of the adapter: its prompt `>`.
pub open spec fn is_prompt(b: u8) -> bool {
    b == 62
}

/// A line break that separates the lines of a reply.
pub open spec fn is_line_break(c: char) -> bool {
    c == '\r' || c == '\n'
}

/// The pieces of `s` between line breaks (`str::split` on `\r` or `\n`);
/// there is always at least one piece.
pub open spec fn split_lines(s: Seq<char>) -> Seq<Seq<char>>
    decreases s.len(),
{
    if s.len() == 0 {
        seq![seq![]]
    } else {
        let pieces = split_lines(s.drop_last());
        if is_line_break(s.last()) {
            pieces.push(seq![])
        } else {
            pieces.update(pieces.len() - 1, pieces.last().push(s.last()))
        }
    }
}

/// The lines kept from the pieces of a reply: each trimmed and upper-cased,
/// the empty ones dropped.
pub open spec fn kept_lines(pieces: Seq<Seq<char>>) -> Seq<Seq<char>>
    decreases pieces.len(),
{
    if pieces.len() == 0 {
        seq![]
    } else {
        let line = upper_text(trim(pieces.last()));
        if line.len() == 0 {
            kept_lines(pieces.drop_last())
        } else {
            kept_lines(pieces.drop_last()).push(line)
        }
    }
}

/// The lines of a reply received as `bytes`.
pub open spec fn reply_lines(bytes: Seq<u8>) -> Seq<Seq<char>> {
    kept_lines(split_lines(lossy_text(bytes)))
}

/// Collects the bytes of one reply of the adapter, up to its prompt.
pub struct PromptReader {
    received: Vec<u8>,
}

impl View for PromptReader {
    type V = Seq<u8>;

    /// The bytes received so far, the prompt not included.
    closed spec fn view(&self) -> Seq<u8> {
        self.received@
    }
}

impl PromptReader {
    /// A reader that has received nothing yet.
    pub fn new() -> (r: PromptReader)
        ensures
            r@ == Seq::<u8>::empty(),
    {
        PromptReader { received: Vec::new() }
    }

    /// Takes one byte read from the port. Returns `true` when it is the
    /// prompt, which ends the reply and is not kept.
    pub fn feed(&mut self, byte: u8) -> (prompt: bool)
        ensures
            prompt == is_prompt(byte),
            prompt ==> final(self)@ == old(self)@,
            !prompt ==> final(self)@ == old(self)@.push(byte),
    {
        if byte == 62 {
            true
        } else {
            self.received.push(byte);
            false
        }
    }

    /// The lines of the reply: the bytes decoded as UTF-8 (lossily), split at
    /// line breaks, each piece trimmed and upper-cased, empty pieces dropped.
    /// Bytes that are valid UTF-8 are split as exactly the text they encode.
    pub fn lines(&self) -> (r: Vec<String>)
        ensures
            texts(r@) == reply_lines(self@),
            vstd::utf8::valid_utf8(self@) ==> texts(r@) == kept_lines(
                split_lines(vstd::utf8::decode_utf8(self@)),
            ),
    {
        let raw = utf8_lossy(self.received.as_slice());
        let text = raw.as_str();
        let chars = chars_of(text);
        let n = chars.len();
        let mut out: Vec<String> = Vec::new();
        let mut start: usize = 0;
        let mut i: usize = 0;
        let ghost whole = chars@;
        assert(whole.take(0) =~= Seq::<char>::empty());
        assert(split_lines(whole.take(0)) =~= seq![whole.subrange(0, 0)]);
        while i < n
            invariant
                whole == chars@,
                whole == raw@,
                text@ == whole,
                n == whole.len(),
                start <= i <= n,
                split_lines(whole.take(i as int)).len() >= 1,
                split_lines(whole.take(i as int)).last() == whole.subrange(start as int, i as int),
                texts(out@) == kept_lines(split_lines(whole.take(i as int)).drop_last()),
            decreases n - i,
        {
            let c = chars[i];
            let ghost before = split_lines(whole.take(i as int));
            assert(whole.take(i + 1).drop_last() =~= whole.take(i as int));
            assert(whole.take(i + 1).last() == c);
            if c == '\r' || c == '\n' {
                let b = skip_white_start(&chars, start, i);
                let e = skip_white_end(&chars, b, i);
                proof {
                    lemma_trim_subrange(whole, start as int, b as int, i as int);
                }
                let piece = text.substring_char(b, e);
                assert(piece@ == trim(before.last()));
                let line = to_upper(piece);
                assert(line@ == upper_text(trim(before.last())));
                assert(split_lines(whole.take(i + 1)) == before.push(seq![]));
                assert(split_lines(whole.take(i + 1)).drop_last() =~= before);
                let ghost old_out = out@;
                if line.as_str().unicode_len() > 0 {
                    out.push(line);
                    assert(texts(out@) =~= texts(old_out).push(line@));
                }
                start = i + 1;
                i = i + 1;
                assert(split_lines(whole.take(i as int)).last() =~= whole.subrange(
                    start as int,
                    i as int,
                ));
            } else {
                i = i + 1;
                let ghost after = split_lines(whole.take(i as int));
                assert(after == before.update(before.len() - 1, before.last().push(c)));
                assert(after.drop_last() =~= before.drop_last());
                assert(after.last() =~= whole.subrange(start as int, i as int));
            }
        }
        let b = skip_white_start(&chars, start, n);
        let e = skip_white_end(&chars, b, n);
        proof {
            lemma_trim_subrange(whole, start as int, b as int, n as int);
        }
        let piece = text.substring_char(b, e);
        let ghost pieces = split_lines(whole.take(n as int));
        assert(piece@ == trim(pieces.last()));
        let line = to_upper(piece);
        assert(whole.take(n as int) =~= whole);
        let ghost old_out = out@;
        if line.as_str().unicode_len() > 0 {
            out.push(line);
            assert(texts(out@) =~= texts(old_out).push(line@));
        }
        out
    }
}

} // verus!
