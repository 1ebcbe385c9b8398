//! The lines that the tool prints: every message stands behind the tool's
//! name in bold blue.

use vstd::prelude::*;

verus! {

/// The escape sequence that switches to bold blue: `ESC [ 1 ; 3 4 m`.
pub open spec fn bold_blue() -> Seq<u8> {
    seq![27u8, 91u8, 49u8, 59u8, 51u8, 52u8, 109u8]
}

/// The escape sequence that switches every style off: `ESC [ 0 m`.
pub open spec fn reset() -> Seq<u8> {
    seq![27u8, 91u8, 48u8, 109u8]
}

/// The tool's name as it stands before a message: `hc-admin:`.
pub open spec fn label() -> Seq<u8> {
    seq![104u8, 99u8, 45u8, 97u8, 100u8, 109u8, 105u8, 110u8, 58u8]
}

/// The line that says `text`: the painted name, a space, the text and a
/// line feed.
pub open spec fn message_line(text: Seq<u8>) -> Seq<u8> {
    bold_blue() + label() + reset() + seq![32u8] + text + seq![10u8]
}

/// Calls `ansi_term`'s `Colour::bold`, `Style::paint` and
/// `ANSIByteString::write_to` on a fresh buffer. The contract claims what
/// that writes for the colour blue: the escape sequence for bold blue, the
/// text as it is, and the escape sequence that resets.
#[verifier::external_body]
fn paint_bold_blue(text: &[u8]) -> (painted: Vec<u8>)
    ensures
        painted@ == bold_blue() + text@ + reset(),
{
    let mut painted: Vec<u8> = Vec::new();
    let _ = ansi_term::Colour::Blue.bold().paint::<&[u8], [u8]>(text).write_to(&mut painted);
    painted
}

/// The line to print for the message `text`.
pub fn msg(text: &[u8]) -> (line: Vec<u8>)
    ensures
        line@ == message_line(text@),
{
    let mut name: Vec<u8> = Vec::new();
    name.push(104u8);
    name.push(99u8);
    name.push(45u8);
    name.push(97u8);
    name.push(100u8);
    name.push(109u8);
    name.push(105u8);
    name.push(110u8);
    name.push(58u8);
    assert(name@ =~= label());
    let mut line = paint_bold_blue(name.as_slice());
    line.push(32u8);
    let ghost head = line@;
    let mut i: usize = 0;
    while i < text.len()
        invariant
            i <= text.len(),
            line@ == head + text@.subrange(0, i as int),
        decreases text.len() - i,
    {
        line.push(text[i]);
        i += 1;
        assert(line@ =~= head + text@.subrange(0, i as int));
    }
    assert(text@.subrange(0, text.len() as int) =~= text@);
    line.push(10u8);
    assert(line@ =~= message_line(text@));
    line
}

} // verus!
