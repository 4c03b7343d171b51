//! What a node tells its operator.

use crate::process::{Halt, HaltView};
use crate::text;
use vstd::prelude::*;
use vstd::string::*;

verus! {

/// These bytes as text, with the replacement character for what is not UTF-8.
pub uninterp spec fn lossy_text(bytes: Seq<u8>) -> Seq<char>;

/// `String::from_utf8_lossy`: a function of the bytes, which gives UTF-8 back as the text it
/// encodes.
#[verifier::external_body]
fn decode_lossy(bytes: &Vec<u8>) -> (text: String)
    ensures
        text@ == lossy_text(bytes@),
        vstd::utf8::valid_utf8(bytes@) ==> text@ == vstd::utf8::decode_utf8(bytes@),
{
    String::from_utf8_lossy(bytes).into_owned()
}

/// A text in quotes, as `{:?}` writes it.
pub uninterp spec fn quoted_text(s: Seq<char>) -> Seq<char>;

/// `{:?}` on a text: a function of the text.
#[verifier::external_body]
fn quote(s: &str) -> (quoted: String)
    ensures
        quoted@ == quoted_text(s@),
{
    format!("{:?}", s)
}

/// What the gossip layer reports.
#[derive(Debug, PartialEq, Eq)]
pub enum GossipEvent {
    /// A message came from a peer, which is shown as `source`.
    Message { source: String, data: Vec<u8> },
    /// A peer subscribed to a topic or left one.
    Membership,
}

/// The line about a message from a peer, where the message reads `quoted`.
pub open spec fn message_line(quoted: Seq<char>, source: Seq<char>) -> Seq<char> {
    "Received: '"@ + quoted + "' from "@ + source
}

/// The line about a message from a peer, where the message reads `quoted`.
pub fn write_message_line(quoted: &str, source: &str) -> (line: String)
    ensures
        line@ == message_line(quoted@, source@),
{
    "Received: '".to_string().concat(quoted).concat("' from ").concat(source)
}

/// The line about what the gossip layer reports. Only messages get one.
pub fn received_line(event: &GossipEvent) -> (line: Option<String>)
    ensures
        text::optional_text(line) == match *event {
            GossipEvent::Message { source, data } => Some(
                message_line(quoted_text(lossy_text(data@)), source@),
            ),
            GossipEvent::Membership => None,
        },
{
    match event {
        GossipEvent::Message { source, data } => {
            let quoted = quote(decode_lossy(data).as_str());
            Some(write_message_line(quoted.as_str(), source.as_str()))
        },
        GossipEvent::Membership => None,
    }
}

/// The texts in order, with `, ` between each two neighbours.
pub open spec fn listed(items: Seq<Seq<char>>) -> Seq<char>
    decreases items.len(),
{
    if items.len() == 0 {
        Seq::<char>::empty()
    } else if items.len() == 1 {
        items[0]
    } else {
        listed(items.drop_last()) + ", "@ + items.last()
    }
}

/// Each of the texts in quotes.
pub open spec fn all_quoted(items: Seq<Seq<char>>) -> Seq<Seq<char>> {
    items.map_values(|item: Seq<char>| quoted_text(item))
}

/// The texts in order, with `, ` between each two neighbours.
pub fn list(items: &Vec<String>) -> (written: String)
    ensures
        written@ == listed(text::texts(items@)),
{
    let ghost all = text::texts(items@);
    let mut written = String::new();
    let mut i: usize = 0;
    assert(all.take(0) =~= Seq::empty());
    while i < items.len()
        invariant
            i <= items@.len(),
            all == text::texts(items@),
            written@ == listed(all.take(i as int)),
        decreases items@.len() - i,
    {
        assert(all.take(i + 1).drop_last() =~= all.take(i as int));
        assert(all.take(i + 1).last() == items@[i as int]@);
        if i > 0 {
            written.append(", ");
        }
        written.append(items[i].as_str());
        assert(written@ =~= listed(all.take(i + 1)));
        i = i + 1;
    }
    assert(all.take(i as int) =~= all);
    written
}

/// Why processing a request stops, in words.
pub open spec fn halt_text(halt: HaltView) -> Seq<char> {
    match halt {
        HaltView::Unrouted { segments } => "not implemented: ["@ + listed(all_quoted(segments))
            + "]"@,
        HaltView::Undecodable => "called `Result::unwrap()` on an `Err` value"@,
        HaltView::NoStage => "index out of bounds: the len is 0 but the index is 0"@,
        HaltView::OtherStage => "conduit only uses 'm.login.dummy'"@,
        HaltView::NotChallenged => "did not find UIAA error"@,
        HaltView::ChallengeFailed { debug } => "called `Result::unwrap()` on an `Err` value: "@
            + debug,
    }
}

/// Why processing a request stops, in words.
pub fn halt_reason(halt: &Halt) -> (reason: String)
    ensures
        reason@ == halt_text(halt@),
{
    match halt {
        Halt::Unrouted { segments } => {
            let ghost wanted = all_quoted(text::texts(segments@));
            let mut quoted: Vec<String> = Vec::new();
            let mut i: usize = 0;
            while i < segments.len()
                invariant
                    i <= segments@.len(),
                    wanted == all_quoted(text::texts(segments@)),
                    text::texts(quoted@) == wanted.take(i as int),
                decreases segments@.len() - i,
            {
                let ghost shorter = quoted@;
                let item = quote(segments[i].as_str());
                quoted.push(item);
                assert(text::texts(quoted@) =~= text::texts(shorter).push(item@));
                assert(text::texts(quoted@) =~= wanted.take(i + 1));
                i = i + 1;
            }
            assert(wanted.take(i as int) =~= wanted);
            "not implemented: [".to_string().concat(list(&quoted).as_str()).concat("]")
        },
        Halt::Undecodable => "called `Result::unwrap()` on an `Err` value".to_string(),
        Halt::NoStage => "index out of bounds: the len is 0 but the index is 0".to_string(),
        Halt::OtherStage => "conduit only uses 'm.login.dummy'".to_string(),
        Halt::NotChallenged => "did not find UIAA error".to_string(),
        Halt::ChallengeFailed { debug } => {
            "called `Result::unwrap()` on an `Err` value: ".to_string().concat(debug.as_str())
        },
    }
}

/// The line about a message holds the whole message and the whole source.
pub proof fn law_message_line_in_writing(quoted: Seq<char>, source: Seq<char>)
    ensures
        message_line(quoted, source) == "Received: '"@ + quoted + "' from "@ + source,
{
}

/// A list holds every text in full: the first as it is, and each further one behind a comma.
pub proof fn law_list_item_by_item(items: Seq<Seq<char>>, item: Seq<char>)
    ensures
        listed(Seq::empty()) == Seq::<char>::empty(),
        listed(seq![item]) == item,
        items.len() > 0 ==> listed(items.push(item)) == listed(items) + ", "@ + item,
        all_quoted(items.push(item)) == all_quoted(items).push(quoted_text(item)),
        all_quoted(Seq::empty()) == Seq::<Seq<char>>::empty(),
{
    assert(items.push(item).drop_last() =~= items);
    assert(all_quoted(items.push(item)) =~= all_quoted(items).push(quoted_text(item)));
    assert(all_quoted(Seq::empty()) =~= Seq::<Seq<char>>::empty());
}

/// Each reason for stopping in writing.
pub proof fn law_reasons_in_writing(segments: Seq<Seq<char>>, debug: Seq<char>)
    ensures
        halt_text(HaltView::Unrouted { segments }) == "not implemented: ["@ + listed(
            all_quoted(segments),
        ) + "]"@,
        halt_text(HaltView::Undecodable) == "called `Result::unwrap()` on an `Err` value"@,
        halt_text(HaltView::NoStage) == "index out of bounds: the len is 0 but the index is 0"@,
        halt_text(HaltView::OtherStage) == "conduit only uses 'm.login.dummy'"@,
        halt_text(HaltView::NotChallenged) == "did not find UIAA error"@,
        halt_text(HaltView::ChallengeFailed { debug })
            == "called `Result::unwrap()` on an `Err` value: "@ + debug,
{
}

} // verus!
