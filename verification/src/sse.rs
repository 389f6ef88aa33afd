//! Server-sent events that carry commands to the browser.
use vstd::prelude::*;
use vstd::string::StringExecFns;

verus! {

/// The text of a server-sent event named `event` whose data line is `data`.
pub open spec fn sse_text(event: Seq<char>, data: Seq<char>) -> Seq<char> {
    "event: "@ + event + "\ndata: "@ + data + "\n\n"@
}

/// The event text is the `event:` prefix, the whole event name, the
/// `data:` prefix, the whole of the data, whatever its length, and the blank
/// line, in this order and with nothing else.
pub proof fn lemma_sse_text_layout(event: Seq<char>, data: Seq<char>)
    ensures
        sse_text(event, data).len() == event.len() as int + data.len() as int + 16,
        sse_text(event, data).take(7) == "event: "@,
        sse_text(event, data).subrange(7, 7 + event.len() as int) == event,
        sse_text(event, data).subrange(7 + event.len() as int, 14 + event.len() as int) == "\ndata: "@,
        sse_text(event, data).subrange(14 + event.len() as int, 14 + event.len() as int + data.len() as int) == data,
        sse_text(event, data).skip(14 + event.len() as int + data.len() as int) == "\n\n"@,
{
    reveal_strlit("event: ");
    reveal_strlit("\ndata: ");
    reveal_strlit("\n\n");
    let t = sse_text(event, data);
    let a = "event: "@;
    let b = "\ndata: "@;
    let c = "\n\n"@;
    assert(a.len() == 7);
    assert(b.len() == 7);
    assert(c.len() == 2);
    assert(t.take(7) =~= a);
    assert(t.subrange(7, 7 + event.len() as int) =~= event);
    assert(t.subrange(7 + event.len() as int, 14 + event.len() as int) =~= b);
    assert(t.subrange(14 + event.len() as int, 14 + event.len() as int + data.len() as int) =~= data);
    assert(t.skip(14 + event.len() as int + data.len() as int) =~= c);
}

/// Writes a server-sent event: an `event:` line, a `data:` line holding the
/// JSON text of the message, and the blank line that ends the event.
pub fn sse_event(event: &str, data: &str) -> (res: String)
    ensures
        res@ == sse_text(event@, data@),
        res@.len() == event@.len() as int + data@.len() as int + 16,
        res@.take(7) == "event: "@,
        res@.subrange(7, 7 + event@.len() as int) == event@,
        res@.subrange(7 + event@.len() as int, 14 + event@.len() as int) == "\ndata: "@,
        res@.subrange(14 + event@.len() as int, 14 + event@.len() as int + data@.len() as int) == data@,
        res@.skip(14 + event@.len() as int + data@.len() as int) == "\n\n"@,
{
    proof {
        lemma_sse_text_layout(event@, data@);
    }
    let mut out = String::from_str("event: ");
    out.append(event);
    out.append("\ndata: ");
    out.append(data);
    out.append("\n\n");
    out
}

} // verus!
