use vstd::prelude::*;

use crate::dtc::texts;
use crate::error::{is_fault, Fault, ObdError};
use crate::text::{contains, contains_text, push_str, text_eq};

verus! {

/// The first line that holds `ERROR`, if any.
pub open spec fn first_error_line(lines: Seq<Seq<char>>) -> Option<Seq<char>>
    decreases lines.len(),
{
    if lines.len() == 0 {
        None
    } else if contains(lines[0], "ERROR"@) {
        Some(lines[0])
    } else {
        first_error_line(lines.drop_first())
    }
}

/// What an AT command's reply means: an adapter error naming the command and
/// the first error line, or the lines as they are.
pub open spec fn at_reply_fault(cmd: Seq<char>, lines: Seq<Seq<char>>) -> Option<Fault> {
    match first_error_line(lines) {
        Some(l) => Some(Fault::Elm(cmd + ": "@ + l)),
        None => None,
    }
}

/// What one line of an OBD reply says about the whole reply.
pub open spec fn obd_line_fault(l: Seq<char>) -> Option<Fault> {
    if l == "NODATA"@ || l == "NO DATA"@ {
        Some(Fault::NoData)
    } else if contains(l, "ERROR"@) {
        Some(Fault::Elm(l))
    } else {
        None
    }
}

/// The first line of an OBD reply that is a "no data" or an error line.
pub open spec fn first_obd_fault(lines: Seq<Seq<char>>) -> Option<Fault>
    decreases lines.len(),
{
    if lines.len() == 0 {
        None
    } else if obd_line_fault(lines[0]) is Some {
        obd_line_fault(lines[0])
    } else {
        first_obd_fault(lines.drop_first())
    }
}

/// What an OBD reply means: no data when it is empty, else its first
/// "no data" or error line, else the lines as they are.
pub open spec fn obd_reply_fault(lines: Seq<Seq<char>>) -> Option<Fault> {
    if lines.len() == 0 {
        Some(Fault::NoData)
    } else {
        first_obd_fault(lines)
    }
}

/// The lines joined with single spaces.
pub open spec fn joined(lines: Seq<Seq<char>>) -> Seq<char>
    decreases lines.len(),
{
    if lines.len() == 0 {
        seq![]
    } else if lines.len() == 1 {
        lines[0]
    } else {
        joined(lines.drop_last()) + " "@ + lines.last()
    }
}

/// A checked reply is the same lines, or the error that `f` describes.
pub open spec fn reply_checked(
    r: Result<Vec<String>, ObdError>,
    lines: Seq<String>,
    f: Option<Fault>,
) -> bool {
    match f {
        Some(f) => r matches Err(e) && is_fault(e, f),
        None => r matches Ok(v) && v@ == lines,
    }
}

/// Checks the reply to a raw AT command: a line holding `ERROR` turns the
/// reply into an adapter error.
pub fn check_at_reply(cmd: &str, lines: Vec<String>) -> (r: Result<Vec<String>, ObdError>)
    ensures
        reply_checked(r, lines@, at_reply_fault(cmd@, texts(lines@))),
{
    let ghost all = texts(lines@);
    let mut i: usize = 0;
    assert(all.skip(0) =~= all);
    while i < lines.len()
        invariant
            all == texts(lines@),
            i <= lines@.len(),
            first_error_line(all) == first_error_line(all.skip(i as int)),
        decreases lines@.len() - i,
    {
        assert(all.skip(i as int)[0] == lines@[i as int]@);
        assert(all.skip(i as int).drop_first() =~= all.skip(i + 1));
        if contains_text(lines[i].as_str(), "ERROR") {
            let mut m = String::from_str(cmd);
            push_str(&mut m, ": ");
            push_str(&mut m, lines[i].as_str());
            return Err(ObdError::ElmError(m));
        }
        i = i + 1;
    }
    Ok(lines)
}

/// Checks the reply to an OBD request: an empty reply or a `NODATA` line is
/// "no data"; a line holding `ERROR` is an adapter error.
pub fn check_obd_reply(lines: Vec<String>) -> (r: Result<Vec<String>, ObdError>)
    ensures
        reply_checked(r, lines@, obd_reply_fault(texts(lines@))),
{
    if lines.len() == 0 {
        return Err(ObdError::NoData);
    }
    let ghost all = texts(lines@);
    let mut i: usize = 0;
    assert(all.skip(0) =~= all);
    while i < lines.len()
        invariant
            all == texts(lines@),
            i <= lines@.len(),
            first_obd_fault(all) == first_obd_fault(all.skip(i as int)),
        decreases lines@.len() - i,
    {
        assert(all.skip(i as int)[0] == lines@[i as int]@);
        assert(all.skip(i as int).drop_first() =~= all.skip(i + 1));
        let line = lines[i].as_str();
        if text_eq(line, "NODATA") || text_eq(line, "NO DATA") {
            return Err(ObdError::NoData);
        }
        if contains_text(line, "ERROR") {
            return Err(ObdError::ElmError(String::from_str(line)));
        }
        i = i + 1;
    }
    Ok(lines)
}

/// The lines joined with single spaces.
pub fn join_lines(lines: &[String]) -> (r: String)
    ensures
        r@ == joined(texts(lines@)),
{
    let ghost all = texts(lines@);
    let mut s = String::new();
    let mut i: usize = 0;
    assert(all.take(0) =~= Seq::<Seq<char>>::empty());
    while i < lines.len()
        invariant
            all == texts(lines@),
            i <= lines@.len(),
            s@ == joined(all.take(i as int)),
        decreases lines@.len() - i,
    {
        if i > 0 {
            push_str(&mut s, " ");
        }
        push_str(&mut s, lines[i].as_str());
        i = i + 1;
        assert(all.take(i as int).drop_last() =~= all.take(i - 1));
        assert(s@ =~= joined(all.take(i as int)));
    }
    assert(all.take(i as int) =~= all);
    s
}

/// The adapter's firmware version and the protocol it detected.
#[derive(Debug)]
pub struct VehicleInfo {
    pub elm_version: String,
    pub protocol: String,
}

impl Default for VehicleInfo {
    fn default() -> (r: Self)
        ensures
            r.elm_version@ == Seq::<char>::empty(),
            r.protocol@ == Seq::<char>::empty(),
    {
        VehicleInfo { elm_version: String::new(), protocol: String::new() }
    }
}

} // verus!
