use vstd::prelude::*;
use crate::text::push_slice;

verus! {

/// Failures of the `update` merge: either no trusted server is configured, or
/// a per-server fetch of its listing failed and the merge was aborted.
#[derive(Debug, PartialEq, Eq)]
pub enum UpdateError {
    NoServersConfigured,
    IndexFetch,
}

/// Failure of request resolution: some requested names matched no index entry
/// and skipping unavailable packages was not asked for.
#[derive(Debug, PartialEq, Eq)]
pub enum ResolveError {
    PackagesUnavailable { missing: Vec<Vec<u8>> },
}

/// Per-entry failures of a worker; each aborts that worker's current item
/// without stopping its siblings.
#[derive(Debug, PartialEq, Eq)]
pub enum EntryError {
    ContentLengthUnknown,
    Transport,
    CorruptArchive,
}

/// The stable machine-readable code of an update failure.
pub open spec fn update_error_code(e: UpdateError) -> Seq<char> {
    match e {
        UpdateError::NoServersConfigured => "IP007"@,
        UpdateError::IndexFetch => "DW010"@,
    }
}

impl UpdateError {
    pub fn code(&self) -> (c: &'static str)
        ensures
            c@ == update_error_code(*self),
    {
        match self {
            UpdateError::NoServersConfigured => "IP007",
            UpdateError::IndexFetch => "DW010",
        }
    }
}

/// The stable machine-readable code of a resolution failure.
pub open spec fn resolve_error_code(e: ResolveError) -> Seq<char> {
    "IP009"@
}

impl ResolveError {
    pub fn code(&self) -> (c: &'static str)
        ensures
            c@ == resolve_error_code(*self),
    {
        "IP009"
    }
}

/// The stable machine-readable code of a per-entry failure.
pub open spec fn entry_error_code(e: EntryError) -> Seq<char> {
    "DW010"@
}

impl EntryError {
    pub fn code(&self) -> (c: &'static str)
        ensures
            c@ == entry_error_code(*self),
    {
        match self {
            EntryError::ContentLengthUnknown => "DW010",
            EntryError::Transport => "DW010",
            EntryError::CorruptArchive => "DW010",
        }
    }
}

/// The bytes of `Unknown command "`, the prefix of the report below.
pub open spec fn unknown_command_prefix() -> Seq<u8> {
    seq![85u8, 110, 107, 110, 111, 119, 110, 32, 99, 111, 109, 109, 97, 110, 100, 32, 34]
}

/// The message reported for a command word the tool does not know: the word,
/// quoted, after `Unknown command `.
pub open spec fn unknown_command_message(arg: Seq<u8>) -> Seq<u8> {
    unknown_command_prefix() + arg + seq![34u8]
}

/// The report for an unrecognized command word: its stable code and the
/// message naming the word.
pub fn unknown_command(arg: &Vec<u8>) -> (r: (&'static str, Vec<u8>))
    ensures
        r.0@ == "SH005"@,
        r.1@ == unknown_command_message(arg@),
{
    let mut message: Vec<u8> = Vec::new();
    let prefix: [u8; 17] = [
        85, 110, 107, 110, 111, 119, 110, 32, 99, 111, 109, 109, 97, 110, 100, 32, 34,
    ];
    push_slice(&mut message, &prefix);
    proof {
        assert(message@ =~= unknown_command_prefix());
    }
    crate::text::push_all(&mut message, arg);
    message.push(34);
    proof {
        assert(message@ =~= unknown_command_message(arg@));
    }
    ("SH005", message)
}

} // verus!
