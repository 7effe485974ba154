//! The decisions of writes and deletes: the text written, the messages
//! reported, and the name a soft-deleted note takes in the trash.
use crate::error::VaultError;
use crate::format::{format_with_frontmatter, formatted};
use crate::value::MetadataValue;
use vstd::prelude::*;

verus! {

/// The decimal digit for `d`.
pub open spec fn digit(d: nat) -> char {
    if d == 0 { '0' } else if d == 1 { '1' } else if d == 2 { '2' } else if d == 3 { '3' }
    else if d == 4 { '4' } else if d == 5 { '5' } else if d == 6 { '6' } else if d == 7 { '7' }
    else if d == 8 { '8' } else { '9' }
}

/// The decimal text of `n`, without leading zeros.
pub open spec fn decimal(n: nat) -> Seq<char>
    decreases n,
{
    if n < 10 {
        seq![digit(n)]
    } else {
        decimal(n / 10).push(digit(n % 10))
    }
}

/// The name of the trash directory directly under the vault root.
pub open spec fn trash_dir() -> Seq<char> {
    seq!['.', 't', 'r', 'a', 's', 'h']
}

/// The name a note named `file_name` takes in the trash at `secs`.
pub open spec fn trash_entry(secs: nat, file_name: Seq<char>) -> Seq<char> {
    decimal(secs) + seq!['_'] + file_name
}

fn digit_char(d: u64) -> (c: char)
    requires
        d < 10,
    ensures
        c == digit(d as nat),
{
    if d == 0 { '0' } else if d == 1 { '1' } else if d == 2 { '2' } else if d == 3 { '3' }
    else if d == 4 { '4' } else if d == 5 { '5' } else if d == 6 { '6' } else if d == 7 { '7' }
    else if d == 8 { '8' } else { '9' }
}

/// The decimal text of `n`.
pub fn decimal_string(n: u64) -> (r: String)
    ensures
        r@ == decimal(n as nat),
{
    let mut m = n;
    let mut suffix: Vec<char> = Vec::new();
    while m >= 10
        invariant
            decimal(n as nat) == decimal(m as nat) + suffix@,
        decreases m,
    {
        let d = digit_char(m % 10);
        let ghost old_suffix = suffix@;
        suffix.insert(0, d);
        assert(decimal(m as nat) == decimal((m / 10) as nat).push(d));
        assert(decimal((m / 10) as nat).push(d) + old_suffix =~= decimal((m / 10) as nat) + suffix@);
        m = m / 10;
    }
    suffix.insert(0, digit_char(m));
    let r = crate::text::string_of_range(&suffix, 0, suffix.len());
    assert(r@ =~= decimal(n as nat));
    r
}

/// The file name a note named `file_name` takes in the trash when deleted
/// at `secs` seconds after the Unix epoch: `{secs}_{file_name}`.
pub fn trash_entry_name(secs: u64, file_name: &str) -> (r: String)
    ensures
        r@ == trash_entry(secs as nat, file_name@),
{
    let mut r = decimal_string(secs);
    r.append("_");
    proof {
        reveal_strlit("_");
    }
    r.append(file_name);
    assert(r@ =~= trash_entry(secs as nat, file_name@));
    r
}

/// The name of a trash entry ends with the original file name.
pub proof fn lemma_trash_entry_ends_with_name(secs: nat, file_name: Seq<char>)
    ensures
        trash_entry(secs, file_name).len() > file_name.len(),
        trash_entry(secs, file_name).subrange(
            trash_entry(secs, file_name).len() - file_name.len(),
            trash_entry(secs, file_name).len() as int,
        ) == file_name,
{
    let t = trash_entry(secs, file_name);
    assert(t.subrange(t.len() - file_name.len(), t.len() as int) =~= file_name);
}

/// The text a write stores: the content as it is, or, with metadata, the
/// metadata framed as frontmatter above the content.
pub fn note_text(content: String, metadata: Option<&MetadataValue>) -> (r: String)
    ensures
        match metadata {
            Some(m) => r@ == formatted(*m, content@),
            None => r@ == content@,
        },
{
    match metadata {
        Some(m) => format_with_frontmatter(m, content.as_str()),
        None => content,
    }
}

/// The report of a write of `path`: `Created {path}`, or `Overwrote {path}`
/// where the note existed before.
pub fn write_message(existed: bool, path: &str) -> (r: String)
    ensures
        r@ == (if existed { "Overwrote "@ } else { "Created "@ }) + path@,
{
    let mut r = if existed {
        String::from_str("Overwrote ")
    } else {
        String::from_str("Created ")
    };
    r.append(path);
    r
}

/// What a delete does to the note.
#[derive(Debug)]
pub enum DeleteAction {
    /// Remove the file, then report `message`.
    Unlink { message: String },
    /// Move the file to `trash_path` (relative to the root: the trash
    /// directory, then `entry`), then report `message`.
    MoveToTrash { entry: String, trash_path: String, message: String },
}

/// Decides a delete of the note shown as `path`, named `file_name`, at
/// `secs` seconds after the epoch: `NotFound` where it does not exist; else
/// removal when `permanent`; else a move into the trash.
pub fn delete_note(exists: bool, permanent: bool, path: &str, file_name: &str, secs: u64) -> (r: Result<DeleteAction, VaultError>)
    ensures
        !exists ==> r is Err && r->Err_0 is NotFound && r->Err_0->NotFound_path@ == path@,
        exists && permanent ==> r is Ok && r->Ok_0 is Unlink && r->Ok_0->Unlink_message@
            == "Permanently deleted "@ + path@,
        exists && !permanent ==> r is Ok && r->Ok_0 is MoveToTrash
            && r->Ok_0->MoveToTrash_entry@ == trash_entry(secs as nat, file_name@)
            && r->Ok_0->MoveToTrash_trash_path@ == trash_dir() + seq!['/'] + trash_entry(secs as nat, file_name@)
            && r->Ok_0->MoveToTrash_message@ == "Moved to trash: "@ + r->Ok_0->MoveToTrash_trash_path@,
{
    if !exists {
        return Err(VaultError::NotFound { path: path.to_owned() });
    }
    if permanent {
        let mut message = String::from_str("Permanently deleted ");
        message.append(path);
        return Ok(DeleteAction::Unlink { message });
    }
    let entry = trash_entry_name(secs, file_name);
    let mut trash_path = String::from_str(".trash/");
    proof {
        reveal_strlit(".trash/");
    }
    trash_path.append(entry.as_str());
    assert(trash_path@ =~= trash_dir() + seq!['/'] + trash_entry(secs as nat, file_name@));
    let mut message = String::from_str("Moved to trash: ");
    message.append(trash_path.as_str());
    Ok(DeleteAction::MoveToTrash { entry, trash_path, message })
}

} // verus!
