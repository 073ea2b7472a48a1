//! The filesystem commands of the front end.
//!
//! A command is carried out by the caller, one call of the operating system
//! after another. This module holds what a command decides in between: which
//! calls writing a file comes to, which call removes a path, and what listing
//! a directory replies once its entries have been read. Reading a file and
//! making a directory are a single call each and decide nothing; testing for
//! existence is a single call whose answer is always a reply, never a failure.
//!
//! Every failure is reported to the front end as a message, a `String`.

use vstd::prelude::*;

verus! {

/// The message with which a write to a path without a parent is turned down.
pub const BAD_PATH: &'static str = "bad path";

/// The calls that writing a text file comes to: create `dir` with every
/// missing directory above it, then write `contents` to `path`, replacing
/// what the file held. The first call that fails ends the command with the
/// operating system's message.
#[derive(Debug, PartialEq, Eq)]
pub struct WritePlan {
    /// The directory that holds the file.
    pub dir: String,
    /// The file to write.
    pub path: String,
    /// What the file holds afterwards.
    pub contents: String,
}

/// The parent of a path given as text, as `std::path::Path::parent` gives it:
/// the path without its last component, or `None` where it has none. The rule
/// is the platform's and is fixed when the library is built.
pub uninterp spec fn path_parent(path: Seq<char>) -> Option<Seq<char>>;

/// `std::path::Path::parent` on a path given as text. The result is
/// [`path_parent`] of the path; the empty path and the root `/` have no
/// parent on any platform.
#[verifier::external_body]
fn parent_of(path: &str) -> (parent: Option<String>)
    ensures
        match parent {
            Some(dir) => path_parent(path@) == Some(dir@),
            None => path_parent(path@) is None,
        },
        path@.len() == 0 ==> parent is None,
        path@ == seq!['/'] ==> parent is None,
{
    match std::path::Path::new(path).parent() {
        Some(dir) => Some(dir.to_string_lossy().into_owned()),
        None => None,
    }
}

/// Plans a write to `path`, given the parent of `path` as the platform sees
/// it: without a parent the write is turned down with [`BAD_PATH`], before
/// anything is asked of the filesystem.
pub fn plan_write(parent: Option<String>, path: String, contents: String) -> (plan: Result<
    WritePlan,
    String,
>)
    ensures
        match parent {
            Some(dir) => plan == Ok::<WritePlan, String>(WritePlan { dir, path, contents }),
            None => plan is Err && plan->Err_0@ == BAD_PATH@,
        },
{
    match parent {
        Some(dir) => Ok(WritePlan { dir, path, contents }),
        None => Err(BAD_PATH.to_owned()),
    }
}

/// Plans the command that writes `contents` to the file at `path`.
///
/// Where `path` has a parent, the plan creates that parent and then writes
/// `contents` to `path`, both as they were given. A path without a parent is
/// turned down with [`BAD_PATH`]; the empty path and the root `/` are among
/// them on every platform.
pub fn write_text_file(path: String, contents: String) -> (plan: Result<WritePlan, String>)
    ensures
        match path_parent(path@) {
            Some(dir) => plan is Ok && plan->Ok_0.dir@ == dir && plan->Ok_0.path == path
                && plan->Ok_0.contents == contents,
            None => plan is Err && plan->Err_0@ == BAD_PATH@,
        },
        path@.len() == 0 || path@ == seq!['/'] ==> plan is Err,
{
    let parent = parent_of(path.as_str());
    plan_write(parent, path, contents)
}

/// How a path is removed.
#[derive(Clone, Copy, Debug, PartialEq, Eq, Structural)]
pub enum Removal {
    /// Remove the directory with everything below it.
    Tree,
    /// Remove the single file.
    File,
}

/// Chooses how to remove a path: a directory goes with all that it holds,
/// anything else is removed as one file.
pub fn removal_for(is_directory: bool) -> (removal: Removal)
    ensures
        removal == if is_directory {
            Removal::Tree
        } else {
            Removal::File
        },
{
    if is_directory {
        Removal::Tree
    } else {
        Removal::File
    }
}

/// The reply to testing whether a path exists, given what the operating
/// system answered: the answer itself. The command never fails; a path that
/// is not there is reported as `false`.
pub fn existence_reply(found: bool) -> (reply: Result<bool, String>)
    ensures
        reply == Ok::<bool, String>(found),
{
    Ok(found)
}

/// What reading one entry of a directory gave.
#[derive(Debug, PartialEq, Eq)]
pub enum Entry {
    /// An entry with its base name.
    Name(String),
    /// An entry whose name is not text. It is left out of the listing.
    Unnamed,
    /// The entry could not be read; the operating system's message.
    Failed(String),
}

/// The name that an entry adds to the listing, if any.
pub open spec fn name_of(entry: Entry) -> Option<String> {
    match entry {
        Entry::Name(name) => Some(name),
        _ => None,
    }
}

/// The names of the entries that have one, in the order of the entries.
pub open spec fn names_in(entries: Seq<Entry>) -> Seq<String> {
    entries.filter_map(|entry: Entry| name_of(entry))
}

/// No entry failed.
pub open spec fn all_read(entries: Seq<Entry>) -> bool {
    forall|i: int| 0 <= i < entries.len() ==> !(#[trigger] entries[i] is Failed)
}

/// Entry `i` failed, and none before it did.
pub open spec fn first_failure(entries: Seq<Entry>, i: int) -> bool {
    &&& 0 <= i < entries.len()
    &&& entries[i] is Failed
    &&& all_read(entries.take(i))
}

/// What listing a directory replies after reading `entries`: the message of
/// the first entry that failed, or else the names.
pub open spec fn listing(entries: Seq<Entry>) -> Result<Seq<String>, String> {
    if all_read(entries) {
        Ok(names_in(entries))
    } else {
        Err(entries[choose|i: int| first_failure(entries, i)]->Failed_0)
    }
}

/// The reply as sequences.
pub open spec fn reply_view(reply: Result<Vec<String>, String>) -> Result<Seq<String>, String> {
    match reply {
        Ok(names) => Ok(names@),
        Err(message) => Err(message),
    }
}

/// Takes one more entry into a listing under way. A name is added at the end
/// of `names`, an entry without one changes nothing, and a failed entry ends
/// the listing with its message.
pub fn note_entry(names: &mut Vec<String>, entry: Entry) -> (outcome: Result<(), String>)
    ensures
        match entry {
            Entry::Name(name) => outcome is Ok && final(names)@ == old(names)@.push(name),
            Entry::Unnamed => outcome is Ok && final(names)@ == old(names)@,
            Entry::Failed(message) => outcome == Err::<(), String>(message) && final(names)@ == old(
                names,
            )@,
        },
{
    match entry {
        Entry::Name(name) => {
            names.push(name);
            Ok(())
        },
        Entry::Unnamed => Ok(()),
        Entry::Failed(message) => Err(message),
    }
}

/// The reply to listing a directory whose entries were read as `entries`, in
/// that order: the message of the first entry that failed, or else the names
/// of the entries that have one, in the order in which they were read.
pub fn list_names(entries: Vec<Entry>) -> (reply: Result<Vec<String>, String>)
    ensures
        reply_view(reply) == listing(entries@),
{
    let ghost all = entries@;
    let mut names: Vec<String> = Vec::new();
    proof {
        assert(all.take(0) =~= Seq::<Entry>::empty());
    }
    for entry in it: entries
        invariant
            it.seq() == all,
            all_read(all.take(it.index() as int)),
            names@ == names_in(all.take(it.index() as int)),
    {
        proof {
            let done = all.take(it.index() as int);
            assert(all.take(it.index() + 1) =~= done.push(entry));
            lemma_listing_push(done, entry);
        }
        match note_entry(&mut names, entry) {
            Ok(()) => {},
            Err(message) => {
                proof {
                    lemma_listing_failure(all, it.index() as int);
                }
                return Err(message);
            },
        }
    }
    assert(all.take(all.len() as int) =~= all);
    Ok(names)
}

/// The first failure decides the reply, whatever was read after it.
pub proof fn lemma_listing_failure(entries: Seq<Entry>, i: int)
    requires
        first_failure(entries, i),
    ensures
        listing(entries) == Err::<Seq<String>, String>(entries[i]->Failed_0),
{
    let k = choose|k: int| first_failure(entries, k);
    if k < i {
        assert(entries.take(i)[k] is Failed);
    } else if i < k {
        assert(entries.take(k)[i] is Failed);
    }
}

/// Reading one more entry extends the reply as [`note_entry`] does: after a
/// failure the reply stays, a name is added at the end, an entry without a
/// name is passed over, and a failed entry gives its message.
pub proof fn lemma_listing_push(entries: Seq<Entry>, entry: Entry)
    ensures
        listing(entries.push(entry)) == match listing(entries) {
            Err(message) => Err(message),
            Ok(names) => match entry {
                Entry::Name(name) => Ok(names.push(name)),
                Entry::Unnamed => Ok(names),
                Entry::Failed(message) => Err(message),
            },
        },
{
    let more = entries.push(entry);
    assert(more.take(entries.len() as int) =~= entries);
    if all_read(entries) {
        if entry is Failed {
            assert(more[entries.len() as int] is Failed);
            lemma_listing_failure(more, entries.len() as int);
        } else {
            assert(more.drop_last() =~= entries);
            assert(names_in(more) =~= match entry {
                Entry::Name(name) => names_in(entries).push(name),
                _ => names_in(entries),
            });
        }
    } else {
        let i = choose|i: int| first_failure(entries, i);
        assert(exists|j: int| 0 <= j < entries.len() && entries[j] is Failed);
        lemma_first_failure_exists(entries);
        assert(more.take(i) =~= entries.take(i));
        lemma_listing_failure(more, i);
    }
}

/// Where some entry failed, one of them was the first.
proof fn lemma_first_failure_exists(entries: Seq<Entry>)
    requires
        !all_read(entries),
    ensures
        exists|i: int| first_failure(entries, i),
    decreases entries.len(),
{
    let j = choose|j: int| 0 <= j < entries.len() && entries[j] is Failed;
    if all_read(entries.take(j)) {
        assert(first_failure(entries, j));
    } else {
        lemma_first_failure_exists(entries.take(j));
        let i = choose|i: int| first_failure(entries.take(j), i);
        assert(entries.take(j).take(i) =~= entries.take(i));
        assert(first_failure(entries, i));
    }
}

} // verus!
