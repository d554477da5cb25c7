//! Assembling the argument list for the release-creation invocation. The
//! ordering is fixed: program and subcommand tokens, the tag, the title
//! flag and value, the target flag and value, the notes flags, then the
//! attachments as trailing positional arguments.

use vstd::prelude::*;
use crate::util::{get_current_timestamp, is_file};

verus! {

/// The assembled argument list.
///
/// Defaulting, each rule independent: an empty title becomes
/// `<tag>, release, <timestamp>`; an empty target becomes `main`; empty
/// notes ask for auto-generated notes, notes naming an existing file are
/// passed as a notes file, and any other notes value is passed as literal
/// note text.
pub open spec fn release_args_spec(
    gh: Seq<char>,
    tag: Seq<char>,
    title: Seq<char>,
    target: Seq<char>,
    notes: Seq<char>,
    notes_is_file: bool,
    timestamp: Seq<char>,
    files: Seq<Seq<char>>,
) -> Seq<Seq<char>> {
    let title_arg = if title.len() == 0 {
        tag + ", release, "@ + timestamp
    } else {
        title
    };
    let target_arg = if target.len() == 0 {
        "main"@
    } else {
        target
    };
    let notes_part: Seq<Seq<char>> = if notes.len() == 0 {
        seq!["--generate-notes"@]
    } else if notes_is_file {
        seq!["--notes-file"@, notes]
    } else {
        seq!["--notes"@, notes]
    };
    seq![gh, "release"@, "create"@, tag, "--title"@, title_arg, "--target"@, target_arg]
        + notes_part + files
}

/// Builds the argument list from already-resolved inputs: the tag, the
/// timestamp used when the title must be synthesized, and whether the notes
/// value names an existing file.
pub fn build_release_args(
    gh_exe: &str,
    next_tag: &str,
    title: &str,
    target: &str,
    notes: &str,
    notes_is_file: bool,
    timestamp: &str,
    files: &Vec<String>,
) -> (args: Vec<String>)
    ensures
        args.deep_view() == release_args_spec(
            gh_exe@,
            next_tag@,
            title@,
            target@,
            notes@,
            notes_is_file,
            timestamp@,
            files.deep_view(),
        ),
{
    let mut args: Vec<String> = Vec::new();
    args.push(String::from_str(gh_exe));
    args.push(String::from_str("release"));
    args.push(String::from_str("create"));
    args.push(String::from_str(next_tag));
    args.push(String::from_str("--title"));
    if title.is_empty() {
        let mut t = String::from_str(next_tag);
        t.append(", release, ");
        t.append(timestamp);
        args.push(t);
    } else {
        args.push(String::from_str(title));
    }
    args.push(String::from_str("--target"));
    if target.is_empty() {
        args.push(String::from_str("main"));
    } else {
        args.push(String::from_str(target));
    }
    if notes.is_empty() {
        args.push(String::from_str("--generate-notes"));
    } else if notes_is_file {
        args.push(String::from_str("--notes-file"));
        args.push(String::from_str(notes));
    } else {
        args.push(String::from_str("--notes"));
        args.push(String::from_str(notes));
    }
    let ghost base = args.deep_view();
    proof {
        assert(base =~= release_args_spec(
            gh_exe@,
            next_tag@,
            title@,
            target@,
            notes@,
            notes_is_file,
            timestamp@,
            Seq::<Seq<char>>::empty(),
        ));
    }
    let nf = files.len();
    let mut k: usize = 0;
    while k < nf
        invariant
            k <= nf,
            nf == files@.len(),
            files.deep_view().len() == nf,
            base == release_args_spec(
                gh_exe@,
                next_tag@,
                title@,
                target@,
                notes@,
                notes_is_file,
                timestamp@,
                Seq::<Seq<char>>::empty(),
            ),
            args.deep_view() == base + files.deep_view().subrange(0, k as int),
        decreases nf - k,
    {
        proof {
            assert(files.deep_view()[k as int] == files@[k as int]@);
        }
        let ghost prevdv = args.deep_view();
        args.push(files[k].clone());
        proof {
            assert(args.deep_view() =~= prevdv.push(files@[k as int]@));
            assert(args.deep_view() =~= base + files.deep_view().subrange(0, k + 1));
        }
        k += 1;
    }
    proof {
        assert(files.deep_view().subrange(0, nf as int) =~= files.deep_view());
        assert(args.deep_view() =~= release_args_spec(
            gh_exe@,
            next_tag@,
            title@,
            target@,
            notes@,
            notes_is_file,
            timestamp@,
            files.deep_view(),
        ));
    }
    args
}

/// Assembles the command that creates the release from the resolved tag and
/// the caller's overrides. The timestamp in a synthesized title comes from
/// the clock and whether the notes value names a file comes from the disk,
/// so the arguments are pinned up to those two outcomes.
pub fn gh_release_create(
    gh_exe: &str,
    new_tag: &str,
    title: &str,
    target: &str,
    notes: &str,
    files: &Vec<String>,
) -> (args: Vec<String>)
    ensures
        exists|ts: Seq<char>, nf: bool|
            args.deep_view() == release_args_spec(
                gh_exe@,
                new_tag@,
                title@,
                target@,
                notes@,
                nf,
                ts,
                files.deep_view(),
            ),
{
    let timestamp = if title.is_empty() {
        get_current_timestamp()
    } else {
        String::new()
    };
    let notes_is_file = if notes.is_empty() {
        false
    } else {
        is_file(notes)
    };
    let args = build_release_args(
        gh_exe,
        new_tag,
        title,
        target,
        notes,
        notes_is_file,
        timestamp.as_str(),
        files,
    );
    proof {
        assert(args.deep_view() == release_args_spec(
            gh_exe@,
            new_tag@,
            title@,
            target@,
            notes@,
            notes_is_file,
            timestamp@,
            files.deep_view(),
        ));
    }
    args
}

/// Law: with empty notes the assembled arguments ask for auto-generated
/// notes — the flag stands alone and the attachments follow it directly, so
/// no notes value is passed. With non-empty notes naming an existing file,
/// the file flag is followed by exactly that path.
pub proof fn lemma_notes_defaulting(
    gh: Seq<char>,
    tag: Seq<char>,
    title: Seq<char>,
    target: Seq<char>,
    notes: Seq<char>,
    notes_is_file: bool,
    timestamp: Seq<char>,
    files: Seq<Seq<char>>,
    r: Seq<Seq<char>>,
)
    requires
        r == release_args_spec(gh, tag, title, target, notes, notes_is_file, timestamp, files),
    ensures
        notes.len() == 0 ==> r.len() == 9 + files.len() && r[8] == "--generate-notes"@
            && r.subrange(9, r.len() as int) == files,
        notes.len() > 0 && notes_is_file ==> r.len() == 10 + files.len() && r[8] == "--notes-file"@
            && r[9] == notes && r.subrange(10, r.len() as int) == files,
{
    if notes.len() == 0 {
        assert(r.subrange(9, r.len() as int) =~= files);
    }
    if notes.len() > 0 && notes_is_file {
        assert(r.subrange(10, r.len() as int) =~= files);
    }
}

} // verus!
