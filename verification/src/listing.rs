//! Reading the release listing: the text a "list releases" query prints,
//! one release per line with tab-separated fields. The line marked
//! "Latest" carries the current tag in its third field.

use vstd::prelude::*;
use crate::text::{
    contains_seq, split_on, split_str, str_contains, trim_spec, trim_str,
};

verus! {

/// The tag a single listing line contributes: the third tab-separated field
/// of the trimmed line, provided the line holds the marker "Latest" and at
/// least three fields.
pub open spec fn line_latest_tag(line: Seq<char>) -> Option<Seq<char>> {
    let t = trim_spec(line);
    let f = split_on(t, '\t');
    if contains_seq(t, "Latest"@) && f.len() >= 3 {
        Some(f[2])
    } else {
        None
    }
}

/// The tag of the first qualifying line, or empty when no line qualifies.
pub open spec fn latest_tag_in_lines(lines: Seq<Seq<char>>) -> Seq<char>
    decreases lines.len(),
{
    if lines.len() == 0 {
        Seq::empty()
    } else {
        match line_latest_tag(lines[0]) {
            Some(t) => t,
            None => latest_tag_in_lines(lines.drop_first()),
        }
    }
}

/// The latest release tag named in the listing output, or empty when the
/// output names none.
pub open spec fn latest_tag_spec(stdout: Seq<char>) -> Seq<char> {
    latest_tag_in_lines(split_on(stdout, '\n'))
}

/// Extracts the tag of the release marked "Latest" from a release listing:
/// the third tab-separated field of the first line that, after trimming,
/// holds the marker and at least three fields. Yields the empty string when
/// no line qualifies, which stands for "no existing release".
pub fn get_gh_current_tag(stdout: &str) -> (r: String)
    ensures
        r@ == latest_tag_spec(stdout@),
{
    let lines = split_str(stdout, '\n');
    let nl = lines.len();
    let ghost lseq = lines.deep_view();
    let mut k: usize = 0;
    proof {
        assert(lseq.subrange(0, nl as int) =~= lseq);
    }
    while k < nl
        invariant
            k <= nl,
            nl == lseq.len(),
            lines.deep_view() == lseq,
            nl == lines@.len(),
            latest_tag_in_lines(lseq.subrange(k as int, nl as int)) == latest_tag_spec(stdout@),
        decreases nl - k,
    {
        let line: &str = lines[k].as_str();
        proof {
            assert(lseq[k as int] == lines@[k as int]@);
        }
        let trimmed = trim_str(line);
        let has_marker = str_contains(trimmed, "Latest");
        let fields = split_str(trimmed, '\t');
        if has_marker && fields.len() >= 3 {
            let r = fields[2].clone();
            proof {
                assert(fields.deep_view()[2] == fields@[2]@);
                assert(line_latest_tag(lseq[k as int]) == Some(fields@[2]@));
                let sub = lseq.subrange(k as int, nl as int);
                assert(sub[0] == lseq[k as int]);
            }
            return r;
        }
        proof {
            assert(fields.deep_view().len() == fields@.len());
            assert(line_latest_tag(lseq[k as int]) is None);
            let sub = lseq.subrange(k as int, nl as int);
            assert(sub[0] == lseq[k as int]);
            assert(sub.drop_first() =~= lseq.subrange(k + 1, nl as int));
        }
        k += 1;
    }
    proof {
        assert(lseq.subrange(nl as int, nl as int) =~= Seq::<Seq<char>>::empty());
    }
    String::new()
}

} // verus!
