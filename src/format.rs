//! What the formatter reports once it has rewritten files.

use vstd::prelude::*;
use crate::message::strings_view;
use crate::text::{decimal, decimal_string};

verus! {

/// Options of the formatter: print the result instead of rewriting files,
/// and descend into subdirectories.
#[derive(Debug, Default)]
pub struct FormatOptions {
    pub is_stdout: bool,
    pub recursively: bool,
}

/// The heading line of the formatter's summary for `n` changed files.
pub open spec fn format_done_line(n: nat) -> Seq<char> {
    "KCL format done and "@ + decimal(n) + " "@ + (if n <= 1 {
        "file was"@
    } else {
        "files were"@
    }) + " formatted:"@
}

/// The lines the formatter prints after its work: none when it printed the
/// formatted sources, else the heading and each changed file.
pub fn format_summary(changed_paths: &Vec<String>, opts: &FormatOptions) -> (r: Vec<String>)
    ensures
        opts.is_stdout ==> r@.len() == 0,
        !opts.is_stdout ==> strings_view(r@) == seq![format_done_line(changed_paths@.len())]
            + strings_view(changed_paths@),
{
    let mut r: Vec<String> = Vec::new();
    if opts.is_stdout {
        return r;
    }
    let n = changed_paths.len();
    let mut head = String::from_str("KCL format done and ");
    head.append(decimal_string(n as u64).as_str());
    head.append(" ");
    if n <= 1 {
        head.append("file was");
    } else {
        head.append("files were");
    }
    head.append(" formatted:");
    r.push(head);
    let ghost first = strings_view(r@);
    assert(first =~= seq![format_done_line(n as nat)]);
    let mut i: usize = 0;
    while i < changed_paths.len()
        invariant
            i <= changed_paths@.len(),
            strings_view(r@) == first + strings_view(changed_paths@.subrange(0, i as int)),
        decreases changed_paths@.len() - i,
    {
        let ghost prev = r@;
        let p = changed_paths[i].clone();
        r.push(p);
        assert(strings_view(r@) =~= strings_view(prev).push(p@));
        assert(strings_view(changed_paths@.subrange(0, i + 1)) =~= strings_view(
            changed_paths@.subrange(0, i as int),
        ).push(changed_paths@[i as int]@));
        i = i + 1;
        assert(strings_view(r@) =~= first + strings_view(changed_paths@.subrange(0, i as int)));
    }
    assert(changed_paths@.subrange(0, i as int) =~= changed_paths@);
    r
}

} // verus!
