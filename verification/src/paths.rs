//! Path arithmetic on plain strings.
//!
//! A path is a `String` whose components are separated by `/`. A name is one
//! component, as a directory listing yields it.

use vstd::prelude::*;

verus! {

/// The path `name` seen from `base`: an absolute `name` stands alone,
/// otherwise it is appended, after a separator where `base` needs one.
pub open spec fn spec_join(base: Seq<char>, name: Seq<char>) -> Seq<char> {
    if name.len() > 0 && name[0] == '/' {
        name
    } else if base.len() == 0 || base.last() == '/' {
        base + name
    } else {
        base + seq!['/'] + name
    }
}

/// Whether `name` has an extension: a `.` that is not its first character.
/// The parent link `..` has none.
pub open spec fn has_extension(name: Seq<char>) -> bool {
    name != seq!['.', '.'] && exists|i: int| 1 <= i < name.len() && name[i] == '.'
}

/// Whether `i` is the position of the last `.` of `name`.
pub open spec fn is_last_dot(name: Seq<char>, i: int) -> bool {
    &&& 0 <= i < name.len()
    &&& name[i] == '.'
    &&& forall|j: int| i < j < name.len() ==> name[j] != '.'
}

/// The extension of `name`: what follows its last `.`, where it has one.
pub open spec fn spec_extension(name: Seq<char>) -> Option<Seq<char>> {
    if has_extension(name) {
        let i = choose|i: int| is_last_dot(name, i);
        Some(name.subrange(i + 1, name.len() as int))
    } else {
        None
    }
}

/// Whether `name` names a PDF file: its extension is `pdf`, in lower case.
pub open spec fn spec_is_pdf(name: Seq<char>) -> bool {
    spec_extension(name) == Some(seq!['p', 'd', 'f'])
}

/// Whether `name` is something, then `.pdf`.
pub open spec fn ends_in_dot_pdf(name: Seq<char>) -> bool {
    name.len() > 4 && name.subrange(name.len() - 4, name.len() as int) == seq!['.', 'p', 'd', 'f']
}

/// Joins `name` to `base`.
pub fn join(base: &str, name: &str) -> (path: String)
    ensures
        path@ == spec_join(base@, name@),
{
    let n: usize = name.unicode_len();
    let b: usize = base.unicode_len();
    if n > 0 && name.get_char(0) == '/' {
        String::from_str(name)
    } else if b == 0 || base.get_char(b - 1) == '/' {
        String::from_str(base).concat(name)
    } else {
        proof {
            reveal_strlit("/");
        }
        String::from_str(base).concat("/").concat(name)
    }
}

/// The extension of `name`, if it has one.
pub fn extension(name: &str) -> (ext: Option<String>)
    ensures
        match ext {
            Some(e) => spec_extension(name@) == Some(e@),
            None => spec_extension(name@) is None,
        },
{
    let n: usize = name.unicode_len();
    if n == 2 && name.get_char(0) == '.' && name.get_char(1) == '.' {
        assert(name@ =~= seq!['.', '.']);
        return None;
    }
    assert(name@ != seq!['.', '.']) by {
        if name@ == seq!['.', '.'] {
            assert(name@.len() == 2 && name@[0] == '.' && name@[1] == '.');
        }
    }
    let mut i: usize = n;
    while i > 1
        invariant
            i <= n,
            name@ != seq!['.', '.'],
            n == name@.len(),
            forall|j: int| i <= j < n ==> name@[j] != '.',
        decreases i,
    {
        i = i - 1;
        if name.get_char(i) == '.' {
            let ext = String::from_str(name.substring_char(i + 1, n));
            proof {
                assert(is_last_dot(name@, i as int));
                lemma_last_dot_unique(name@, i as int, choose|k: int| is_last_dot(name@, k));
            }
            return Some(ext);
        }
    }
    None
}

/// A name has at most one last `.`.
pub proof fn lemma_last_dot_unique(name: Seq<char>, i: int, j: int)
    requires
        is_last_dot(name, i),
        is_last_dot(name, j),
    ensures
        i == j,
{
}

/// Whether `name` names a PDF file.
pub fn is_pdf(name: &str) -> (pdf: bool)
    ensures
        pdf == spec_is_pdf(name@),
{
    proof {
        reveal_strlit("pdf");
        assert("pdf"@ =~= seq!['p', 'd', 'f']);
    }
    match extension(name) {
        Some(ext) => ext == String::from_str("pdf"),
        None => false,
    }
}

/// The PDF files are the names that end in `.pdf` and have something before
/// it: `a.pdf` is one; `c.PDF`, `.pdf` and `a.pdf.bak` are none.
pub proof fn lemma_pdf_files_end_in_dot_pdf(name: Seq<char>)
    ensures
        spec_is_pdf(name) <==> ends_in_dot_pdf(name),
{
    let n = name.len() as int;
    if ends_in_dot_pdf(name) {
        let tail = name.subrange(n - 4, n);
        assert(name[n - 4] == tail[0] && name[n - 3] == tail[1]);
        assert(name[n - 2] == tail[2] && name[n - 1] == tail[3]);
        assert(is_last_dot(name, n - 4));
        let i = choose|i: int| is_last_dot(name, i);
        lemma_last_dot_unique(name, i, n - 4);
        assert(name.subrange(n - 3, n) =~= seq!['p', 'd', 'f']);
    }
    if spec_extension(name) == Some(seq!['p', 'd', 'f']) {
        let k = choose|k: int| 1 <= k < name.len() && name[k] == '.';
        lemma_last_dot_exists(name, k);
        let i = choose|i: int| is_last_dot(name, i);
        let e = name.subrange(i + 1, n);
        assert(e.len() == 3 && e[0] == 'p' && e[1] == 'd' && e[2] == 'f');
        assert(i == n - 4 && i != 0);
        assert(name.subrange(n - 4, n) =~= seq!['.', 'p', 'd', 'f']);
    }
}

/// A name with a `.` at `k` has a last `.`, at `k` or after it.
pub proof fn lemma_last_dot_exists(name: Seq<char>, k: int)
    requires
        0 <= k < name.len(),
        name[k] == '.',
    ensures
        exists|i: int| k <= i && is_last_dot(name, i),
    decreases name.len() - k,
{
    if exists|j: int| k < j < name.len() && name[j] == '.' {
        let j = choose|j: int| k < j < name.len() && name[j] == '.';
        lemma_last_dot_exists(name, j);
        let i = choose|i: int| j <= i && is_last_dot(name, i);
        assert(k <= i && is_last_dot(name, i));
    } else {
        assert(is_last_dot(name, k));
    }
}

} // verus!
