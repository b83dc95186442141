//! Pieces of project creation that are decided on plain values: filling the
//! project name into template files, and choosing the package name.
use vstd::prelude::*;
use vstd::utf8::valid_utf8;
use vstd::string::StringSliceAdditionalSpecFns;

verus! {

/// Why a template file or a project name could not be produced.
#[derive(Debug, Clone, Copy, PartialEq, Eq)]
pub enum ProjectError {
    /// A template file is not valid UTF-8.
    InvalidUtf8,
    /// No name was given and the path has no final component to take it from.
    CannotInferName,
}

/// The bytes of `{{ PROJECT_NAME }}`, the placeholder in template files.
pub open spec fn project_name_placeholder() -> Seq<u8> {
    seq![123u8, 123, 32, 80, 82, 79, 74, 69, 67, 84, 95, 78, 65, 77, 69, 32, 125, 125]
}

/// `s` with each occurrence of the non-empty `pat` replaced by `rep`, the
/// occurrences taken from the left without overlap.
pub open spec fn replace_bytes(s: Seq<u8>, pat: Seq<u8>, rep: Seq<u8>) -> Seq<u8>
    decreases s.len(),
{
    if pat.len() == 0 || s.len() < pat.len() {
        s
    } else if s.subrange(0, pat.len() as int) == pat {
        rep + replace_bytes(s.subrange(pat.len() as int, s.len() as int), pat, rep)
    } else {
        seq![s[0]] + replace_bytes(s.subrange(1, s.len() as int), pat, rep)
    }
}

/// Relies on std::str::from_utf8: it accepts exactly the byte strings that
/// are valid UTF-8.
#[verifier::external_body]
fn is_utf8(b: &[u8]) -> (r: bool)
    ensures
        r == valid_utf8(b@),
{
    std::str::from_utf8(b).is_ok()
}

/// The final component of a path, if it has one (see `file_name_of`).
pub uninterp spec fn file_name_of(path: Seq<char>) -> Option<Seq<char>>;

/// Relies on camino::Utf8Path::file_name: the final component of the path,
/// or none when the path ends in `..` or is a root or empty.
#[verifier::external_body]
fn path_file_name(path: &str) -> (r: Option<String>)
    ensures
        match r {
            Some(n) => file_name_of(path@) == Some(n@),
            None => file_name_of(path@) is None,
        },
{
    camino::Utf8Path::new(path).file_name().map(|n| n.to_string())
}

fn placeholder() -> (r: Vec<u8>)
    ensures
        r@ == project_name_placeholder(),
{
    let r: Vec<u8> = vec![123u8, 123, 32, 80, 82, 79, 74, 69, 67, 84, 95, 78, 65, 77, 69, 32, 125, 125];
    assert(r@ =~= project_name_placeholder());
    r
}

/// Whether `pat` occurs in `s` at index `i`.
fn occurs_at(s: &[u8], pat: &Vec<u8>, i: usize) -> (r: bool)
    requires
        i + pat@.len() <= s@.len(),
    ensures
        r == (s@.subrange(i as int, i + pat@.len()) == pat@),
{
    let sl = s.len();
    let mut k: usize = 0;
    while k < pat.len()
        invariant
            sl == s@.len(),
            k <= pat@.len(),
            i + pat@.len() <= s@.len(),
            forall|j: int| 0 <= j < k ==> s@[i + j] == pat@[j],
        decreases pat.len() - k,
    {
        if s[i + k] != pat[k] {
            assert(s@.subrange(i as int, i + pat@.len())[k as int] != pat@[k as int]);
            return false;
        }
        k = k + 1;
    }
    assert(s@.subrange(i as int, i + pat@.len()) =~= pat@);
    true
}

/// Fills the project name into a template file: each `{{ PROJECT_NAME }}`
/// becomes `project_name`. A file that is not UTF-8 is refused.
pub fn replace_project_name(contents: &[u8], project_name: &str) -> (r: Result<Vec<u8>, ProjectError>)
    ensures
        match r {
            Ok(out) => valid_utf8(contents@) && out@ == replace_bytes(
                contents@,
                project_name_placeholder(),
                project_name.spec_bytes(),
            ),
            Err(e) => !valid_utf8(contents@) && e == ProjectError::InvalidUtf8,
        },
{
    if !is_utf8(contents) {
        return Err(ProjectError::InvalidUtf8);
    }
    let pat = placeholder();
    let rep = project_name.as_bytes();
    let ghost s = contents@;
    let ghost p = pat@;
    let n = contents.len();
    let mut out: Vec<u8> = Vec::new();
    let mut i: usize = 0;
    assert(s.subrange(0, n as int) =~= s);
    assert(out@ + replace_bytes(s, p, rep@) =~= replace_bytes(s, p, rep@));
    while i < n
        invariant
            i <= n == s.len(),
            s == contents@,
            p == pat@,
            p == project_name_placeholder(),
            replace_bytes(s, p, rep@) == out@ + replace_bytes(s.subrange(i as int, n as int), p, rep@),
        decreases n - i,
    {
        let ghost t = s.subrange(i as int, n as int);
        if n - i >= pat.len() && occurs_at(contents, &pat, i) {
            assert(t.subrange(0, p.len() as int) =~= s.subrange(i as int, i + p.len()));
            assert(t.subrange(p.len() as int, t.len() as int) =~= s.subrange(i + p.len(), n as int));
            let mut k: usize = 0;
            let ghost before = out@;
            while k < rep.len()
                invariant
                    k <= rep@.len(),
                    out@ == before + rep@.subrange(0, k as int),
                decreases rep.len() - k,
            {
                out.push(rep[k]);
                k = k + 1;
                assert(out@ =~= before + rep@.subrange(0, k as int));
            }
            assert(rep@.subrange(0, k as int) =~= rep@);
            assert(out@ + replace_bytes(s.subrange(i + p.len(), n as int), p, rep@) =~= before + (rep@
                + replace_bytes(t.subrange(p.len() as int, t.len() as int), p, rep@)));
            i = i + pat.len();
        } else {
            if n - i >= pat.len() {
                assert(t.subrange(0, p.len() as int) =~= s.subrange(i as int, i + p.len()));
            }
            assert(t.subrange(1, t.len() as int) =~= s.subrange(i + 1, n as int));
            let ghost before = out@;
            out.push(contents[i]);
            assert(out@ + replace_bytes(s.subrange(i + 1, n as int), p, rep@) =~= before + (seq![t[0]]
                + replace_bytes(t.subrange(1, t.len() as int), p, rep@)));
            i = i + 1;
        }
    }
    assert(replace_bytes(s.subrange(n as int, n as int), p, rep@) =~= Seq::<u8>::empty());
    assert(out@ + Seq::<u8>::empty() =~= out@);
    Ok(out)
}

/// The package name: the one given, or else the final component of the
/// project's path.
pub fn infer_name(name: Option<String>, path: &str) -> (r: Result<String, ProjectError>)
    ensures
        match name {
            Some(n) => r == Ok::<String, ProjectError>(n),
            None => match file_name_of(path@) {
                Some(f) => r is Ok && r->Ok_0@ == f,
                None => r == Err::<String, ProjectError>(ProjectError::CannotInferName),
            },
        },
{
    match name {
        Some(n) => Ok(n),
        None => match path_file_name(path) {
            Some(f) => Ok(f),
            None => Err(ProjectError::CannotInferName),
        },
    }
}

} // verus!
