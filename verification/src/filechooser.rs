//! Plain data of the file-chooser portal (the option and result bags its
//! methods exchange) and the pure filter computations behind the native
//! dialog: turning glob patterns and MIME types into the semicolon-joined
//! extension filter string the native dialog expects.

use crate::labels::{is_alpha, unicode_alpha};
use crate::text::chars_of;
use vstd::prelude::*;
use vstd::string::StringExecFns;

verus! {

/// How a single filter entry restricts the choice.
#[derive(Clone, Copy, Debug, PartialEq, Eq, Structural)]
pub enum FilterType {
    GlobPattern,
    MimeType,
}

/// A file filter: a label and the patterns or MIME types it admits.
pub struct FileFilter {
    pub label: String,
    pub filters: Vec<(FilterType, String)>,
}

/// A choice presented to the user, as a selection list or a checkbox.
pub struct Choice {
    pub id: String,
    pub label: String,
    pub selections: Vec<(String, String)>,
    pub initial_selection: String,
}

pub struct OpenFileOptions {
    pub accept_label: Option<String>,
    pub modal: Option<bool>,
    pub multiple: Option<bool>,
    pub directory: Option<bool>,
    pub filters: Option<Vec<FileFilter>>,
    pub current_filter: Option<FileFilter>,
    pub choices: Option<Vec<Choice>>,
}

pub struct OpenFileResults {
    pub uris: Vec<String>,
    pub choices: Vec<(String, String)>,
    pub current_filter: Option<FileFilter>,
    pub writable: Option<bool>,
}

pub struct SaveFileOptions {
    pub accept_label: Option<String>,
    pub modal: Option<bool>,
    pub multiple: Option<bool>,
    pub filters: Option<Vec<FileFilter>>,
    pub current_filter: Option<FileFilter>,
    pub choices: Option<Vec<Choice>>,
    pub current_name: Option<String>,
    pub current_folder: Option<Vec<u8>>,
    pub current_file: Option<Vec<u8>>,
}

pub struct SaveFileResults {
    pub uris: Vec<String>,
    pub choices: Vec<(String, String)>,
    pub current_filter: Option<FileFilter>,
}

pub struct SaveFilesOptions {
    pub handle_token: Option<String>,
    pub accept_label: Option<String>,
    pub modal: Option<bool>,
    pub choices: Vec<Choice>,
    pub current_folder: Vec<u8>,
    pub current_file: Vec<Vec<u8>>,
}

pub struct SaveFilesResults {
    pub uris: Vec<String>,
    pub choices: Vec<(String, String)>,
}

/// The lowercase form of a character (possibly several characters long).
pub uninterp spec fn lower_chars_of(c: char) -> Seq<char>;

/// Relies on char::to_lowercase: the lowercase mapping of a character
/// depends on the character alone.
#[verifier::external_body]
fn lower_string(c: char) -> (r: String)
    ensures
        r@ == lower_chars_of(c),
{
    c.to_lowercase().to_string()
}

/// The native form of a glob pattern: a two-letter character class whose
/// letters agree once lowercased (the case-insensitivity idiom `[xX]`)
/// collapses to the single lowercase letter; everything else is kept.
pub open spec fn glob_filter(s: Seq<char>) -> Seq<char>
    decreases s.len(),
{
    if s.len() == 0 {
        Seq::empty()
    } else if s.len() >= 4 && s[0] == '[' && unicode_alpha(s[1]) && unicode_alpha(s[2]) && s[3]
        == ']' && lower_chars_of(s[1]) == lower_chars_of(s[2]) {
        lower_chars_of(s[1]) + glob_filter(s.subrange(4, s.len() as int))
    } else {
        seq![s[0]] + glob_filter(s.drop_first())
    }
}

/// Rewrites a glob pattern for the native dialog, collapsing the
/// case-insensitivity idiom `[xX]` to its lowercase letter.
pub fn glob_patter_to_filter(glob_pattern: &str) -> (r: String)
    ensures
        r@ == glob_filter(glob_pattern@),
{
    let cs = chars_of(glob_pattern);
    let n = cs.len();
    let mut out: Vec<char> = Vec::new();
    let mut i: usize = 0;
    proof {
        assert(cs@.skip(0) =~= cs@);
        assert(out@ + glob_filter(cs@) =~= glob_filter(cs@));
    }
    while i < n
        invariant
            n == cs.len(),
            cs@ == glob_pattern@,
            i <= n,
            out@ + glob_filter(cs@.skip(i as int)) == glob_filter(cs@),
        decreases n - i,
    {
        let ghost t = cs@.skip(i as int);
        let ghost out0 = out@;
        proof {
            assert(t.len() == n - i);
            assert(t[0] == cs@[i as int]);
            assert(t.drop_first() =~= cs@.skip(i as int + 1));
            if i + 4 <= n {
                assert(t[1] == cs@[i as int + 1]);
                assert(t[2] == cs@[i as int + 2]);
                assert(t[3] == cs@[i as int + 3]);
                assert(t.subrange(4, t.len() as int) =~= cs@.skip(i as int + 4));
            }
        }
        let c = cs[i];
        let mut collapsed = false;
        if c == '[' && n - i > 3 && cs[i + 3] == ']' && is_alpha(cs[i + 1]) && is_alpha(
            cs[i + 2],
        ) {
            let l1 = lower_string(cs[i + 1]);
            let l2 = lower_string(cs[i + 2]);
            if l1 == l2 {
                let lv = chars_of(l1.as_str());
                let mut k: usize = 0;
                while k < lv.len()
                    invariant
                        lv@ == lower_chars_of(cs@[i as int + 1]),
                        k <= lv.len(),
                        out@ == out0 + lv@.take(k as int),
                    decreases lv.len() - k,
                {
                    out.push(lv[k]);
                    k = k + 1;
                }
                proof {
                    assert(out@ =~= out0 + lower_chars_of(cs@[i as int + 1]));
                    assert(out@ + glob_filter(cs@.skip(i as int + 4)) =~= out0 + (lower_chars_of(
                        cs@[i as int + 1],
                    ) + glob_filter(cs@.skip(i as int + 4))));
                }
                i = i + 4;
                collapsed = true;
            }
        }
        if !collapsed {
            out.push(c);
            proof {
                assert(out@ + glob_filter(cs@.skip(i as int + 1)) =~= out0 + (seq![t[0]]
                    + glob_filter(t.drop_first())));
            }
            i = i + 1;
        }
    }
    proof {
        assert(cs@.skip(n as int) =~= Seq::<char>::empty());
        assert(out@ =~= glob_filter(cs@));
    }
    crate::text::string_from_chars(&out)
}

/// The file extensions known for a MIME type, as the MIME-guessing table
/// lists them, or nothing for an unknown type.
pub uninterp spec fn mime_extensions_of(mime: Seq<char>) -> Option<Seq<Seq<char>>>;

/// Relies on new_mime_guess::get_mime_extensions_str: the extensions known
/// for a MIME type come from the crate's built-in table, a function of the
/// MIME string alone.
#[verifier::external_body]
fn mime_extensions(mime: &str) -> (r: Option<Vec<String>>)
    ensures
        match r {
            Some(v) => mime_extensions_of(mime@) matches Some(s) && v@.len() == s.len() && (forall|
                i: int,
            | 0 <= i < s.len() ==> (#[trigger] v@[i])@ == s[i]),
            None => mime_extensions_of(mime@) is None,
        },
{
    new_mime_guess::get_mime_extensions_str(mime).map(
        |exts| exts.iter().map(|e| (*e).to_string()).collect(),
    )
}

/// The `*.<extension>` filter parts for a MIME type, one per extension the
/// table knows, or nothing for an unknown type.
#[verifier::loop_isolation(false)]
pub fn mime_filter_parts(mime: &str) -> (r: Option<Vec<String>>)
    ensures
        match r {
            Some(v) => mime_extensions_of(mime@) matches Some(s) && v@.len() == s.len() && (forall|
                i: int,
            | 0 <= i < s.len() ==> (#[trigger] v@[i])@ == "*."@ + s[i]),
            None => mime_extensions_of(mime@) is None,
        },
{
    let exts = match mime_extensions(mime) {
        Some(v) => v,
        None => {
            return None;
        },
    };
    let mut out: Vec<String> = Vec::new();
    let n = exts.len();
    let mut k: usize = 0;
    while k < n
        invariant
            k <= n,
            out@.len() == k,
            forall|i: int| 0 <= i < k ==> (#[trigger] out@[i])@ == "*."@ + exts@[i]@,
        decreases n - k,
    {
        let mut part = "*.".to_owned();
        part.append(exts[k].as_str());
        out.push(part);
        k = k + 1;
    }
    Some(out)
}

/// The semicolon-joined form of filter parts: a part is appended after a
/// separator whenever the string so far is nonempty.
pub open spec fn joined_filter_spec(parts: Seq<Seq<char>>) -> Seq<char>
    decreases parts.len(),
{
    if parts.len() == 0 {
        Seq::empty()
    } else {
        let rest = joined_filter_spec(parts.drop_last());
        if rest.len() > 0 {
            rest + seq![';'] + parts.last()
        } else {
            rest + parts.last()
        }
    }
}

/// Joins filter parts with semicolons for the native dialog.
#[verifier::loop_isolation(false)]
pub fn join_filter_parts(parts: &Vec<String>) -> (r: String)
    ensures
        r@ == joined_filter_spec(parts@.map_values(|s: String| s@)),
{
    let ghost views = parts@.map_values(|s: String| s@);
    let mut out = String::new();
    let n = parts.len();
    let mut k: usize = 0;
    proof {
        assert(views.take(0) =~= Seq::<Seq<char>>::empty());
    }
    while k < n
        invariant
            k <= n,
            out@ == joined_filter_spec(views.take(k as int)),
        decreases n - k,
    {
        if !out.as_str().is_empty() {
            out.append(";");
        }
        out.append(parts[k].as_str());
        proof {
            assert(views.take(k as int + 1).drop_last() =~= views.take(k as int));
            assert(views.take(k as int + 1).last() == views[k as int]);
            reveal_strlit(";");
            assert(";"@ =~= seq![';']);
        }
        k = k + 1;
    }
    proof {
        assert(views.take(n as int) =~= views);
    }
    out
}

} // verus!
