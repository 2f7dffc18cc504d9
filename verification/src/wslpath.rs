//! Translation between WSL-style paths (`/mnt/c/...`, `/home/...`) and
//! Windows paths (`C:\...`, `\\wsl.localhost\<distro>\...`). A `/mnt/<l>`
//! prefix maps to the drive letter `<l>` when that logical drive is present;
//! every other path is reached through the distro's network share.

use crate::text::{chars_of, string_from_chars};
use vstd::prelude::*;
use vstd::string::StringExecFns;

verus! {

/// ASCII letter.
pub open spec fn ascii_alpha(c: char) -> bool {
    (65 <= c as u32 && c as u32 <= 90) || (97 <= c as u32 && c as u32 <= 122)
}

/// ASCII upper-casing of a character.
pub open spec fn upper_ascii(c: char) -> char {
    if 97 <= c as u32 && c as u32 <= 122 {
        ((c as u32) - 32) as char
    } else {
        c
    }
}

/// ASCII lower-casing of a character.
pub open spec fn lower_ascii(c: char) -> char {
    if 65 <= c as u32 && c as u32 <= 90 {
        ((c as u32) + 32) as char
    } else {
        c
    }
}

fn to_upper_ascii(c: char) -> (r: char)
    ensures
        r == upper_ascii(c),
{
    let u = c as u32;
    if 97 <= u && u <= 122 {
        ((u - 32) as u8) as char
    } else {
        c
    }
}

fn to_lower_ascii(c: char) -> (r: char)
    ensures
        r == lower_ascii(c),
{
    let u = c as u32;
    if 65 <= u && u <= 90 {
        ((u + 32) as u8) as char
    } else {
        c
    }
}

/// Whether the logical drive for an ASCII letter is marked present in a
/// drive bitmask (bit 0 is drive A).
pub open spec fn drive_present(mask: u32, letter: u8) -> bool {
    &&& (65 <= letter <= 90) || (97 <= letter <= 122)
    &&& mask & (1u32 << (((if 97 <= letter <= 122 {
        (letter - 32) as u8
    } else {
        letter
    }) - 65) as u32)) != 0
}

/// The set of currently mounted logical drives, one bit per drive letter.
pub struct LogicalDrives(pub u32);

impl LogicalDrives {
    /// Whether the drive named by an ASCII letter (either case) is present.
    pub fn is_present(&self, letter: u8) -> (r: bool)
        ensures
            r == drive_present(self.0, letter),
    {
        if !((65 <= letter && letter <= 90) || (97 <= letter && letter <= 122)) {
            return false;
        }
        let upper: u8 = if 97 <= letter && letter <= 122 {
            letter - 32
        } else {
            letter
        };
        let index: u32 = (upper - 65) as u32;
        self.0 & (1u32 << index) != 0
    }
}

/// Appends the `/`-separated parts of `rest` to `acc`, joining with `\`;
/// empty parts disappear, and no separator is added at the very front or
/// after an accumulated value that already ends with `\`.
pub open spec fn win_tail(acc: Seq<char>, rest: Seq<char>, boundary: bool) -> Seq<char>
    decreases rest.len(),
{
    if rest.len() == 0 {
        acc
    } else if rest[0] == '/' {
        win_tail(acc, rest.drop_first(), true)
    } else {
        let acc2 = if boundary && acc.len() > 0 && acc[acc.len() - 1] != '\\' {
            acc.push('\\').push(rest[0])
        } else {
            acc.push(rest[0])
        };
        win_tail(acc2, rest.drop_first(), false)
    }
}

/// Whether the path starts with `/mnt/<letter>` followed by `/` or the end.
pub open spec fn mnt_match(p: Seq<char>) -> bool {
    &&& p.len() >= 6
    &&& p[0] == '/' && p[1] == 'm' && p[2] == 'n' && p[3] == 't' && p[4] == '/'
    &&& ascii_alpha(p[5])
    &&& (p.len() == 6 || p[6] == '/')
}

/// How many characters the `/mnt/<letter>` match consumes (it swallows the
/// following separator when there is one).
pub open spec fn mnt_len(p: Seq<char>) -> int {
    if p.len() > 6 {
        7
    } else {
        6
    }
}

/// The network-share base `\\wsl.localhost\<distro>`.
pub open spec fn unc_base(distro: Seq<char>) -> Seq<char> {
    if distro.len() > 0 {
        "\\\\wsl.localhost"@ + seq!['\\'] + distro
    } else {
        "\\\\wsl.localhost"@
    }
}

/// The Windows path for a WSL path: a present `/mnt/<letter>` drive becomes
/// `<L>:\`, everything else goes through the distro's network share; an
/// empty path stays empty, and a `/mnt/<letter>` prefix whose drive is
/// absent is joined as a plain relative path.
pub open spec fn to_windows_spec(distro: Seq<char>, mask: u32, p: Seq<char>) -> Seq<char> {
    if p.len() == 0 {
        Seq::empty()
    } else if mnt_match(p) && drive_present(mask, p[5] as u8) {
        win_tail(seq![upper_ascii(p[5]), ':', '\\'], p.skip(mnt_len(p)), true)
    } else if mnt_match(p) {
        win_tail(Seq::empty(), p, true)
    } else {
        win_tail(unc_base(distro), p, true)
    }
}

/// Translates a WSL path into a Windows path, using the given drive mask to
/// decide whether a `/mnt/<letter>` prefix maps to a local drive.
pub fn to_windows(distro: &str, drives: &LogicalDrives, wsl_path: &str) -> (r: String)
    ensures
        r@ == to_windows_spec(distro@, drives.0, wsl_path@),
{
    let p = chars_of(wsl_path);
    if p.len() == 0 {
        let out: Vec<char> = Vec::new();
        return string_from_chars(&out);
    }
    let is_mnt: bool = p.len() >= 6 && p[0] == '/' && p[1] == 'm' && p[2] == 'n' && p[3] == 't'
        && p[4] == '/' && {
        let u = p[5] as u32;
        (65 <= u && u <= 90) || (97 <= u && u <= 122)
    } && (p.len() == 6 || p[6] == '/');
    let mut acc: Vec<char> = Vec::new();
    let mut i: usize = 0;
    if is_mnt && drives.is_present(p[5] as u8) {
        acc.push(to_upper_ascii(p[5]));
        acc.push(':');
        acc.push('\\');
        i = if p.len() > 6 {
            7
        } else {
            6
        };
        assert(acc@ =~= seq![upper_ascii(p@[5]), ':', '\\']);
    } else if is_mnt {
        // drive not present: the whole path is joined as a relative path
    } else {
        let dom = chars_of("\\\\wsl.localhost");
        let mut k: usize = 0;
        while k < dom.len()
            invariant
                0 <= k <= dom.len(),
                dom@ == "\\\\wsl.localhost"@,
                acc@ == dom@.take(k as int),
            decreases dom.len() - k,
        {
            acc.push(dom[k]);
            k = k + 1;
        }
        assert(acc@ =~= dom@);
        let d = chars_of(distro);
        if d.len() > 0 {
            acc.push('\\');
            let mut k2: usize = 0;
            while k2 < d.len()
                invariant
                    0 <= k2 <= d.len(),
                    d@ == distro@,
                    acc@ == "\\\\wsl.localhost"@ + seq!['\\'] + d@.take(k2 as int),
                decreases d.len() - k2,
            {
                acc.push(d[k2]);
                k2 = k2 + 1;
            }
            assert(acc@ =~= unc_base(distro@));
        }
        assert(acc@ == unc_base(distro@));
    }
    let ghost total = to_windows_spec(distro@, drives.0, wsl_path@);
    let mut boundary = true;
    proof {
        assert(p@.skip(0) =~= p@);
        assert(win_tail(acc@, p@.skip(i as int), boundary) == total);
    }
    while i < p.len()
        invariant
            p@ == wsl_path@,
            i <= p.len(),
            win_tail(acc@, p@.skip(i as int), boundary) == total,
        decreases p.len() - i,
    {
        let ghost t = p@.skip(i as int);
        proof {
            assert(t[0] == p@[i as int]);
            assert(t.drop_first() =~= p@.skip(i as int + 1));
        }
        let c = p[i];
        if c == '/' {
            boundary = true;
        } else {
            if boundary && acc.len() > 0 && acc[acc.len() - 1] != '\\' {
                acc.push('\\');
                acc.push(c);
                proof {
                    assert(win_tail(acc@, p@.skip(i as int + 1), false) == total);
                }
            } else {
                acc.push(c);
            }
            boundary = false;
        }
        i = i + 1;
    }
    proof {
        assert(p@.skip(p@.len() as int) =~= Seq::<char>::empty());
    }
    string_from_chars(&acc)
}

/// Errors from Windows-to-WSL path translation, mirroring which class of
/// path was rejected: a path without an absolute drive or share prefix, an
/// unsupported prefix kind, a network share other than the distro's own, or
/// a parent-directory component.
#[derive(Clone, Copy, Debug, PartialEq, Eq, Structural)]
pub enum PathError {
    Relative,
    UnsupportedPrefix,
    UnsupportedShare,
    UnsupportedComponent,
}

/// Length of the leading run of characters before the first backslash.
pub open spec fn head_len(s: Seq<char>) -> int
    decreases s.len(),
{
    if s.len() == 0 || s[0] == '\\' {
        0
    } else {
        1 + head_len(s.drop_first())
    }
}

proof fn lemma_head_len_is(q: Seq<char>, n: int)
    requires
        0 <= n <= q.len(),
        forall|k: int| 0 <= k < n ==> q[k] != '\\',
        n == q.len() || q[n] == '\\',
    ensures
        head_len(q) == n,
    decreases n,
{
    if n > 0 {
        assert(q[0] != '\\');
        assert forall|k: int| 0 <= k < n - 1 implies q.drop_first()[k] != '\\' by {
            assert(q.drop_first()[k] == q[k + 1]);
        }
        lemma_head_len_is(q.drop_first(), n - 1);
    }
}

/// Appends the backslash-separated components of `rest` to `acc`, joining
/// with `/`; empty and `.` components disappear, and a `..` component is
/// rejected.
pub open spec fn wsl_tail(acc: Seq<char>, rest: Seq<char>, boundary: bool) -> Result<
    Seq<char>,
    PathError,
>
    decreases rest.len(),
{
    if rest.len() == 0 {
        Ok(acc)
    } else if rest[0] == '\\' {
        wsl_tail(acc, rest.drop_first(), true)
    } else if boundary && rest[0] == '.' && (rest.len() == 1 || rest[1] == '\\') {
        wsl_tail(acc, rest.drop_first(), true)
    } else if boundary && rest.len() >= 2 && rest[0] == '.' && rest[1] == '.' && (rest.len() == 2
        || rest[2] == '\\') {
        Err(PathError::UnsupportedComponent)
    } else {
        let acc2 = if boundary && acc.len() > 0 && acc[acc.len() - 1] != '/' {
            acc.push('/').push(rest[0])
        } else {
            acc.push(rest[0])
        };
        wsl_tail(acc2, rest.drop_first(), false)
    }
}

/// WSL form of a drive-letter path: `/mnt/<l>` plus the remaining
/// components. Without a root separator the path is relative (except in the
/// verbatim form, where the bare drive is accepted).
pub open spec fn disk_to_wsl(l: char, rest: Seq<char>, verbatim: bool) -> Result<
    Seq<char>,
    PathError,
> {
    let base = seq!['/', 'm', 'n', 't', '/', lower_ascii(l)];
    if rest.len() == 0 {
        if verbatim {
            Ok(base)
        } else {
            Err(PathError::Relative)
        }
    } else if rest[0] == '\\' {
        wsl_tail(base.push('/'), rest.drop_first(), true)
    } else {
        Err(PathError::Relative)
    }
}

/// WSL form of a UNC path, given everything after the leading separators:
/// only the distro's own `wsl.localhost` share maps back, to the path rooted
/// at `/`.
pub open spec fn unc_to_wsl(distro: Seq<char>, q: Seq<char>) -> Result<Seq<char>, PathError> {
    let server = q.take(head_len(q));
    let after = q.skip(head_len(q));
    if server == seq!['.'] {
        Err(PathError::UnsupportedPrefix)
    } else {
        let share = if after.len() == 0 {
            Seq::<char>::empty()
        } else {
            after.drop_first().take(head_len(after.drop_first()))
        };
        let rest = if after.len() == 0 {
            Seq::<char>::empty()
        } else {
            after.drop_first().skip(head_len(after.drop_first()))
        };
        if server == "wsl.localhost"@ && share == distro {
            if rest.len() == 0 {
                Ok(seq!['/'])
            } else {
                wsl_tail(seq!['/'], rest.drop_first(), true)
            }
        } else {
            Err(PathError::UnsupportedShare)
        }
    }
}

/// The WSL path for a Windows path. Drive-letter paths (plain or verbatim)
/// map under `/mnt`; UNC paths (plain or verbatim) map back only from the
/// distro's own share; everything else is rejected.
pub open spec fn to_wsl_spec(distro: Seq<char>, p: Seq<char>) -> Result<Seq<char>, PathError> {
    if p.len() >= 8 && p[0] == '\\' && p[1] == '\\' && p[2] == '?' && p[3] == '\\' && p[4] == 'U'
        && p[5] == 'N' && p[6] == 'C' && p[7] == '\\' {
        unc_to_wsl(distro, p.skip(8))
    } else if p.len() >= 6 && p[0] == '\\' && p[1] == '\\' && p[2] == '?' && p[3] == '\\'
        && ascii_alpha(p[4]) && p[5] == ':' {
        disk_to_wsl(p[4], p.skip(6), true)
    } else if p.len() >= 4 && p[0] == '\\' && p[1] == '\\' && p[2] == '?' && p[3] == '\\' {
        Err(PathError::UnsupportedPrefix)
    } else if p.len() >= 2 && p[0] == '\\' && p[1] == '\\' {
        unc_to_wsl(distro, p.skip(2))
    } else if p.len() >= 2 && ascii_alpha(p[0]) && p[1] == ':' {
        disk_to_wsl(p[0], p.skip(2), false)
    } else {
        Err(PathError::Relative)
    }
}

fn is_ascii_alpha_char(c: char) -> (r: bool)
    ensures
        r == ascii_alpha(c),
{
    let u = c as u32;
    (65 <= u && u <= 90) || (97 <= u && u <= 122)
}

/// Whether `p[start..end]` spells exactly the characters of `pat`.
fn segment_eq(p: &Vec<char>, start: usize, end: usize, pat: &Vec<char>) -> (b: bool)
    requires
        start <= end <= p@.len(),
    ensures
        b == (p@.subrange(start as int, end as int) == pat@),
{
    if end - start != pat.len() {
        proof {
            assert(p@.subrange(start as int, end as int).len() != pat@.len());
        }
        return false;
    }
    let mut k: usize = 0;
    while k < pat.len()
        invariant
            start <= end <= p@.len(),
            end - start == pat@.len(),
            k <= pat@.len(),
            forall|m: int| 0 <= m < k ==> p@[start + m] == pat@[m],
        decreases pat.len() - k,
    {
        if p[start + k] != pat[k] {
            proof {
                assert(p@.subrange(start as int, end as int)[k as int] != pat@[k as int]);
            }
            return false;
        }
        k = k + 1;
    }
    proof {
        assert(p@.subrange(start as int, end as int) =~= pat@);
    }
    true
}

/// Appends the components of `p` from `start` on, as `wsl_tail` describes.
#[verifier::loop_isolation(false)]
fn wsl_tail_exec(p: &Vec<char>, start: usize, acc: Vec<char>) -> (r: Result<Vec<char>, PathError>)
    requires
        start <= p@.len(),
    ensures
        ({
            let s = wsl_tail(acc@, p@.skip(start as int), true);
            match r {
                Ok(v) => s is Ok && v@ == s->Ok_0,
                Err(e) => s is Err && e == s->Err_0,
            }
        }),
{
    let ghost acc0 = acc@;
    let ghost total = wsl_tail(acc@, p@.skip(start as int), true);
    let mut out = acc;
    let mut i = start;
    let mut boundary = true;
    let n = p.len();
    while i < n
        invariant
            n == p@.len(),
            start <= i <= n,
            total == wsl_tail(acc0, p@.skip(start as int), true),
            wsl_tail(out@, p@.skip(i as int), boundary) == total,
        decreases n - i,
    {
        let ghost t = p@.skip(i as int);
        proof {
            assert(t[0] == p@[i as int]);
            assert(t.drop_first() =~= p@.skip(i as int + 1));
            if i + 1 < n {
                assert(t[1] == p@[i as int + 1]);
            }
            if i + 2 < n {
                assert(t[2] == p@[i as int + 2]);
            }
        }
        let c = p[i];
        if c == '\\' {
            boundary = true;
        } else if boundary && c == '.' && (i + 1 == n || p[i + 1] == '\\') {
            boundary = true;
        } else if boundary && i + 1 < n && c == '.' && p[i + 1] == '.' && (i + 2 == n || p[i + 2]
            == '\\') {
            return Err(PathError::UnsupportedComponent);
        } else {
            if boundary && out.len() > 0 && out[out.len() - 1] != '/' {
                out.push('/');
            }
            out.push(c);
            boundary = false;
        }
        i = i + 1;
    }
    proof {
        assert(p@.skip(n as int) =~= Seq::<char>::empty());
    }
    Ok(out)
}

/// Handles a drive-letter path: everything after the `<letter>:` prefix
/// begins at `start`.
fn disk_branch(p: &Vec<char>, l: char, start: usize, verbatim: bool) -> (r: Result<
    Vec<char>,
    PathError,
>)
    requires
        start <= p@.len(),
    ensures
        ({
            let s = disk_to_wsl(l, p@.skip(start as int), verbatim);
            match r {
                Ok(v) => s is Ok && v@ == s->Ok_0,
                Err(e) => s is Err && e == s->Err_0,
            }
        }),
{
    let n = p.len();
    let mut acc: Vec<char> = Vec::new();
    acc.push('/');
    acc.push('m');
    acc.push('n');
    acc.push('t');
    acc.push('/');
    acc.push(to_lower_ascii(l));
    proof {
        assert(acc@ =~= seq!['/', 'm', 'n', 't', '/', lower_ascii(l)]);
    }
    if start == n {
        if verbatim {
            return Ok(acc);
        } else {
            return Err(PathError::Relative);
        }
    }
    proof {
        assert(p@.skip(start as int)[0] == p@[start as int]);
    }
    if p[start] != '\\' {
        return Err(PathError::Relative);
    }
    acc.push('/');
    proof {
        assert(p@.skip(start as int).drop_first() =~= p@.skip(start as int + 1));
        assert(acc@ =~= seq!['/', 'm', 'n', 't', '/', lower_ascii(l)].push('/'));
    }
    wsl_tail_exec(p, start + 1, acc)
}

/// Handles a UNC path: the server name begins at `s0`.
fn unc_branch(p: &Vec<char>, s0: usize, distro: &str) -> (r: Result<Vec<char>, PathError>)
    requires
        s0 <= p@.len(),
    ensures
        ({
            let s = unc_to_wsl(distro@, p@.skip(s0 as int));
            match r {
                Ok(v) => s is Ok && v@ == s->Ok_0,
                Err(e) => s is Err && e == s->Err_0,
            }
        }),
{
    let n = p.len();
    let ghost q = p@.skip(s0 as int);
    let mut j: usize = s0;
    while j < n && p[j] != '\\'
        invariant
            s0 <= j <= n,
            n == p@.len(),
            forall|k: int| s0 <= k < j ==> p@[k] != '\\',
        decreases n - j,
    {
        j = j + 1;
    }
    proof {
        assert forall|k: int| 0 <= k < j - s0 implies q[k] != '\\' by {
            assert(q[k] == p@[s0 + k]);
        }
        if j < n {
            assert(q[j - s0] == p@[j as int]);
        }
        lemma_head_len_is(q, j - s0);
        assert(q.take(head_len(q)) =~= p@.subrange(s0 as int, j as int));
    }
    if j - s0 == 1 && p[s0] == '.' {
        proof {
            assert(p@.subrange(s0 as int, s0 as int + 1) =~= seq!['.']);
        }
        return Err(PathError::UnsupportedPrefix);
    }
    proof {
        if q.take(head_len(q)) == seq!['.'] {
            assert(p@[s0 as int] == q.take(head_len(q))[0]);
        }
    }
    let host = chars_of("wsl.localhost");
    let server_ok = segment_eq(p, s0, j, &host);
    let d = chars_of(distro);
    if j == n {
        proof {
            assert(q.skip(head_len(q)) =~= Seq::<char>::empty());
        }
        if server_ok && d.len() == 0 {
            proof {
                assert(distro@ =~= Seq::<char>::empty());
            }
            let mut root: Vec<char> = Vec::new();
            root.push('/');
            proof {
                assert(root@ =~= seq!['/']);
            }
            return Ok(root);
        } else {
            return Err(PathError::UnsupportedShare);
        }
    }
    let s1 = j + 1;
    let ghost q2 = q.skip(head_len(q)).drop_first();
    proof {
        assert(q.skip(head_len(q))[0] == p@[j as int]);
        assert(q.skip(head_len(q)).len() == n - j);
        assert(q2 =~= p@.skip(s1 as int));
    }
    let mut j2: usize = s1;
    while j2 < n && p[j2] != '\\'
        invariant
            s1 <= j2 <= n,
            n == p@.len(),
            forall|k: int| s1 <= k < j2 ==> p@[k] != '\\',
        decreases n - j2,
    {
        j2 = j2 + 1;
    }
    proof {
        assert forall|k: int| 0 <= k < j2 - s1 implies q2[k] != '\\' by {
            assert(q2[k] == p@[s1 + k]);
        }
        if j2 < n {
            assert(q2[j2 - s1] == p@[j2 as int]);
        }
        lemma_head_len_is(q2, j2 - s1);
        assert(q2.take(head_len(q2)) =~= p@.subrange(s1 as int, j2 as int));
        assert(q2.skip(head_len(q2)) =~= p@.skip(j2 as int));
    }
    let share_ok = segment_eq(p, s1, j2, &d);
    if !(server_ok && share_ok) {
        return Err(PathError::UnsupportedShare);
    }
    if j2 == n {
        proof {
            assert(p@.skip(j2 as int) =~= Seq::<char>::empty());
        }
        let mut root: Vec<char> = Vec::new();
        root.push('/');
        proof {
            assert(root@ =~= seq!['/']);
        }
        return Ok(root);
    }
    proof {
        assert(p@.skip(j2 as int)[0] == p@[j2 as int]);
        assert(p@.skip(j2 as int).drop_first() =~= p@.skip(j2 as int + 1));
    }
    let mut root: Vec<char> = Vec::new();
    root.push('/');
    proof {
        assert(root@ =~= seq!['/']);
    }
    wsl_tail_exec(p, j2 + 1, root)
}

/// Translates an absolute Windows path into a WSL path. Drive letters map
/// under `/mnt`; the distro's own `wsl.localhost` share maps to `/`; other
/// shares, other prefixes, relative paths and `..` components are rejected.
pub fn to_wsl(distro: &str, win_path: &str) -> (r: Result<String, PathError>)
    ensures
        ({
            let s = to_wsl_spec(distro@, win_path@);
            match r {
                Ok(out) => s is Ok && out@ == s->Ok_0,
                Err(e) => s is Err && e == s->Err_0,
            }
        }),
{
    let p = chars_of(win_path);
    let n = p.len();
    let verbatim_unc: bool = n >= 8 && p[0] == '\\' && p[1] == '\\' && p[2] == '?' && p[3] == '\\'
        && p[4] == 'U' && p[5] == 'N' && p[6] == 'C' && p[7] == '\\';
    let verbatim_disk: bool = !verbatim_unc && n >= 6 && p[0] == '\\' && p[1] == '\\' && p[2] == '?'
        && p[3] == '\\' && is_ascii_alpha_char(p[4]) && p[5] == ':';
    if verbatim_unc {
        match unc_branch(&p, 8, distro) {
            Ok(v) => Ok(string_from_chars(&v)),
            Err(e) => Err(e),
        }
    } else if verbatim_disk {
        match disk_branch(&p, p[4], 6, true) {
            Ok(v) => Ok(string_from_chars(&v)),
            Err(e) => Err(e),
        }
    } else if n >= 4 && p[0] == '\\' && p[1] == '\\' && p[2] == '?' && p[3] == '\\' {
        Err(PathError::UnsupportedPrefix)
    } else if n >= 2 && p[0] == '\\' && p[1] == '\\' {
        match unc_branch(&p, 2, distro) {
            Ok(v) => Ok(string_from_chars(&v)),
            Err(e) => Err(e),
        }
    } else if n >= 2 && is_ascii_alpha_char(p[0]) && p[1] == ':' {
        match disk_branch(&p, p[0], 2, false) {
            Ok(v) => Ok(string_from_chars(&v)),
            Err(e) => Err(e),
        }
    } else {
        Err(PathError::Relative)
    }
}

/// Whether a Windows path lies inside the distro's network share: it starts
/// with `\\wsl.localhost\<distro>` as whole components.
pub open spec fn share_prefixed(distro: Seq<char>, p: Seq<char>) -> bool {
    let share = unc_base(distro);
    &&& p.len() >= share.len()
    &&& p.take(share.len() as int) == share
    &&& p.len() == share.len() || p[share.len() as int] == '\\'
}

/// Where a file reached through the distro's share is cached before a
/// native consumer opens it: under a bridge-owned directory in the
/// temporary root, mirroring the file's path inside the share. A file
/// already outside the share needs no copy.
pub fn temp_copy_dest(distro: &str, temp_root: &str, win_src: &str) -> (r: Option<String>)
    ensures
        match r {
            None => !share_prefixed(distro@, win_src@),
            Some(dest) => share_prefixed(distro@, win_src@) && dest@ == temp_root@ + "\\Wormhole"@
                + win_src@.skip(unc_base(distro@).len() as int),
        },
{
    let p = chars_of(win_src);
    let mut share = chars_of("\\\\wsl.localhost");
    let d = chars_of(distro);
    if d.len() > 0 {
        share.push('\\');
        let mut k: usize = 0;
        while k < d.len()
            invariant
                0 <= k <= d.len(),
                d@ == distro@,
                share@ == "\\\\wsl.localhost"@ + seq!['\\'] + d@.take(k as int),
            decreases d.len() - k,
        {
            share.push(d[k]);
            k = k + 1;
        }
        proof {
            assert(share@ =~= unc_base(distro@));
        }
    }
    proof {
        assert(share@ == unc_base(distro@));
    }
    let sl = share.len();
    if p.len() < sl {
        return None;
    }
    if !segment_eq(&p, 0, sl, &share) {
        proof {
            assert(p@.take(sl as int) =~= p@.subrange(0, sl as int));
        }
        return None;
    }
    if p.len() > sl && p[sl] != '\\' {
        proof {
            assert(p@.take(sl as int) =~= p@.subrange(0, sl as int));
        }
        return None;
    }
    proof {
        assert(p@.take(sl as int) =~= p@.subrange(0, sl as int));
    }
    let mut rest: Vec<char> = Vec::new();
    let mut k: usize = sl;
    while k < p.len()
        invariant
            sl <= k <= p@.len(),
            rest@ == p@.subrange(sl as int, k as int),
        decreases p@.len() - k,
    {
        rest.push(p[k]);
        k = k + 1;
    }
    proof {
        assert(p@.subrange(sl as int, p@.len() as int) =~= p@.skip(sl as int));
    }
    let rest_str = string_from_chars(&rest);
    let mut dest = temp_root.to_owned();
    dest.append("\\Wormhole");
    dest.append(rest_str.as_str());
    Some(dest)
}

} // verus!
