//! Access-key label translation. Remote menu labels mark their mnemonic with
//! an underscore before a letter; the native convention marks it with an
//! ampersand. Literal ampersands must be doubled so they render literally, a
//! doubled underscore collapses to one literal underscore, and a lone
//! underscore not followed by a letter is dropped.

use crate::text::{chars_of, string_from_chars};
use vstd::prelude::*;

verus! {

/// Whether a character counts as a letter for mnemonic purposes (the Unicode
/// Alphabetic property).
pub uninterp spec fn unicode_alpha(c: char) -> bool;

/// Relies on char::is_alphabetic: whether a character has the Unicode
/// Alphabetic property depends on the character alone; among ASCII
/// characters, exactly the letters have it.
#[verifier::external_body]
pub(crate) fn is_alpha(c: char) -> (r: bool)
    ensures
        r == unicode_alpha(c),
        (97 <= c as u32 && c as u32 <= 122) || (65 <= c as u32 && c as u32 <= 90) ==> r,
        (c as u32) < 128 && !((97 <= c as u32 && c as u32 <= 122) || (65 <= c as u32 && c as u32
            <= 90)) ==> !r,
{
    c.is_alphabetic()
}

/// The translated form of a label: '&' doubles, "__" collapses to '_',
/// '_' before a letter becomes '&' before that letter, any other '_' is
/// dropped, and every other character is kept.
pub open spec fn mnemonic_label(s: Seq<char>) -> Seq<char>
    decreases s.len(),
{
    if s.len() == 0 {
        Seq::empty()
    } else if s[0] == '&' {
        seq!['&', '&'] + mnemonic_label(s.drop_first())
    } else if s[0] == '_' {
        if s.len() >= 2 && s[1] == '_' {
            seq!['_'] + mnemonic_label(s.subrange(2, s.len() as int))
        } else if s.len() >= 2 && unicode_alpha(s[1]) {
            seq!['&', s[1]] + mnemonic_label(s.subrange(2, s.len() as int))
        } else {
            mnemonic_label(s.drop_first())
        }
    } else {
        seq![s[0]] + mnemonic_label(s.drop_first())
    }
}

/// Translates a remote menu label into the native mnemonic convention.
pub fn translate_label(s: &str) -> (r: String)
    ensures
        r@ == mnemonic_label(s@),
{
    let cs = chars_of(s);
    let n = cs.len();
    let mut out: Vec<char> = Vec::new();
    let mut i: usize = 0;
    proof {
        assert(cs@.skip(0) =~= cs@);
        assert(out@ + mnemonic_label(cs@) =~= mnemonic_label(cs@));
    }
    while i < n
        invariant
            n == cs.len(),
            cs@ == s@,
            i <= n,
            out@ + mnemonic_label(cs@.skip(i as int)) == mnemonic_label(cs@),
        decreases n - i,
    {
        let ghost t = cs@.skip(i as int);
        let ghost out0 = out@;
        proof {
            assert(t.len() == n - i);
            assert(t[0] == cs@[i as int]);
            assert(t.drop_first() =~= cs@.skip(i as int + 1));
            if i + 2 <= n {
                assert(t[1] == cs@[i as int + 1]);
                assert(t.subrange(2, t.len() as int) =~= cs@.skip(i as int + 2));
            }
        }
        let c = cs[i];
        if c == '&' {
            out.push('&');
            out.push('&');
            proof {
                assert(out@ + mnemonic_label(cs@.skip(i as int + 1)) =~= out0 + mnemonic_label(
                    t,
                ));
            }
            i = i + 1;
        } else if c == '_' {
            if i + 1 < n && cs[i + 1] == '_' {
                out.push('_');
                proof {
                    assert(out@ + mnemonic_label(cs@.skip(i as int + 2)) =~= out0
                        + mnemonic_label(t));
                }
                i = i + 2;
            } else {
                let follows_letter = if i + 1 < n {
                    is_alpha(cs[i + 1])
                } else {
                    false
                };
                if follows_letter {
                    out.push('&');
                    out.push(cs[i + 1]);
                    proof {
                        assert(out@ + mnemonic_label(cs@.skip(i as int + 2)) =~= out0
                            + mnemonic_label(t));
                    }
                    i = i + 2;
                } else {
                    proof {
                        assert(out@ + mnemonic_label(cs@.skip(i as int + 1)) =~= out0
                            + mnemonic_label(t));
                    }
                    i = i + 1;
                }
            }
        } else {
            out.push(c);
            proof {
                assert(out@ + mnemonic_label(cs@.skip(i as int + 1)) =~= out0 + mnemonic_label(
                    t,
                ));
            }
            i = i + 1;
        }
    }
    proof {
        assert(cs@.skip(n as int) =~= Seq::<char>::empty());
        assert(out@ =~= mnemonic_label(cs@));
    }
    string_from_chars(&out)
}

} // verus!
