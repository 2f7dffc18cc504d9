//! The bus-facing registrar. Remote applications register their tray items
//! here; the registration call accepts either a full bus name (the item
//! lives at the default object path) or, when called anonymously, infers
//! the caller's unique bus identity and takes the argument as an optional
//! object-path override. The registrar also answers the protocol's fixed
//! properties, and registering an additional host is not supported.

use crate::text::chars_of;
use vstd::prelude::*;

verus! {

/// A character allowed in a bus-name element: ASCII letters, digits,
/// underscore and hyphen.
pub open spec fn name_char(c: char) -> bool {
    (65 <= c as u32 && c as u32 <= 90) || (97 <= c as u32 && c as u32 <= 122) || (48 <= c as u32
        && c as u32 <= 57) || c == '_' || c == '-'
}

pub open spec fn digit_char(c: char) -> bool {
    48 <= c as u32 && c as u32 <= 57
}

/// A character allowed in an object-path element: ASCII letters, digits and
/// underscore.
pub open spec fn path_char(c: char) -> bool {
    (65 <= c as u32 && c as u32 <= 90) || (97 <= c as u32 && c as u32 <= 122) || (48 <= c as u32
        && c as u32 <= 57) || c == '_'
}

/// The dot-separated body of a bus name: nonempty elements of name
/// characters, at least two of them; elements of a well-known name (no
/// leading colon) must not start with a digit.
pub open spec fn valid_name_body(b: Seq<char>, digits_start_ok: bool) -> bool {
    &&& b.len() >= 1
    &&& b[0] != '.'
    &&& b[b.len() - 1] != '.'
    &&& exists|i: int| 0 <= i < b.len() && b[i] == '.'
    &&& forall|i: int| 0 <= i < b.len() ==> b[i] == '.' || name_char(#[trigger] b[i])
    &&& forall|i: int| 1 <= i < b.len() && #[trigger] b[i] == '.' ==> b[i - 1] != '.'
    &&& !digits_start_ok ==> forall|i: int|
        0 <= i < b.len() && (i == 0 || b[i - 1] == '.') ==> !digit_char(#[trigger] b[i])
}

/// A valid bus name: a unique name (leading colon, digits may start
/// elements) or a well-known name, at most 255 characters.
pub open spec fn valid_bus_name(s: Seq<char>) -> bool {
    &&& s.len() <= 255
    &&& if s.len() >= 1 && s[0] == ':' {
        valid_name_body(s.skip(1), true)
    } else {
        valid_name_body(s, false)
    }
}

/// A valid object path: the root path, or slash-separated nonempty elements
/// of path characters with no trailing slash.
pub open spec fn valid_object_path(p: Seq<char>) -> bool {
    &&& p.len() >= 1
    &&& p[0] == '/'
    &&& p.len() == 1 || p[p.len() - 1] != '/'
    &&& forall|i: int| 1 <= i < p.len() ==> p[i] == '/' || path_char(#[trigger] p[i])
    &&& forall|i: int| 1 <= i < p.len() && #[trigger] p[i] == '/' ==> p[i - 1] != '/'
}

fn is_name_char(c: char) -> (r: bool)
    ensures
        r == name_char(c),
{
    let u = c as u32;
    (65 <= u && u <= 90) || (97 <= u && u <= 122) || (48 <= u && u <= 57) || c == '_' || c == '-'
}

fn is_digit_char(c: char) -> (r: bool)
    ensures
        r == digit_char(c),
{
    let u = c as u32;
    48 <= u && u <= 57
}

fn is_path_char(c: char) -> (r: bool)
    ensures
        r == path_char(c),
{
    let u = c as u32;
    (65 <= u && u <= 90) || (97 <= u && u <= 122) || (48 <= u && u <= 57) || c == '_'
}

#[verifier::loop_isolation(false)]
#[verifier::rlimit(100)]
fn check_name_body(p: &Vec<char>, start: usize, digits_start_ok: bool) -> (r: bool)
    requires
        start <= p@.len(),
    ensures
        r == valid_name_body(p@.skip(start as int), digits_start_ok),
{
    let ghost b = p@.skip(start as int);
    let n = p.len();
    if start == n {
        return false;
    }
    if p[start] == '.' || p[n - 1] == '.' {
        proof {
            assert(b[0] == p@[start as int]);
            assert(b[b.len() - 1] == p@[n - 1]);
        }
        return false;
    }
    let mut seen_dot = false;
    let mut i: usize = start;
    while i < n
        invariant
            start <= i <= n,
            seen_dot == exists|k: int| 0 <= k < i - start && b[k] == '.',
            forall|k: int| 0 <= k < i - start ==> b[k] == '.' || name_char(#[trigger] b[k]),
            forall|k: int| 1 <= k < i - start && #[trigger] b[k] == '.' ==> b[k - 1] != '.',
            !digits_start_ok ==> forall|k: int|
                0 <= k < i - start && (k == 0 || b[k - 1] == '.') ==> !digit_char(#[trigger] b[k]),
        decreases n - i,
    {
        proof {
            assert(b[i - start] == p@[i as int]);
            if i > start {
                assert(b[i - start - 1] == p@[i as int - 1]);
            }
        }
        let c = p[i];
        if c == '.' {
            if i > start && p[i - 1] == '.' {
                return false;
            }
            seen_dot = true;
        } else {
            if !is_name_char(c) {
                return false;
            }
            if !digits_start_ok && (i == start || p[i - 1] == '.') && is_digit_char(c) {
                return false;
            }
        }
        i = i + 1;
    }
    seen_dot
}

/// Whether a string is a valid bus name.
pub fn is_valid_bus_name(s: &str) -> (r: bool)
    ensures
        r == valid_bus_name(s@),
{
    let p = chars_of(s);
    if p.len() > 255 {
        return false;
    }
    if p.len() >= 1 && p[0] == ':' {
        check_name_body(&p, 1, true)
    } else {
        proof {
            assert(p@.skip(0) =~= p@);
        }
        check_name_body(&p, 0, false)
    }
}

/// Whether a string is a valid object path.
#[verifier::loop_isolation(false)]
pub fn is_valid_object_path(s: &str) -> (r: bool)
    ensures
        r == valid_object_path(s@),
{
    let p = chars_of(s);
    let n = p.len();
    if n == 0 || p[0] != '/' {
        return false;
    }
    if n > 1 && p[n - 1] == '/' {
        return false;
    }
    let mut i: usize = 1;
    while i < n
        invariant
            1 <= i <= n,
            forall|k: int| 1 <= k < i ==> p@[k] == '/' || path_char(#[trigger] p@[k]),
            forall|k: int| 1 <= k < i && #[trigger] p@[k] == '/' ==> p@[k - 1] != '/',
        decreases n - i,
    {
        let c = p[i];
        if c == '/' {
            if p[i - 1] == '/' {
                return false;
            }
        } else {
            if !is_path_char(c) {
                return false;
            }
        }
        i = i + 1;
    }
    true
}

#[derive(Clone, Copy, Debug, PartialEq, Eq, Structural)]
pub enum WatcherError {
    /// An anonymous registration arrived without a caller identity, so no
    /// bus name can be determined.
    NoBusName,
    /// Registering an additional status-notifier host is not supported.
    NotSupported,
}

/// The item's bus address as the registry will track it.
#[derive(Debug)]
pub struct ItemAddress {
    pub destination: String,
    pub path: String,
}

/// Decides what a registration call registers: a valid bus name means the
/// item lives on that name at the default object path; anything else is an
/// anonymous registration under the caller's unique name, with the argument
/// taken as the object path when it is a valid one. Without a caller
/// identity such a registration is refused.
pub fn parse_registration(service: &str, sender: Option<&str>) -> (r: Result<
    ItemAddress,
    WatcherError,
>)
    ensures
        match r {
            Ok(addr) => {
                &&& if valid_bus_name(service@) {
                    addr.destination@ == service@ && addr.path@ == "/StatusNotifierItem"@
                } else {
                    &&& sender matches Some(snd) && addr.destination@ == snd@
                    &&& addr.path@ == (if valid_object_path(service@) {
                        service@
                    } else {
                        "/StatusNotifierItem"@
                    })
                }
            },
            Err(e) => {
                &&& e == WatcherError::NoBusName
                &&& !valid_bus_name(service@)
                &&& sender is None
            },
        },
{
    if is_valid_bus_name(service) {
        Ok(ItemAddress {
            destination: service.to_owned(),
            path: "/StatusNotifierItem".to_owned(),
        })
    } else {
        match sender {
            Some(snd) => {
                let path = if is_valid_object_path(service) {
                    service.to_owned()
                } else {
                    "/StatusNotifierItem".to_owned()
                };
                Ok(ItemAddress { destination: snd.to_owned(), path })
            },
            None => Err(WatcherError::NoBusName),
        }
    }
}

/// The protocol version the registrar reports.
pub fn protocol_version() -> (r: i32)
    ensures
        r == 0,
{
    0
}

/// Whether a status-notifier host is registered: this bridge is itself the
/// host, so always.
pub fn is_status_notifier_host_registered() -> (r: bool)
    ensures
        r,
{
    true
}

/// Registering an additional notifier host is not supported.
pub fn register_status_notifier_host(_service: &str) -> (r: Result<(), WatcherError>)
    ensures
        r == Err::<(), WatcherError>(WatcherError::NotSupported),
{
    Err(WatcherError::NotSupported)
}

} // verus!
