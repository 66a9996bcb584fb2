//! Parent-process detection + signalling.
//!
//! AUR helpers (yay, paru, pikaur, …) invoke `makepkg` several times during
//! a single `-S` run (clone → verifysource → build → fakeroot). When the
//! user declines the prompt and the shim exits non-zero, the helper treats
//! that as "build failed, retry" and calls makepkg again.
//!
//! The clean fix is to tell the AUR helper "the user said no, stop the
//! entire install loop" — which is exactly what SIGINT means in this
//! context (it's what Ctrl-C would deliver). This is only done when the
//! immediate parent process matches a known AUR helper, so that pacman, sudo,
//! a shell script, or anything else is never interrupted by mistake.

use vstd::prelude::*;

use crate::paths::opt_str;
use crate::report::opt_text;
use crate::text::ascii_lowered;
use crate::text::chars_of;
use crate::text::same_ignoring_ascii_case;
use crate::text::string_of;
use crate::text::trim;
use crate::text::trimmed;
use crate::text::Class;

verus! {

/// `comm` values of the AUR helpers that are recognised.
pub open spec fn aur_helpers() -> Seq<Seq<char>> {
    seq!["yay"@, "paru"@, "pikaur"@, "trizen"@, "aurutils"@, "aurman"@, "rua"@]
}

/// The name of the parent process, given its number and what its `comm` file
/// holds, if that could be read.
pub open spec fn parent_name(ppid: int, comm: Option<Seq<char>>) -> Option<Seq<char>> {
    match comm {
        Some(raw) => if ppid > 1 && trim(raw, Class::Blank).len() > 0 {
            Some(trim(raw, Class::Blank))
        } else {
            None
        },
        None => None,
    }
}

/// The immediate parent's executable name. `None` if the parent is init or
/// `comm`, the content of `/proc/<ppid>/comm`, could not be read or is blank.
pub fn parent_comm(ppid: i32, comm: Option<&str>) -> (name: Option<String>)
    ensures
        opt_text(name) == parent_name(ppid as int, opt_str(comm)),
{
    if ppid <= 1 {
        return None;
    }
    match comm {
        Some(raw) => {
            let c: Vec<char> = chars_of(raw);
            let t: &[char] = trimmed(c.as_slice(), Class::Blank);
            if t.len() == 0 {
                None
            } else {
                Some(string_of(t))
            }
        },
        None => None,
    }
}

/// Whether the name is that of an AUR helper, ASCII case aside.
pub open spec fn is_helper_name(name: Seq<char>) -> bool {
    exists|i: int|
        0 <= i < aur_helpers().len() && ascii_lowered(name) == ascii_lowered(
            #[trigger] aur_helpers()[i],
        )
}

/// `true` iff the immediate parent process, by its name, is one of the AUR
/// helpers that can safely be signalled.
pub fn parent_is_aur_helper(comm: Option<&str>) -> (b: bool)
    ensures
        b == (opt_str(comm) matches Some(name) && is_helper_name(name)),
{
    let name: &str = match comm {
        Some(name) => name,
        None => {
            return false;
        },
    };
    let c: Vec<char> = chars_of(name);
    let helpers: [&str; 7] = ["yay", "paru", "pikaur", "trizen", "aurutils", "aurman", "rua"];
    assert forall|i: int| 0 <= i < 7 implies #[trigger] aur_helpers()[i] == helpers@[i]@ by {}
    let mut i: usize = 0;
    while i < 7
        invariant
            i <= 7,
            c@ == name@,
            opt_str(comm) == Some(name@),
            forall|j: int| 0 <= j < 7 ==> #[trigger] aur_helpers()[j] == helpers@[j]@,
            forall|j: int|
                0 <= j < i ==> ascii_lowered(name@) != ascii_lowered(#[trigger] aur_helpers()[j]),
        decreases 7 - i,
    {
        let h: Vec<char> = chars_of(helpers[i]);
        assert(h@ == aur_helpers()[i as int]);
        if same_ignoring_ascii_case(c.as_slice(), h.as_slice()) {
            return true;
        }
        i = i + 1;
    }
    assert(!is_helper_name(name@));
    false
}

/// The process that an interrupt is sent to: the parent, unless that is init.
///
/// Only for a parent that [`parent_is_aur_helper`] accepts: an interrupt to
/// pacman, sudo, or a wrapping shell would cause more harm than good.
pub fn interrupt_parent(ppid: i32) -> (target: Option<i32>)
    ensures
        target == (if ppid > 1 {
            Some(ppid)
        } else {
            None
        }),
{
    if ppid > 1 {
        Some(ppid)
    } else {
        None
    }
}

/// The process that is interrupted when the user declines: the parent, and
/// only where it is an AUR helper.
pub fn decline_target(ppid: i32, comm: Option<&str>) -> (target: Option<i32>)
    ensures
        target is Some <==> (parent_name(ppid as int, opt_str(comm)) matches Some(name)
            && is_helper_name(name)),
        target matches Some(p) ==> p == ppid && p > 1,
{
    match parent_comm(ppid, comm) {
        Some(name) => if parent_is_aur_helper(Some(name.as_str())) {
            interrupt_parent(ppid)
        } else {
            None
        },
        None => None,
    }
}

}
