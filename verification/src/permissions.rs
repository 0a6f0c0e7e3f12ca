//! The ten-character permission string of an entry.

use vstd::prelude::*;
use vstd::string::*;

verus! {

/// What kind of filesystem object an entry is.
#[derive(Clone, Copy, Debug, PartialEq, Eq, Structural)]
pub enum FileKind {
    Regular,
    Directory,
    Symlink,
    BlockDevice,
    CharDevice,
    Fifo,
    Socket,
    Other,
}

pub const OWNER_READ: u32 = 0o400;

pub const OWNER_WRITE: u32 = 0o200;

pub const OWNER_EXECUTE: u32 = 0o100;

pub const GROUP_READ: u32 = 0o040;

pub const GROUP_WRITE: u32 = 0o020;

pub const GROUP_EXECUTE: u32 = 0o010;

pub const OTHER_READ: u32 = 0o004;

pub const OTHER_WRITE: u32 = 0o002;

pub const OTHER_EXECUTE: u32 = 0o001;

pub const SET_USER_ID: u32 = 0o4000;

pub const SET_GROUP_ID: u32 = 0o2000;

pub const STICKY: u32 = 0o1000;

/// Whether any of the bits of `mask` is set in `mode`.
pub open spec fn has_bit(mode: u32, mask: u32) -> bool {
    mode & mask != 0
}

/// The glyph in the first position, which tells the kind of the entry.
pub open spec fn kind_glyph(kind: FileKind) -> char {
    match kind {
        FileKind::BlockDevice => 'b',
        FileKind::CharDevice => 'c',
        FileKind::Directory => 'd',
        FileKind::Symlink => 'l',
        FileKind::Fifo => 'p',
        FileKind::Socket => 's',
        FileKind::Regular => '-',
        FileKind::Other => '-',
    }
}

/// The glyph of a read or write position: `letter` if the bit `mask` is
/// set, a dash otherwise.
pub open spec fn plain_glyph(mode: u32, mask: u32, letter: char) -> char {
    if has_bit(mode, mask) {
        letter
    } else {
        '-'
    }
}

/// The glyph of an execute position. Where the special bit (set-user-id,
/// set-group-id or sticky) is set it shows `special`, in lower case if the
/// execute bit is set too and in upper case if not; where it is not set
/// it shows `x` or a dash.
pub open spec fn execute_glyph(
    mode: u32,
    execute: u32,
    special_mask: u32,
    lower: char,
    upper: char,
) -> char {
    if has_bit(mode, special_mask) {
        if has_bit(mode, execute) {
            lower
        } else {
            upper
        }
    } else if has_bit(mode, execute) {
        'x'
    } else {
        '-'
    }
}

/// The permission string of an entry of kind `kind` with mode bits `mode`:
/// the kind glyph, then the read, write and execute glyphs of the owner, of
/// the group and of everybody else.
pub open spec fn permissions_text(kind: FileKind, mode: u32) -> Seq<char> {
    seq![
        kind_glyph(kind),
        plain_glyph(mode, OWNER_READ, 'r'),
        plain_glyph(mode, OWNER_WRITE, 'w'),
        execute_glyph(mode, OWNER_EXECUTE, SET_USER_ID, 's', 'S'),
        plain_glyph(mode, GROUP_READ, 'r'),
        plain_glyph(mode, GROUP_WRITE, 'w'),
        execute_glyph(mode, GROUP_EXECUTE, SET_GROUP_ID, 's', 'S'),
        plain_glyph(mode, OTHER_READ, 'r'),
        plain_glyph(mode, OTHER_WRITE, 'w'),
        execute_glyph(mode, OTHER_EXECUTE, STICKY, 't', 'T'),
    ]
}

fn kind_str(kind: FileKind) -> (s: &'static str)
    ensures
        s@ == seq![kind_glyph(kind)],
{
    proof {
        reveal_strlit("b");
        reveal_strlit("c");
        reveal_strlit("d");
        reveal_strlit("l");
        reveal_strlit("p");
        reveal_strlit("s");
        reveal_strlit("-");
    }
    let s = match kind {
        FileKind::BlockDevice => "b",
        FileKind::CharDevice => "c",
        FileKind::Directory => "d",
        FileKind::Symlink => "l",
        FileKind::Fifo => "p",
        FileKind::Socket => "s",
        FileKind::Regular => "-",
        FileKind::Other => "-",
    };
    assert(s@ =~= seq![kind_glyph(kind)]);
    s
}

fn plain_str(mode: u32, mask: u32, letter: &'static str) -> (s: &'static str)
    requires
        letter@.len() == 1,
    ensures
        s@ == seq![plain_glyph(mode, mask, letter@[0])],
{
    proof {
        reveal_strlit("-");
    }
    let s = if mode & mask != 0 {
        letter
    } else {
        "-"
    };
    assert(s@ =~= seq![plain_glyph(mode, mask, letter@[0])]);
    s
}

fn execute_str(
    mode: u32,
    execute: u32,
    special_mask: u32,
    lower: &'static str,
    upper: &'static str,
) -> (s: &'static str)
    requires
        lower@.len() == 1,
        upper@.len() == 1,
    ensures
        s@ == seq![execute_glyph(mode, execute, special_mask, lower@[0], upper@[0])],
{
    proof {
        reveal_strlit("x");
        reveal_strlit("-");
    }
    let s = if mode & special_mask != 0 {
        if mode & execute != 0 {
            lower
        } else {
            upper
        }
    } else if mode & execute != 0 {
        "x"
    } else {
        "-"
    };
    assert(s@ =~= seq![execute_glyph(mode, execute, special_mask, lower@[0], upper@[0])]);
    s
}

/// Renders the kind and the mode bits of an entry as its permission string,
/// such as `drwxr-xr-x`.
pub fn get_permissions_string(kind: FileKind, mode: u32) -> (s: String)
    ensures
        s@ == permissions_text(kind, mode),
        s@.len() == 10,
{
    proof {
        reveal_strlit("r");
        reveal_strlit("w");
        reveal_strlit("s");
        reveal_strlit("S");
        reveal_strlit("t");
        reveal_strlit("T");
    }
    let mut s = String::new();
    s.append(kind_str(kind));
    s.append(plain_str(mode, OWNER_READ, "r"));
    s.append(plain_str(mode, OWNER_WRITE, "w"));
    s.append(execute_str(mode, OWNER_EXECUTE, SET_USER_ID, "s", "S"));
    s.append(plain_str(mode, GROUP_READ, "r"));
    s.append(plain_str(mode, GROUP_WRITE, "w"));
    s.append(execute_str(mode, GROUP_EXECUTE, SET_GROUP_ID, "s", "S"));
    s.append(plain_str(mode, OTHER_READ, "r"));
    s.append(plain_str(mode, OTHER_WRITE, "w"));
    s.append(execute_str(mode, OTHER_EXECUTE, STICKY, "t", "T"));
    assert(s@ =~= permissions_text(kind, mode));
    s
}

} // verus!
