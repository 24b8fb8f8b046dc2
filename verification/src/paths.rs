//! Building file-system paths as text, the way `Path::join` does on the host.
use vstd::prelude::*;
use vstd::string::*;

verus! {

/// The path conventions of the host: Unix-like systems separate with `/`;
/// Windows writes `\` and also accepts `/`.
#[derive(Clone, Copy, Debug, PartialEq, Eq, Structural)]
pub enum PathStyle {
    Unix,
    Windows,
}

/// The separator the host writes between two segments.
pub open spec fn main_separator(style: PathStyle) -> char {
    match style {
        PathStyle::Unix => '/',
        PathStyle::Windows => '\\',
    }
}

/// The character separates path segments on the host.
pub open spec fn is_separator(style: PathStyle, c: char) -> bool {
    c == '/' || (style == PathStyle::Windows && c == '\\')
}

/// The text begins with a Windows drive such as `C:`.
pub open spec fn has_drive_prefix(s: Seq<char>) -> bool {
    &&& s.len() >= 2
    &&& s[1] == ':'
    &&& (('a' <= s[0] && s[0] <= 'z') || ('A' <= s[0] && s[0] <= 'Z'))
}

/// A bare Windows drive such as `C:`, which a segment follows directly.
pub open spec fn is_bare_drive(s: Seq<char>) -> bool {
    s.len() == 2 && has_drive_prefix(s)
}

/// The text begins with a separator.
pub open spec fn starts_with_separator(style: PathStyle, s: Seq<char>) -> bool {
    s.len() > 0 && is_separator(style, s[0])
}

/// Joining `part` discards the base altogether: on Unix an absolute part; on
/// Windows a part with a drive, or one that begins with two separators (a
/// network or verbatim path).
pub open spec fn replaces_base(style: PathStyle, part: Seq<char>) -> bool {
    match style {
        PathStyle::Unix => starts_with_separator(style, part),
        PathStyle::Windows => has_drive_prefix(part) || (part.len() >= 2 && is_separator(style, part[0])
            && is_separator(style, part[1])),
    }
}

/// What joining keeps of the base before a Windows part that begins with a
/// single separator: its drive, when it has one.
pub open spec fn drive_of(base: Seq<char>) -> Seq<char> {
    if has_drive_prefix(base) {
        base.take(2)
    } else {
        Seq::empty()
    }
}

/// `base` joined with `part` as `Path::join` does: an absolute (or, on
/// Windows, drive-carrying or network) part replaces the base; on Windows a
/// part that begins with one separator keeps only the base's drive; else the
/// host's separator goes between them unless `base` is empty, already ends in
/// a separator, or (on Windows) is a bare drive.
pub open spec fn joined(style: PathStyle, base: Seq<char>, part: Seq<char>) -> Seq<char> {
    if replaces_base(style, part) {
        part
    } else if starts_with_separator(style, part) {
        drive_of(base) + part
    } else if base.len() == 0 || is_separator(style, base.last()) || (style == PathStyle::Windows
        && is_bare_drive(base)) {
        base + part
    } else {
        base + seq![main_separator(style)] + part
    }
}

fn is_drive_letter(c: char) -> (r: bool)
    ensures
        r == (('a' <= c && c <= 'z') || ('A' <= c && c <= 'Z')),
{
    ('a' <= c && c <= 'z') || ('A' <= c && c <= 'Z')
}

/// Joins `part` onto `base` as `Path::join` does on a host of the given
/// style. (On Windows, a part beginning with two separators is taken as a
/// network or verbatim path even when what follows would not make one, and a
/// base with such a prefix is not recognised as having one.)
pub fn join_path(style: PathStyle, base: &str, part: &str) -> (r: String)
    ensures
        r@ == joined(style, base@, part@),
{
    let windows = style == PathStyle::Windows;
    let m = part.unicode_len();
    let p0 = if m > 0 { part.get_char(0) } else { 'x' };
    let p1 = if m > 1 { part.get_char(1) } else { 'x' };
    let p0_sep = m > 0 && (p0 == '/' || (windows && p0 == '\\'));
    let p1_sep = m > 1 && (p1 == '/' || (windows && p1 == '\\'));
    let part_drive = m >= 2 && p1 == ':' && is_drive_letter(p0);
    let replaces = if windows { part_drive || (p0_sep && p1_sep) } else { p0_sep };
    assert(replaces == replaces_base(style, part@));
    assert(p0_sep == starts_with_separator(style, part@));
    if replaces {
        return String::from_str(part);
    }
    let n = base.unicode_len();
    if p0_sep {
        let base_drive = n >= 2 && base.get_char(1) == ':' && is_drive_letter(base.get_char(0));
        if base_drive {
            let drive = base.substring_char(0, 2);
            assert(drive@ == drive_of(base@));
            return String::from_str(drive).concat(part);
        } else {
            assert(drive_of(base@) =~= Seq::<char>::empty());
            assert(drive_of(base@) + part@ =~= part@);
            return String::from_str(part);
        }
    }
    let no_separator = if n == 0 {
        true
    } else {
        let last = base.get_char(n - 1);
        if last == '/' || (windows && last == '\\') {
            true
        } else if windows && n == 2 {
            let first = base.get_char(0);
            last == ':' && (('a' <= first && first <= 'z') || ('A' <= first && first <= 'Z'))
        } else {
            false
        }
    };
    if no_separator {
        String::from_str(base).concat(part)
    } else if windows {
        proof {
            reveal_strlit("\\");
        }
        let with_sep = String::from_str(base).concat("\\");
        assert(with_sep@ == base@ + seq!['\\']);
        with_sep.concat(part)
    } else {
        proof {
            reveal_strlit("/");
        }
        let with_sep = String::from_str(base).concat("/");
        assert(with_sep@ == base@ + seq!['/']);
        with_sep.concat(part)
    }
}

} // verus!
