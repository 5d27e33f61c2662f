//! How paths are written: which are absolute, and how one is extended by a
//! segment.
//!
//! A path is the byte string the operating system hands out. What its bytes mean
//! depends on the system's [`PathStyle`].

use vstd::prelude::*;
use vstd::string::StringSliceAdditionalSpecFns;

verus! {

/// The byte `/`.
pub const SLASH: u8 = 0x2f;

/// The byte `\`.
pub const BACKSLASH: u8 = 0x5c;

/// The byte `:`.
pub const COLON: u8 = 0x3a;

/// The byte `.`.
pub const DOT: u8 = 0x2e;

/// The byte `?`.
pub const QUESTION_MARK: u8 = 0x3f;

/// The two ways to write a path.
#[derive(Clone, Copy, Debug, PartialEq, Eq, Structural)]
pub enum PathStyle {
    /// Segments behind `/`, from a single root.
    Unix,
    /// Segments behind `\` or `/`, and a prefix that names a drive, a share or a
    /// device.
    Windows,
}

/// The kinds of prefix a Windows path can have.
#[derive(Clone, Copy, Debug, PartialEq, Eq, Structural)]
pub enum PrefixKind {
    /// No prefix.
    Absent,
    /// A drive: `C:`.
    Drive,
    /// A share or a device: `\\server\share`, `\\.\COM42`.
    Network,
    /// One that the system takes to the letter: `\\?\C:`,
    /// `\\?\UNC\server\share`, `\\?\name`.
    Verbatim,
}

/// Whether a byte separates the segments of a Windows path. Behind a verbatim
/// prefix only `\` does.
pub open spec fn separates(byte: u8, verbatim: bool) -> bool {
    byte == BACKSLASH || (byte == SLASH && !verbatim)
}

/// Where the piece of a Windows path that begins at `from` ends.
pub open spec fn piece_end(path: Seq<u8>, from: int, verbatim: bool) -> int
    decreases path.len() - from,
{
    if from >= path.len() {
        path.len() as int
    } else if separates(path[from], verbatim) {
        from
    } else {
        piece_end(path, from + 1, verbatim)
    }
}

/// Whether a drive letter and a colon stand at `at`.
pub open spec fn drive_at(path: Seq<u8>, at: int) -> bool {
    &&& at + 2 <= path.len()
    &&& (0x41 <= path[at] <= 0x5a || 0x61 <= path[at] <= 0x7a)
    &&& path[at + 1] == COLON
}

/// Whether a Windows path begins with `\\?\`.
pub open spec fn begins_verbatim(path: Seq<u8>) -> bool {
    &&& path.len() >= 4
    &&& path[0] == BACKSLASH
    &&& path[1] == BACKSLASH
    &&& path[2] == QUESTION_MARK
    &&& path[3] == BACKSLASH
}

/// Whether `UNC` and a separator follow a verbatim beginning.
pub open spec fn names_share(path: Seq<u8>) -> bool {
    &&& path.len() >= 8
    &&& path[4] == 0x55
    &&& path[5] == 0x4e
    &&& path[6] == 0x43
    &&& separates(path[7], false)
}

/// The length of the prefix of a path that begins with `\\?\`: it ends behind
/// the share, behind the drive, or behind the first piece.
pub open spec fn verbatim_len(path: Seq<u8>) -> int {
    if names_share(path) {
        let server = piece_end(path, 8, true);
        let share = piece_end(path, server + 1, true);
        if server + 1 < share {
            share
        } else {
            server
        }
    } else if drive_at(path, 4) && (path.len() == 6 || separates(path[6], false)) {
        6
    } else {
        piece_end(path, 4, true)
    }
}

/// The prefix of a Windows path: its kind, and its length.
pub open spec fn prefix(path: Seq<u8>) -> (PrefixKind, int) {
    if path.len() >= 2 && separates(path[0], false) && separates(path[1], false) {
        if begins_verbatim(path) {
            (PrefixKind::Verbatim, verbatim_len(path))
        } else if path.len() >= 4 && path[2] == DOT && separates(path[3], false) {
            (PrefixKind::Network, piece_end(path, 4, false))
        } else {
            let server = piece_end(path, 2, false);
            let share = piece_end(path, server + 1, false);
            if 2 < server && server + 1 < share {
                (PrefixKind::Network, share)
            } else {
                (PrefixKind::Absent, 0)
            }
        }
    } else if drive_at(path, 0) {
        (PrefixKind::Drive, 2)
    } else {
        (PrefixKind::Absent, 0)
    }
}

/// Whether a separator stands at `at`.
pub open spec fn separator_at(path: Seq<u8>, at: int) -> bool {
    at < path.len() && separates(path[at], false)
}

/// The pieces of a Windows path from `from` on, the empty ones left out.
pub open spec fn pieces(path: Seq<u8>, from: int, verbatim: bool) -> Seq<Seq<u8>>
    decreases path.len() + 1 - from,
{
    if from >= path.len() {
        Seq::empty()
    } else {
        proof {
            lemma_piece_end(path, from, verbatim);
        }
        let end = piece_end(path, from, verbatim);
        if end > from {
            seq![path.subrange(from, end)] + pieces(path, end + 1, verbatim)
        } else {
            pieces(path, end + 1, verbatim)
        }
    }
}

/// The piece `.`: the directory itself.
pub open spec fn is_here(piece: Seq<u8>) -> bool {
    piece == seq![DOT]
}

/// The piece `..`: the directory above.
pub open spec fn is_above(piece: Seq<u8>) -> bool {
    piece == seq![DOT, DOT]
}

/// The pieces reached from some pieces by further ones: `.` stays, and `..` goes
/// up where the last piece is a name.
pub open spec fn walked(start: Seq<Seq<u8>>, steps: Seq<Seq<u8>>) -> Seq<Seq<u8>>
    decreases steps.len(),
{
    if steps.len() == 0 {
        start
    } else {
        let at = walked(start, steps.drop_last());
        let step = steps.last();
        if is_here(step) {
            at
        } else if is_above(step) {
            if at.len() > 0 && !is_here(at.last()) && !is_above(at.last()) {
                at.drop_last()
            } else {
                at
            }
        } else {
            at.push(step)
        }
    }
}

/// Some pieces, each behind `\`.
pub open spec fn written(pieces: Seq<Seq<u8>>) -> Seq<u8>
    decreases pieces.len(),
{
    if pieces.len() == 0 {
        Seq::empty()
    } else {
        written(pieces.drop_last()).push(BACKSLASH) + pieces.last()
    }
}

/// A path with a verbatim prefix extended by a segment without a prefix. The
/// system does not resolve `.` and `..` in such a path, so they are resolved
/// here.
pub open spec fn verbatim_joined(base: Seq<u8>, segment: Seq<u8>) -> Seq<u8> {
    let len = prefix(base).1;
    let rooted = separator_at(base, len);
    let own = pieces(
        base,
        if rooted {
            len + 1
        } else {
            len
        },
        true,
    );
    let restart = separator_at(segment, 0);
    let reached = walked(
        if restart {
            Seq::empty()
        } else {
            own
        },
        pieces(segment, 0, false),
    );
    if reached.len() == 0 && (rooted || restart) {
        base.take(len).push(BACKSLASH)
    } else {
        base.take(len) + written(reached)
    }
}

/// A Windows path extended by a segment: one with a prefix replaces the path,
/// one that starts at the root replaces all but the prefix, and any other is
/// appended behind one separator (none after an empty path or a bare drive).
pub open spec fn windows_joined(base: Seq<u8>, segment: Seq<u8>) -> Seq<u8> {
    let (kind, len) = prefix(base);
    if prefix(segment).0 != PrefixKind::Absent {
        segment
    } else if kind == PrefixKind::Verbatim && segment.len() > 0 {
        verbatim_joined(base, segment)
    } else if separator_at(segment, 0) {
        base.take(len) + segment
    } else if base.len() == 0 || separates(base.last(), false) || (kind == PrefixKind::Drive
        && base.len() == len) {
        base + segment
    } else {
        base.push(BACKSLASH) + segment
    }
}

impl PathStyle {
    /// Whether a path says by itself which file it names: it starts at the root,
    /// on Windows that of the drive, share or device in its prefix.
    pub open spec fn absolute(self, path: Seq<u8>) -> bool {
        match self {
            PathStyle::Unix => path.len() > 0 && path[0] == SLASH,
            PathStyle::Windows => match prefix(path).0 {
                PrefixKind::Absent => false,
                PrefixKind::Drive => separator_at(path, 2),
                PrefixKind::Network | PrefixKind::Verbatim => true,
            },
        }
    }

    /// A path extended by one segment. In the Unix style an absolute segment
    /// replaces the path, and any other is appended behind exactly one separator
    /// (none after an empty path); for the other, see [`windows_joined`].
    pub open spec fn joined(self, base: Seq<u8>, segment: Seq<u8>) -> Seq<u8> {
        match self {
            PathStyle::Unix => if self.absolute(segment) {
                segment
            } else if base.len() == 0 || base.last() == SLASH {
                base + segment
            } else {
                base.push(SLASH) + segment
            },
            PathStyle::Windows => windows_joined(base, segment),
        }
    }

    /// A path extended by several segments, one after the other.
    pub open spec fn joined_all(self, base: Seq<u8>, segments: Seq<Seq<u8>>) -> Seq<u8>
        decreases segments.len(),
    {
        if segments.len() == 0 {
            base
        } else {
            self.joined(self.joined_all(base, segments.drop_last()), segments.last())
        }
    }
}

/// A piece ends at or behind where it begins, within the path.
pub proof fn lemma_piece_end(path: Seq<u8>, from: int, verbatim: bool)
    ensures
        from <= path.len() ==> from <= piece_end(path, from, verbatim),
        piece_end(path, from, verbatim) <= path.len(),
    decreases path.len() - from,
{
    if from < path.len() && !separates(path[from], verbatim) {
        lemma_piece_end(path, from + 1, verbatim);
    }
}

fn is_separator(byte: u8, verbatim: bool) -> (r: bool)
    ensures
        r == separates(byte, verbatim),
{
    byte == BACKSLASH || (byte == SLASH && !verbatim)
}

fn is_separator_at(path: &[u8], at: usize) -> (r: bool)
    ensures
        r == separator_at(path@, at as int),
        r ==> at < path.len(),
{
    at < path.len() && is_separator(path[at], false)
}

fn end_of_piece(path: &[u8], from: usize, verbatim: bool) -> (end: usize)
    ensures
        end == piece_end(path@, from as int, verbatim),
        from <= path@.len() ==> from <= end,
        end <= path@.len(),
{
    if from >= path.len() {
        return path.len();
    }
    let mut end: usize = from;
    while end < path.len() && !is_separator(path[end], verbatim)
        invariant
            from <= end <= path@.len(),
            piece_end(path@, from as int, verbatim) == piece_end(path@, end as int, verbatim),
        decreases path@.len() - end,
    {
        end += 1;
    }
    end
}

/// Where the piece behind the separator at `end` ends; that of the path where
/// there is none.
fn end_of_next(path: &[u8], end: usize, verbatim: bool) -> (next: usize)
    requires
        end <= path@.len(),
    ensures
        next == piece_end(path@, end + 1, verbatim),
        next <= path@.len(),
{
    if end < path.len() {
        end_of_piece(path, end + 1, verbatim)
    } else {
        path.len()
    }
}

fn is_drive_at(path: &[u8], at: usize) -> (r: bool)
    ensures
        r == drive_at(path@, at as int),
{
    let len: usize = path.len();
    if len < 2 || at > len - 2 {
        return false;
    }
    let letter: u8 = path[at];
    ((0x41 <= letter && letter <= 0x5a) || (0x61 <= letter && letter <= 0x7a)) && path[at + 1]
        == COLON
}

fn verbatim_prefix_len(path: &[u8]) -> (len: usize)
    requires
        begins_verbatim(path@),
    ensures
        len == verbatim_len(path@),
        4 <= len <= path@.len(),
{
    if path.len() >= 8 && path[4] == 0x55 && path[5] == 0x4e && path[6] == 0x43 && is_separator(
        path[7],
        false,
    ) {
        let server: usize = end_of_piece(path, 8, true);
        let share: usize = end_of_next(path, server, true);
        if server < share && server + 1 < share {
            share
        } else {
            server
        }
    } else if is_drive_at(path, 4) && (path.len() == 6 || is_separator(path[6], false)) {
        6
    } else {
        end_of_piece(path, 4, true)
    }
}

fn prefix_of(path: &[u8]) -> (r: (PrefixKind, usize))
    ensures
        (r.0, r.1 as int) == prefix(path@),
        r.1 <= path@.len(),
{
    if path.len() >= 2 && is_separator(path[0], false) && is_separator(path[1], false) {
        if path.len() >= 4 && path[0] == BACKSLASH && path[1] == BACKSLASH && path[2]
            == QUESTION_MARK && path[3] == BACKSLASH {
            (PrefixKind::Verbatim, verbatim_prefix_len(path))
        } else if path.len() >= 4 && path[2] == DOT && is_separator(path[3], false) {
            (PrefixKind::Network, end_of_piece(path, 4, false))
        } else {
            let server: usize = end_of_piece(path, 2, false);
            let share: usize = end_of_next(path, server, false);
            if 2 < server && server < share && server + 1 < share {
                (PrefixKind::Network, share)
            } else {
                (PrefixKind::Absent, 0)
            }
        }
    } else if is_drive_at(path, 0) {
        (PrefixKind::Drive, 2)
    } else {
        (PrefixKind::Absent, 0)
    }
}

/// The bytes of each of several pieces.
pub open spec fn views(list: Seq<Vec<u8>>) -> Seq<Seq<u8>> {
    list.map_values(|piece: Vec<u8>| piece@)
}

fn pieces_of(path: &[u8], from: usize, verbatim: bool) -> (list: Vec<Vec<u8>>)
    requires
        from <= path@.len(),
    ensures
        views(list@) == pieces(path@, from as int, verbatim),
{
    let mut list: Vec<Vec<u8>> = Vec::new();
    let mut at: usize = from;
    assert(views(list@) =~= Seq::empty());
    while at < path.len()
        invariant
            from <= at <= path@.len(),
            pieces(path@, from as int, verbatim) == views(list@) + pieces(
                path@,
                at as int,
                verbatim,
            ),
        decreases path@.len() - at,
    {
        let end: usize = end_of_piece(path, at, verbatim);
        let ghost before = list@;
        if end > at {
            let piece: Vec<u8> = vstd::slice::slice_to_vec(
                vstd::slice::slice_subrange(path, at, end),
            );
            list.push(piece);
            assert(views(list@) =~= views(before).push(path@.subrange(at as int, end as int)));
        }
        let next: usize = if end < path.len() {
            end + 1
        } else {
            end
        };
        assert(pieces(path@, end + 1, verbatim) == pieces(path@, next as int, verbatim));
        assert(views(before) + pieces(path@, at as int, verbatim) =~= views(list@) + pieces(
            path@,
            next as int,
            verbatim,
        ));
        at = next;
    }
    list
}

fn is_dots(piece: &Vec<u8>) -> (r: (bool, bool))
    ensures
        r.0 == is_here(piece@),
        r.1 == is_above(piece@),
{
    let here: bool = piece.len() == 1 && piece[0] == DOT;
    let above: bool = piece.len() == 2 && piece[0] == DOT && piece[1] == DOT;
    proof {
        if here {
            assert(piece@ =~= seq![DOT]);
        }
        if above {
            assert(piece@ =~= seq![DOT, DOT]);
        }
    }
    (here, above)
}

fn walk(start: Vec<Vec<u8>>, steps: Vec<Vec<u8>>) -> (reached: Vec<Vec<u8>>)
    ensures
        views(reached@) == walked(views(start@), views(steps@)),
{
    let ghost from = views(start@);
    let mut reached: Vec<Vec<u8>> = start;
    let mut i: usize = 0;
    while i < steps.len()
        invariant
            i <= steps@.len(),
            views(reached@) == walked(from, views(steps@).take(i as int)),
        decreases steps@.len() - i,
    {
        let ghost before = reached@;
        let step: &Vec<u8> = &steps[i];
        let (here, above): (bool, bool) = is_dots(step);
        proof {
            let taken = views(steps@).take(i + 1);
            assert(taken.drop_last() =~= views(steps@).take(i as int));
            assert(taken.last() == step@);
        }
        if here {
        } else if above {
            let count: usize = reached.len();
            if count > 0 {
                let (h, a): (bool, bool) = is_dots(&reached[count - 1]);
                assert(views(before).last() == before.last()@);
                if !h && !a {
                    reached.pop();
                    assert(views(reached@) =~= views(before).drop_last());
                }
            }
        } else {
            reached.push(vstd::slice::slice_to_vec(step.as_slice()));
            assert(views(reached@) =~= views(before).push(step@));
        }
        i += 1;
    }
    assert(views(steps@).take(i as int) =~= views(steps@));
    reached
}

fn append_slice(path: &mut Vec<u8>, tail: &[u8])
    ensures
        final(path)@ == old(path)@ + tail@,
{
    let mut rest: Vec<u8> = vstd::slice::slice_to_vec(tail);
    path.append(&mut rest);
}

fn write_behind(path: Vec<u8>, list: &Vec<Vec<u8>>) -> (r: Vec<u8>)
    ensures
        r@ == path@ + written(views(list@)),
{
    let ghost start = path@;
    let mut r: Vec<u8> = path;
    let mut i: usize = 0;
    assert(start + written(views(list@).take(0)) =~= start);
    while i < list.len()
        invariant
            i <= list@.len(),
            r@ == start + written(views(list@).take(i as int)),
        decreases list@.len() - i,
    {
        let ghost before = r@;
        r.push(BACKSLASH);
        append_slice(&mut r, list[i].as_slice());
        proof {
            let taken = views(list@).take(i + 1);
            assert(taken.drop_last() =~= views(list@).take(i as int));
            assert(taken.last() == list@[i as int]@);
            assert(r@ =~= start + written(taken));
        }
        i += 1;
    }
    assert(views(list@).take(i as int) =~= views(list@));
    r
}

fn join_verbatim(base: &[u8], len: usize, segment: &[u8]) -> (path: Vec<u8>)
    requires
        len == prefix(base@).1,
        len <= base@.len(),
    ensures
        path@ == verbatim_joined(base@, segment@),
{
    let rooted: bool = is_separator_at(base, len);
    let body: usize = if rooted {
        len + 1
    } else {
        len
    };
    let restart: bool = is_separator_at(segment, 0);
    let start: Vec<Vec<u8>> = if restart {
        Vec::new()
    } else {
        pieces_of(base, body, true)
    };
    proof {
        if restart {
            assert(views(start@) =~= Seq::empty());
        }
    }
    let reached: Vec<Vec<u8>> = walk(start, pieces_of(segment, 0, false));
    let mut path: Vec<u8> = vstd::slice::slice_to_vec(vstd::slice::slice_subrange(base, 0, len));
    assert(path@ =~= base@.take(len as int));
    if reached.len() == 0 && (rooted || restart) {
        path.push(BACKSLASH);
        path
    } else {
        write_behind(path, &reached)
    }
}

fn join_windows(base: &[u8], segment: &[u8]) -> (path: Vec<u8>)
    ensures
        path@ == windows_joined(base@, segment@),
{
    let (kind, len): (PrefixKind, usize) = prefix_of(base);
    if prefix_of(segment).0 != PrefixKind::Absent {
        return vstd::slice::slice_to_vec(segment);
    }
    if kind == PrefixKind::Verbatim && segment.len() > 0 {
        return join_verbatim(base, len, segment);
    }
    let kept: usize = if is_separator_at(segment, 0) {
        len
    } else {
        base.len()
    };
    let mut path: Vec<u8> = vstd::slice::slice_to_vec(vstd::slice::slice_subrange(base, 0, kept));
    assert(path@ =~= base@.take(kept as int));
    assert(base@.take(base@.len() as int) =~= base@);
    if !(is_separator_at(segment, 0) || base.len() == 0 || is_separator(
        base[base.len() - 1],
        false,
    ) || (kind == PrefixKind::Drive && base.len() == len)) {
        path.push(BACKSLASH);
    }
    append_slice(&mut path, segment);
    path
}

impl PathStyle {
    /// Whether a path is absolute.
    pub fn is_absolute(self, path: &[u8]) -> (r: bool)
        ensures
            r == self.absolute(path@),
    {
        match self {
            PathStyle::Unix => path.len() > 0 && path[0] == SLASH,
            PathStyle::Windows => match prefix_of(path).0 {
                PrefixKind::Absent => false,
                PrefixKind::Drive => is_separator_at(path, 2),
                PrefixKind::Network | PrefixKind::Verbatim => true,
            },
        }
    }

    /// Extend a path by one segment.
    pub fn join(self, base: &[u8], segment: &str) -> (path: Vec<u8>)
        ensures
            path@ == self.joined(base@, segment.spec_bytes()),
    {
        let tail: &[u8] = segment.as_bytes();
        match self {
            PathStyle::Unix => {
                if tail.len() > 0 && tail[0] == SLASH {
                    return vstd::slice::slice_to_vec(tail);
                }
                let mut path: Vec<u8> = vstd::slice::slice_to_vec(base);
                if base.len() > 0 && base[base.len() - 1] != SLASH {
                    path.push(SLASH);
                }
                append_slice(&mut path, tail);
                path
            },
            PathStyle::Windows => join_windows(base, tail),
        }
    }
}

/// Whether a segment is a name: not empty, not `.` or `..`, and without a byte
/// that means something in one of the styles.
pub open spec fn is_name(segment: Seq<u8>) -> bool {
    &&& segment.len() > 0
    &&& !is_here(segment)
    &&& !is_above(segment)
    &&& forall|i: int|
        0 <= i < segment.len() ==> #[trigger] segment[i] != SLASH && segment[i] != BACKSLASH
            && segment[i] != COLON
}

impl PathStyle {
    /// Whether a byte separates segments.
    pub open spec fn separated_by(self, byte: u8) -> bool {
        match self {
            PathStyle::Unix => byte == SLASH,
            PathStyle::Windows => separates(byte, false),
        }
    }

    /// Whether a path is a drive and nothing else.
    pub open spec fn is_drive(self, path: Seq<u8>) -> bool {
        self == PathStyle::Windows && path.len() == 2 && drive_at(path, 0)
    }

    /// Whether the last segment of a path is this one, with something before it.
    pub open spec fn ends_in(self, path: Seq<u8>, segment: Seq<u8>) -> bool {
        let at = path.len() - segment.len();
        &&& at > 0
        &&& path.subrange(at, path.len() as int) == segment
        &&& self.separated_by(path[at - 1])
    }
}

/// A path extended by a name ends in it, unless there is nothing to extend or
/// the path is a bare drive, which the name follows directly.
pub proof fn law_a_name_becomes_the_last_segment(style: PathStyle, base: Seq<u8>, name: Seq<u8>)
    requires
        is_name(name),
    ensures
        base.len() > 0 && !style.is_drive(base) ==> style.ends_in(style.joined(base, name), name),
        base.len() == 0 || style.is_drive(base) ==> style.joined(base, name) == base + name,
{
    let path = style.joined(base, name);
    assert(!separator_at(name, 0));
    assert(prefix(name).0 == PrefixKind::Absent) by {
        if drive_at(name, 0) {
            assert(name[1] == COLON);
        }
    }
    let (kind, len) = prefix(base);
    if style == PathStyle::Windows && kind == PrefixKind::Verbatim {
        lemma_name_is_one_piece(name, 0);
        let steps = pieces(name, 0, false);
        assert(name.subrange(0, name.len() as int) =~= name);
        assert(steps =~= seq![name]);
        assert(steps.drop_last() =~= Seq::empty());
        let own = pieces(
            base,
            if separator_at(base, len) {
                len + 1
            } else {
                len
            },
            true,
        );
        assert(walked(own, steps) == own.push(name)) by {
            reveal_with_fuel(walked, 2);
        }
        assert(own.push(name).drop_last() =~= own);
        let before = base.take(len) + written(own).push(BACKSLASH);
        assert(path =~= before + name);
        assert(path[before.len() - 1] == BACKSLASH);
        assert(path.subrange(before.len() as int, path.len() as int) =~= name);
    } else if base.len() > 0 && !style.is_drive(base) {
        let at = path.len() - name.len();
        assert(path.subrange(at, path.len() as int) =~= name);
    } else {
        assert(path =~= base + name);
    }
}

proof fn lemma_name_is_one_piece(name: Seq<u8>, from: int)
    requires
        is_name(name),
        0 <= from <= name.len(),
    ensures
        piece_end(name, from, false) == name.len(),
        pieces(name, name.len() as int + 1, false) == Seq::<Seq<u8>>::empty(),
    decreases name.len() - from,
{
    if from < name.len() {
        assert(name[from] != SLASH);
        lemma_name_is_one_piece(name, from + 1);
    }
}

/// What is not empty stays so when it is extended.
pub proof fn lemma_joined_all_is_not_empty(
    style: PathStyle,
    base: Seq<u8>,
    segments: Seq<Seq<u8>>,
)
    requires
        base.len() > 0,
    ensures
        style.joined_all(base, segments).len() > 0,
    decreases segments.len(),
{
    if segments.len() > 0 {
        lemma_joined_all_is_not_empty(style, base, segments.drop_last());
        let before = style.joined_all(base, segments.drop_last());
        lemma_prefix_fits(before);
    }
}

/// A prefix lies within its path, and only an absent one is empty.
proof fn lemma_prefix_fits(path: Seq<u8>)
    ensures
        0 <= prefix(path).1 <= path.len(),
        prefix(path).0 != PrefixKind::Absent ==> prefix(path).1 > 0,
        prefix(path).0 == PrefixKind::Absent ==> prefix(path).1 == 0,
{
    lemma_piece_end(path, 2, false);
    lemma_piece_end(path, piece_end(path, 2, false) + 1, false);
    lemma_piece_end(path, 4, false);
    lemma_piece_end(path, 4, true);
    lemma_piece_end(path, 8, true);
    lemma_piece_end(path, piece_end(path, 8, true) + 1, true);
}

/// In the Unix style `/` alone means anything: a path is absolute where it begins
/// with it, an absolute segment replaces the path, and any other follows the path
/// behind exactly one `/`, or at once where the path is empty.
pub proof fn law_unix_paths_are_joined_by_one_slash(base: Seq<u8>, segment: Seq<u8>)
    ensures
        PathStyle::Unix.absolute(base) <==> base.len() > 0 && base[0] == 0x2f,
        segment.len() > 0 && segment[0] == 0x2f ==> PathStyle::Unix.joined(base, segment)
            == segment,
        !(segment.len() > 0 && segment[0] == 0x2f) ==> {
            let path = PathStyle::Unix.joined(base, segment);
            &&& base.len() == 0 ==> path == segment
            &&& base.len() > 0 && base.last() == 0x2f ==> path == base + segment
            &&& base.len() > 0 && base.last() != 0x2f ==> path == base + seq![0x2fu8] + segment
        },
{
    assert(base.push(0x2fu8) + segment =~= base + seq![0x2fu8] + segment);
    if base.len() == 0 {
        assert(base + segment =~= segment);
    }
}

/// Several segments follow one another.
pub proof fn law_segments_follow_one_another(
    style: PathStyle,
    base: Seq<u8>,
    segments: Seq<Seq<u8>>,
    next: Seq<u8>,
)
    ensures
        style.joined_all(base, Seq::empty()) == base,
        style.joined_all(base, segments.push(next)) == style.joined(
            style.joined_all(base, segments),
            next,
        ),
{
    assert(segments.push(next).drop_last() =~= segments);
}

/// In the Windows style `\` and `/` both separate, save behind a verbatim prefix.
pub proof fn law_windows_separators(byte: u8)
    ensures
        separates(byte, false) <==> byte == 0x5c || byte == 0x2f,
        separates(byte, true) <==> byte == 0x5c,
{
}

/// A Windows path on a drive is absolute exactly where a separator follows the
/// letter and the colon; a path that begins with neither a drive nor two
/// separators is not, and one with a share or a verbatim prefix always is.
pub proof fn law_windows_paths_are_absolute_with_drive_and_root(path: Seq<u8>)
    ensures
        path.len() == 0 ==> !PathStyle::Windows.absolute(path),
        path.len() >= 2 && (0x41 <= path[0] <= 0x5a || 0x61 <= path[0] <= 0x7a) && path[1] == 0x3a
            ==> (PathStyle::Windows.absolute(path) <==> path.len() > 2 && (path[2] == 0x5c
            || path[2] == 0x2f)),
        path.len() > 0 && !(0x41 <= path[0] <= 0x5a || 0x61 <= path[0] <= 0x7a) && path[0] != 0x5c
            && path[0] != 0x2f ==> !PathStyle::Windows.absolute(path),
        path.len() == 1 ==> !PathStyle::Windows.absolute(path),
        path.len() >= 2 && path[1] != 0x3a && path[1] != 0x5c && path[1] != 0x2f
            ==> !PathStyle::Windows.absolute(path),
        path.len() >= 4 && path[0] == 0x5c && path[1] == 0x5c && (path[2] == 0x3f || path[2]
            == 0x2e) && path[3] == 0x5c ==> PathStyle::Windows.absolute(path),
{
}

/// A path that names a server and a share is absolute; its prefix is the two.
pub proof fn law_a_share_is_absolute(server: Seq<u8>, share: Seq<u8>, rest: Seq<u8>)
    requires
        is_name(server),
        is_name(share),
        server != seq![0x3fu8],
        rest.len() > 0 ==> rest[0] == 0x5c || rest[0] == 0x2f,
    ensures
        ({
            let path = seq![0x5cu8, 0x5cu8] + server + seq![0x5cu8] + share + rest;
            &&& PathStyle::Windows.absolute(path)
            &&& prefix(path).1 == 3 + server.len() + share.len()
        }),
{
    let path = seq![0x5cu8, 0x5cu8] + server + seq![0x5cu8] + share + rest;
    let s = server.len() as int;
    let n = 3 + s + share.len();
    assert forall|i: int| 2 <= i < 2 + s implies !separates(#[trigger] path[i], false) by {
        assert(path[i] == server[i - 2]);
    }
    assert(path[2 + s] == 0x5c);
    lemma_piece_ends_at(path, 2, 2 + s);
    assert forall|i: int| 3 + s <= i < n implies !separates(#[trigger] path[i], false) by {
        assert(path[i] == share[i - 3 - s]);
    }
    if rest.len() > 0 {
        assert(path[n as int] == rest[0]);
    }
    lemma_piece_ends_at(path, 3 + s, n as int);
    assert(path[2] == server[0]);
    if s == 1 {
        assert(server =~= seq![server[0]]);
    } else {
        assert(path[3] == server[1]);
    }
    assert(server[0] != SLASH);
}

proof fn lemma_piece_ends_at(path: Seq<u8>, from: int, end: int)
    requires
        0 <= from <= end <= path.len(),
        forall|i: int| from <= i < end ==> !separates(#[trigger] path[i], false),
        end < path.len() ==> separates(path[end], false),
    ensures
        piece_end(path, from, false) == end,
    decreases end - from,
{
    if from < end {
        lemma_piece_ends_at(path, from + 1, end);
    }
}

/// Without a verbatim prefix, a Windows path is extended like this: a segment
/// with a prefix of its own replaces it, one that begins with a separator
/// replaces all but its prefix, and any other follows behind one separator,
/// which is `\` where none is there; none comes after an empty path or a bare
/// drive.
pub proof fn law_windows_paths_are_joined_by_one_separator(base: Seq<u8>, segment: Seq<u8>)
    requires
        !(base.len() >= 4 && base[0] == 0x5c && base[1] == 0x5c && base[2] == 0x3f && base[3]
            == 0x5c),
    ensures
        ({
            let path = PathStyle::Windows.joined(base, segment);
            let relative = prefix(segment).0 is Absent;
            let rooted = segment.len() > 0 && (segment[0] == 0x5c || segment[0] == 0x2f);
            let bare_drive = base.len() == 2 && (0x41 <= base[0] <= 0x5a || 0x61 <= base[0]
                <= 0x7a) && base[1] == 0x3a;
            let open = base.len() > 0 && base.last() != 0x5c && base.last() != 0x2f && !bare_drive;
            &&& !relative ==> path == segment
            &&& relative && rooted ==> path == base.take(prefix(base).1) + segment
            &&& relative && !rooted && open ==> path == base + seq![0x5cu8] + segment
            &&& relative && !rooted && !open ==> path == base + segment
        }),
{
    assert(base.push(0x5cu8) + segment =~= base + seq![0x5cu8] + segment);
}

/// Behind a verbatim prefix `.` stays where it is, `..` goes up one name and no
/// further, and any other piece goes down.
pub proof fn law_dots_are_walked(
    start: Seq<Seq<u8>>,
    steps: Seq<Seq<u8>>,
    name: Seq<u8>,
)
    ensures
        walked(start, Seq::empty()) == start,
        walked(start, steps.push(seq![0x2eu8])) == walked(start, steps),
        name != seq![0x2eu8] && name != seq![0x2eu8, 0x2eu8] ==> walked(start, steps.push(name))
            == walked(start, steps).push(name) && walked(
            start,
            steps.push(name).push(seq![0x2eu8, 0x2eu8]),
        ) == walked(start, steps),
        walked(Seq::empty(), seq![seq![0x2eu8, 0x2eu8]]) == Seq::<Seq<u8>>::empty(),
{
    let here = seq![0x2eu8];
    let above = seq![0x2eu8, 0x2eu8];
    assert(here.len() == 1 && above.len() == 2);
    assert(steps.push(here).drop_last() =~= steps);
    assert(steps.push(name).drop_last() =~= steps);
    assert(steps.push(name).push(above).drop_last() =~= steps.push(name));
    assert(walked(start, steps).push(name).drop_last() =~= walked(start, steps));
    reveal_with_fuel(walked, 2);
    assert(seq![above].drop_last() =~= Seq::empty());
}

/// The pieces of a Windows path are its names, whatever separates them and
/// however often; written out again, each stands behind one `\`.
pub proof fn law_pieces_are_the_names_between_separators(
    name: Seq<u8>,
    rest: Seq<u8>,
    list: Seq<Seq<u8>>,
    piece: Seq<u8>,
)
    requires
        is_name(name),
        rest.len() > 0 ==> rest[0] == 0x5c || rest[0] == 0x2f,
    ensures
        pieces(name + rest, 0, false) == seq![name] + pieces(rest, 0, false),
        rest.len() > 0 ==> pieces(rest, 0, false) == pieces(rest.skip(1), 0, false),
        pieces(Seq::empty(), 0, false) == Seq::<Seq<u8>>::empty(),
        written(Seq::empty()) == Seq::<u8>::empty(),
        written(list.push(piece)) == written(list) + seq![0x5cu8] + piece,
{
    let path = name + rest;
    let n = name.len() as int;
    assert forall|i: int| 0 <= i < n implies !separates(#[trigger] path[i], false) by {
        assert(path[i] == name[i]);
    }
    if rest.len() > 0 {
        assert(path[n] == rest[0]);
    }
    lemma_piece_ends_at(path, 0, n);
    assert(path.subrange(0, n) =~= name);
    lemma_pieces_shift(path, rest, n, 0);
    if rest.len() > 0 {
        lemma_pieces_shift(rest, rest.skip(1), 1, 0);
        assert(piece_end(rest, 0, false) == 0);
        assert(piece_end(path, n, false) == n);
        assert(pieces(path, n, false) == pieces(path, n + 1, false));
    } else {
        assert(pieces(path, n + 1, false) =~= pieces(rest, 0, false));
    }
    assert(pieces(path, 0, false) == seq![name] + pieces(path, n + 1, false));
    assert(list.push(piece).drop_last() =~= list);
    assert(written(list).push(0x5cu8) + piece =~= written(list) + seq![0x5cu8] + piece);
}

proof fn lemma_pieces_shift(path: Seq<u8>, rest: Seq<u8>, by: int, from: int)
    requires
        0 <= by,
        0 <= from,
        path.len() == by + rest.len(),
        forall|i: int| 0 <= i < rest.len() ==> #[trigger] rest[i] == path[by + i],
    ensures
        pieces(path, by + from, false) == pieces(rest, from, false),
        from <= rest.len() ==> piece_end(path, by + from, false) == by + piece_end(
            rest,
            from,
            false,
        ),
    decreases rest.len() + 1 - from,
{
    if from < rest.len() {
        lemma_end_shift(path, rest, by, from);
        lemma_piece_end(rest, from, false);
        let end = piece_end(rest, from, false);
        assert(path.subrange(by + from, by + end) =~= rest.subrange(from, end));
        lemma_pieces_shift(path, rest, by, end + 1);
    }
}

proof fn lemma_end_shift(path: Seq<u8>, rest: Seq<u8>, by: int, from: int)
    requires
        0 <= by,
        0 <= from <= rest.len(),
        path.len() == by + rest.len(),
        forall|i: int| 0 <= i < rest.len() ==> #[trigger] rest[i] == path[by + i],
    ensures
        piece_end(path, by + from, false) == by + piece_end(rest, from, false),
    decreases rest.len() - from,
{
    if from < rest.len() {
        assert(rest[from] == path[by + from]);
        lemma_end_shift(path, rest, by, from + 1);
    }
}

/// Whether pieces can stand in a path behind a verbatim prefix one by one: each a
/// name.
pub open spec fn all_names(list: Seq<Seq<u8>>) -> bool {
    forall|i: int| 0 <= i < list.len() ==> is_name(#[trigger] list[i])
}

proof fn lemma_verbatim_end(x: Seq<u8>, tail: Seq<u8>, from: int)
    requires
        0 <= from < x.len(),
    ensures
        piece_end(x.push(0x5cu8) + tail, from, true) == piece_end(x, from, true),
    decreases x.len() - from,
{
    let path = x.push(0x5cu8) + tail;
    assert(path[from] == x[from]);
    if !separates(x[from], true) {
        if from + 1 < x.len() {
            lemma_verbatim_end(x, tail, from + 1);
        } else {
            assert(path[from + 1] == 0x5c);
        }
    }
}

proof fn lemma_verbatim_name_ends(path: Seq<u8>, from: int)
    requires
        0 <= from <= path.len(),
        forall|i: int| from <= i < path.len() ==> #[trigger] path[i] != 0x5c,
    ensures
        piece_end(path, from, true) == path.len(),
    decreases path.len() - from,
{
    if from < path.len() {
        assert(path[from] != 0x5c);
        lemma_verbatim_name_ends(path, from + 1);
    }
}

proof fn lemma_verbatim_pieces_append(x: Seq<u8>, name: Seq<u8>, from: int)
    requires
        is_name(name),
        0 <= from <= x.len() + 1,
    ensures
        pieces(x.push(0x5cu8) + name, from, true) == pieces(x, from, true).push(name),
    decreases x.len() + 1 - from,
{
    let path = x.push(0x5cu8) + name;
    let n = x.len() as int;
    if from == n + 1 {
        assert forall|i: int| from <= i < path.len() implies #[trigger] path[i] != 0x5c by {
            assert(path[i] == name[i - n - 1]);
        }
        lemma_verbatim_name_ends(path, from);
        assert(path.subrange(from, path.len() as int) =~= name);
        assert(pieces(path, path.len() as int + 1, true) =~= Seq::empty());
        assert(pieces(path, from, true) =~= seq![name]);
        assert(pieces(x, from, true).push(name) =~= seq![name]);
    } else if from == n {
        assert(path[n] == 0x5c);
        assert(piece_end(path, from, true) == from);
        lemma_verbatim_pieces_append(x, name, from + 1);
        assert(pieces(x, from, true) =~= pieces(x, from + 1, true));
    } else {
        lemma_verbatim_end(x, name, from);
        lemma_piece_end(x, from, true);
        let end = piece_end(x, from, true);
        lemma_verbatim_pieces_append(x, name, end + 1);
        if end > from {
            assert(path.subrange(from, end) =~= x.subrange(from, end));
            assert(pieces(path, from, true) =~= pieces(x, from, true).push(name));
        }
    }
}

proof fn lemma_verbatim_pieces(before: Seq<u8>, list: Seq<Seq<u8>>)
    requires
        all_names(list),
    ensures
        pieces(before + written(list), before.len() as int + 1, true) == list,
    decreases list.len(),
{
    if list.len() == 0 {
        assert(before + written(list) =~= before);
        assert(pieces(before, before.len() as int + 1, true) =~= list);
    } else {
        let front = list.drop_last();
        assert(is_name(list[list.len() - 1]));
        assert(all_names(front)) by {
            assert forall|i: int| 0 <= i < front.len() implies is_name(#[trigger] front[i]) by {
                assert(is_name(list[i]));
            }
        }
        lemma_verbatim_pieces(before, front);
        let x = before + written(front);
        assert(before + written(list) =~= x.push(0x5cu8) + list.last());
        lemma_verbatim_pieces_append(x, list.last(), before.len() as int + 1);
        assert(front.push(list.last()) =~= list);
    }
}

/// Behind a verbatim drive, a path of names is extended by walking: a name goes
/// down, `.` stays, `..` goes up one name but never above the drive, and a
/// segment that begins with a separator starts at the drive again.
pub proof fn law_a_verbatim_path_is_extended_by_walking(
    drive: u8,
    list: Seq<Seq<u8>>,
    name: Seq<u8>,
)
    requires
        0x41 <= drive <= 0x5a || 0x61 <= drive <= 0x7a,
        all_names(list),
        list.len() > 0,
        is_name(name),
    ensures
        ({
            let start = seq![0x5cu8, 0x5cu8, 0x3fu8, 0x5cu8, drive, 0x3au8];
            let base = start + written(list);
            let style = PathStyle::Windows;
            &&& style.absolute(base)
            &&& style.joined(base, name) == base + seq![0x5cu8] + name
            &&& style.joined(base, seq![0x2eu8]) == base
            &&& list.len() > 1 ==> style.joined(base, seq![0x2eu8, 0x2eu8]) == start + written(
                list.drop_last(),
            )
            &&& list.len() == 1 ==> style.joined(base, seq![0x2eu8, 0x2eu8]) == start + seq![0x5cu8]
            &&& style.joined(base, seq![0x5cu8] + name) == start + seq![0x5cu8] + name
        }),
{
    let start = seq![0x5cu8, 0x5cu8, 0x3fu8, 0x5cu8, drive, 0x3au8];
    let base = start + written(list);
    let here = seq![0x2eu8];
    let above = seq![0x2eu8, 0x2eu8];
    let rooted = seq![0x5cu8] + name;
    let last = list[list.len() - 1];
    assert(is_name(last));
    assert(base[0] == 0x5c && base[1] == 0x5c && base[2] == 0x3f && base[3] == 0x5c && base[4]
        == drive && base[5] == 0x3a);
    lemma_written_begins(list);
    assert(base[6] == 0x5c);
    assert(prefix(base) == (PrefixKind::Verbatim, 6int));
    assert(base.take(6) =~= start);
    lemma_verbatim_pieces(start, list);
    assert(start.len() == 6);

    lemma_name_is_one_piece(name, 0);
    assert(name.subrange(0, name.len() as int) =~= name);
    assert(name[0] != 0x5c && name[0] != 0x2f);
    assert(prefix(name).0 is Absent) by {
        if drive_at(name, 0) {
            assert(name[1] == COLON);
        }
    }
    assert(pieces(name, 0, false) =~= seq![name]);
    assert(seq![name].drop_last() =~= Seq::empty());
    reveal_with_fuel(walked, 2);
    assert(list.push(name).drop_last() =~= list);
    assert(start + written(list.push(name)) =~= base + seq![0x5cu8] + name);

    reveal_with_fuel(piece_end, 3);
    reveal_with_fuel(pieces, 2);
    assert(here.subrange(0, 1) =~= here);
    assert(pieces(here, 0, false) =~= seq![here]);
    assert(seq![here].drop_last() =~= Seq::empty());
    assert(walked(list, seq![here]) == list);

    assert(above.subrange(0, 2) =~= above);
    assert(pieces(above, 0, false) =~= seq![above]);
    assert(seq![above].drop_last() =~= Seq::empty());
    assert(above.len() == 2 && here.len() == 1);
    assert(walked(list, seq![above]) == list.drop_last());
    if list.len() == 1 {
        assert(list.drop_last() =~= Seq::empty());
        assert(start.push(0x5cu8) =~= start + seq![0x5cu8]);
    }

    assert(rooted[0] == 0x5c && rooted[1] == name[0]);
    assert(prefix(rooted).0 is Absent);
    lemma_pieces_shift(rooted, name, 1, 0);
    assert(piece_end(rooted, 0, false) == 0);
    assert(pieces(rooted, 0, false) == pieces(rooted, 1, false));
    assert(walked(Seq::empty(), seq![name]) =~= seq![name]);
    reveal_with_fuel(written, 2);
    assert(written(seq![name]) =~= seq![0x5cu8] + name);
    assert(start + written(seq![name]) =~= start + seq![0x5cu8] + name);
}

proof fn lemma_written_begins(list: Seq<Seq<u8>>)
    requires
        list.len() > 0,
    ensures
        written(list).len() > 0,
        written(list)[0] == 0x5c,
    decreases list.len(),
{
    if list.len() > 1 {
        lemma_written_begins(list.drop_last());
    } else {
        assert(written(list.drop_last()) =~= Seq::empty());
    }
}

/// A verbatim prefix ends behind the share it names, and otherwise behind its
/// first piece; only `\` ends a piece there.
pub proof fn law_a_verbatim_prefix_ends_behind_its_share(
    server: Seq<u8>,
    share: Seq<u8>,
    name: Seq<u8>,
    rest: Seq<u8>,
)
    requires
        is_name(server),
        is_name(share),
        is_name(name),
        rest.len() > 0 ==> rest[0] == 0x5c,
    ensures
        ({
            let start = seq![0x5cu8, 0x5cu8, 0x3fu8, 0x5cu8];
            let unc = seq![0x55u8, 0x4eu8, 0x43u8, 0x5cu8];
            let shared = start + unc + server + seq![0x5cu8] + share + rest;
            let named = start + name + rest;
            &&& prefix(shared).0 is Verbatim && prefix(shared).1 == 9 + server.len() + share.len()
            &&& name != seq![0x55u8, 0x4eu8, 0x43u8] ==> prefix(named).0 is Verbatim
                && prefix(named).1 == 4 + name.len()
            &&& PathStyle::Windows.absolute(shared)
            &&& PathStyle::Windows.absolute(named)
        }),
{
    let start = seq![0x5cu8, 0x5cu8, 0x3fu8, 0x5cu8];
    let unc = seq![0x55u8, 0x4eu8, 0x43u8, 0x5cu8];
    let shared = start + unc + server + seq![0x5cu8] + share + rest;
    let s = server.len() as int;
    let e = 9 + s + share.len();
    assert(begins_verbatim(shared));
    assert(shared[4] == 0x55 && shared[5] == 0x4e && shared[6] == 0x43 && shared[7] == 0x5c);
    assert forall|i: int| 8 <= i < 8 + s implies #[trigger] shared[i] != 0x5c by {
        assert(shared[i] == server[i - 8]);
    }
    assert(shared[8 + s] == 0x5c);
    lemma_verbatim_ends_at(shared, 8, 8 + s);
    assert forall|i: int| 9 + s <= i < e implies #[trigger] shared[i] != 0x5c by {
        assert(shared[i] == share[i - 9 - s]);
    }
    if rest.len() > 0 {
        assert(shared[e as int] == rest[0]);
    }
    lemma_verbatim_ends_at(shared, 9 + s, e as int);

    let named = start + name + rest;
    let n = 4 + name.len();
    assert(begins_verbatim(named));
    assert forall|i: int| 4 <= i < n implies #[trigger] named[i] != 0x5c && named[i] != 0x3a by {
        assert(named[i] == name[i - 4]);
    }
    if rest.len() > 0 {
        assert(named[n as int] == rest[0]);
    }
    lemma_verbatim_ends_at(named, 4, n as int);
    if names_share(named) {
        assert(named[4] == 0x55 && named[5] == 0x4e && named[6] == 0x43);
        if name.len() < 3 {
            if name.len() == 1 {
                assert(named[5] == rest[0]);
            } else {
                assert(named[6] == rest[0]);
            }
        } else if name.len() == 3 {
            assert(name[0] == named[4] && name[1] == named[5] && name[2] == named[6]);
            assert(name =~= seq![0x55u8, 0x4eu8, 0x43u8]);
        } else {
            assert(named[7] == name[3]);
            assert(name[3] != SLASH);
        }
    }
    if drive_at(named, 4) {
        if name.len() == 1 {
            assert(named[5] == rest[0]);
        }
    }
}

proof fn lemma_verbatim_ends_at(path: Seq<u8>, from: int, end: int)
    requires
        0 <= from <= end <= path.len(),
        forall|i: int| from <= i < end ==> #[trigger] path[i] != 0x5c,
        end < path.len() ==> path[end] == 0x5c,
    ensures
        piece_end(path, from, true) == end,
    decreases end - from,
{
    if from < end {
        assert(path[from] != 0x5c);
        lemma_verbatim_ends_at(path, from + 1, end);
    }
}

/// Joining and judging paths goes by their bytes.
pub proof fn law_joining_goes_by_the_bytes(
    base: &[u8],
    segment: &str,
    unix: Vec<u8>,
    windows: Vec<u8>,
    rooted: bool,
    absolute: bool,
)
    requires
        call_ensures(PathStyle::join, (PathStyle::Unix, base, segment), unix),
        call_ensures(PathStyle::join, (PathStyle::Windows, base, segment), windows),
        call_ensures(PathStyle::is_absolute, (PathStyle::Unix, base), rooted),
        call_ensures(PathStyle::is_absolute, (PathStyle::Windows, base), absolute),
    ensures
        ({
            let tail = segment.spec_bytes();
            let slash = tail.len() > 0 && tail[0] == 0x2f;
            let backslash = tail.len() > 0 && tail[0] == 0x5c;
            let drive = base@.len() >= 2 && (0x41 <= base@[0] <= 0x5a || 0x61 <= base@[0] <= 0x7a)
                && base@[1] == 0x3a;
            &&& rooted <==> base@.len() > 0 && base@[0] == 0x2f
            &&& slash ==> unix@ == tail
            &&& !slash && base@.len() > 0 && base@.last() != 0x2f ==> unix@ == base@ + seq![0x2fu8]
                + tail
            &&& !slash && (base@.len() == 0 || base@.last() == 0x2f) ==> unix@ == base@ + tail
            &&& drive ==> (absolute <==> base@.len() > 2 && (base@[2] == 0x5c || base@[2] == 0x2f))
            &&& absolute ==> drive || (base@.len() >= 2 && (base@[0] == 0x5c || base@[0] == 0x2f)
                && (base@[1] == 0x5c || base@[1] == 0x2f))
            &&& drive && !slash && !backslash && prefix(tail).0 is Absent && base@.len() > 2
                && base@.last() != 0x5c && base@.last() != 0x2f ==> windows@ == base@ + seq![0x5cu8]
                + tail
        }),
{
    law_unix_paths_are_joined_by_one_slash(base@, segment.spec_bytes());
    law_windows_paths_are_absolute_with_drive_and_root(base@);
    if base@.len() >= 2 && base@[1] == 0x3a {
        law_windows_paths_are_joined_by_one_separator(base@, segment.spec_bytes());
    }
    if base@.len() == 0 {
        assert(base@ + segment.spec_bytes() =~= segment.spec_bytes());
    }
}

} // verus!
