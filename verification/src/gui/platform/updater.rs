//! Opt-in update check.
//!
//! Off by default. When enabled, exactly one `HEAD` request is made per launch
//! against the "latest release" redirect, and the result is logged. No
//! automatic download, no polling.

use crate::config::AppSettings;
use crate::text::chars_of;
use vstd::prelude::*;

verus! {

/// Where the latest release is redirected from.
pub const RELEASES_LATEST_URL: &'static str = "https://github.com/AprilNEA/OpenLogi/releases/latest";

/// Whether the one-shot update check is to run.
pub fn maybe_check(settings: &AppSettings) -> (check: bool)
    ensures
        check == settings.check_for_updates,
{
    settings.check_for_updates
}

/// What an update check found.
#[derive(Clone, Copy, Debug, PartialEq, Eq, Structural)]
pub enum CheckOutcome {
    /// A newer release is available.
    Newer,
    /// The running version is the latest.
    UpToDate,
    /// The network or the redirect failed.
    Failed,
}

/// Judge an update check by the address the request was redirected to, where it
/// succeeded.
pub fn run_check(final_uri: Option<&str>, current_version: &str) -> (outcome: CheckOutcome)
    ensures
        outcome == match final_uri {
            Some(uri) => if newer(tag_of(uri@), current_version@) {
                CheckOutcome::Newer
            } else {
                CheckOutcome::UpToDate
            },
            None => CheckOutcome::Failed,
        },
{
    match final_uri {
        Some(uri) => {
            let latest: Vec<char> = latest_tag(uri);
            if newer_chars(&latest, &chars_of(current_version)) {
                CheckOutcome::Newer
            } else {
                CheckOutcome::UpToDate
            }
        },
        None => CheckOutcome::Failed,
    }
}

/// What stands before the tag in a release's address.
pub open spec fn tag_marker() -> Seq<char> {
    seq!['/', 't', 'a', 'g', '/']
}

/// Whether the marker stands at a position.
pub open spec fn marks_tag(uri: Seq<char>, at: int) -> bool {
    0 <= at && at + 5 <= uri.len() && uri.subrange(at, at + 5) == tag_marker()
}

/// Whether a position is where the tag begins: behind the last marker, or at
/// the start where there is none.
pub open spec fn tag_begins(uri: Seq<char>, at: int) -> bool {
    if exists|i: int| marks_tag(uri, i) {
        marks_tag(uri, at - 5) && forall|j: int| at - 5 < j ==> !marks_tag(uri, j)
    } else {
        at == 0
    }
}

/// A text without the `v`s it begins with.
pub open spec fn without_v(s: Seq<char>) -> Seq<char>
    decreases s.len(),
{
    if s.len() > 0 && s[0] == 'v' {
        without_v(s.skip(1))
    } else {
        s
    }
}

/// The version in the address of a release: what follows the last marker,
/// without a leading `v`.
pub open spec fn tag_of(uri: Seq<char>) -> Seq<char> {
    without_v(uri.skip(choose|at: int| tag_begins(uri, at)))
}

fn marker_at(uri: &Vec<char>, at: usize) -> (r: bool)
    requires
        at + 5 <= uri@.len(),
    ensures
        r == marks_tag(uri@, at as int),
{
    assert(uri.len() == uri@.len());
    let r: bool = uri[at] == '/' && uri[at + 1] == 't' && uri[at + 2] == 'a' && uri[at + 3] == 'g'
        && uri[at + 4] == '/';
    let ghost window = uri@.subrange(at as int, at + 5);
    proof {
        if r {
            assert(window =~= tag_marker());
        } else {
            assert(window[0] == uri@[at as int] && window[1] == uri@[at + 1] && window[2]
                == uri@[at + 2] && window[3] == uri@[at + 3] && window[4] == uri@[at + 4]);
        }
    }
    r
}

/// The version in the address the latest release was redirected to.
pub fn latest_tag(final_uri: &str) -> (tag: Vec<char>)
    ensures
        tag@ == tag_of(final_uri@),
{
    let uri: Vec<char> = chars_of(final_uri);
    let len: usize = uri.len();
    let mut start: usize = 0;
    if len >= 5 {
        let mut i: usize = len - 4;
        while i > 0
            invariant_except_break
                len == uri@.len(),
                uri@ == final_uri@,
                i + 4 <= len,
                start == 0,
                forall|j: int| i <= j ==> !marks_tag(uri@, j),
            ensures
                start <= len,
                tag_begins(uri@, start as int),
            decreases i,
        {
            if marker_at(&uri, i - 1) {
                start = i + 4;
                break;
            }
            i -= 1;
        }
    }
    assert(tag_begins(uri@, start as int));
    assert forall|at: int| tag_begins(uri@, at) implies at == start by {
        if exists|i: int| marks_tag(uri@, i) {
            assert(marks_tag(uri@, start - 5));
        }
    }
    let ghost rest = uri@.skip(start as int);
    assert(rest.skip(0) =~= rest);
    let mut k: usize = start;
    while k < len && uri[k] == 'v'
        invariant
            start <= k <= len,
            len == uri@.len(),
            rest == uri@.skip(start as int),
            without_v(rest) == without_v(rest.skip(k - start)),
        decreases len - k,
    {
        assert(rest.skip(k - start).skip(1) =~= rest.skip(k + 1 - start));
        k += 1;
    }
    let tag: Vec<char> = vstd::slice::slice_to_vec(
        vstd::slice::slice_subrange(uri.as_slice(), k, len),
    );
    assert(tag@ =~= rest.skip(k - start));
    tag
}

/// The pieces of a text between its dots.
pub open spec fn pieces(s: Seq<char>) -> Seq<Seq<char>>
    decreases s.len(),
{
    if s.len() == 0 {
        seq![Seq::empty()]
    } else {
        let before = pieces(s.drop_last());
        if s.last() == '.' {
            before.push(Seq::empty())
        } else {
            before.drop_last().push(before.last().push(s.last()))
        }
    }
}

/// Whether a text is made of decimal digits.
pub open spec fn all_digits(s: Seq<char>) -> bool {
    forall|i: int| 0 <= i < s.len() ==> '0' <= #[trigger] s[i] <= '9'
}

/// The value of a run of decimal digits.
pub open spec fn value(s: Seq<char>) -> int
    decreases s.len(),
{
    if s.len() == 0 {
        0
    } else {
        value(s.drop_last()) * 10 + (s.last() as int - '0' as int)
    }
}

/// The number a piece stands for: decimal digits, behind a plus sign or not,
/// that fit in 32 bits.
pub open spec fn number(piece: Seq<char>) -> Option<u32> {
    let digits = if piece.len() > 0 && piece[0] == '+' {
        piece.skip(1)
    } else {
        piece
    };
    if digits.len() > 0 && all_digits(digits) && value(digits) <= u32::MAX {
        Some(value(digits) as u32)
    } else {
        None
    }
}

/// The numbers among some pieces, in order.
pub open spec fn numbers_in(pieces: Seq<Seq<char>>) -> Seq<u32>
    decreases pieces.len(),
{
    if pieces.len() == 0 {
        Seq::empty()
    } else {
        match number(pieces.last()) {
            Some(n) => numbers_in(pieces.drop_last()).push(n),
            None => numbers_in(pieces.drop_last()),
        }
    }
}

/// The numbers of a version.
pub open spec fn numbers(version: Seq<char>) -> Seq<u32> {
    numbers_in(pieces(version))
}

/// Whether a list of numbers comes after another: at the first place where they
/// differ it has the greater number, or only it goes on.
pub open spec fn after(a: Seq<u32>, b: Seq<u32>) -> bool {
    exists|i: int| #[trigger] differs_upwards(a, b, i)
}

/// Whether two lists agree before `i`, where the first has the greater number
/// or alone goes on.
pub open spec fn differs_upwards(a: Seq<u32>, b: Seq<u32>, i: int) -> bool {
    &&& 0 <= i < a.len()
    &&& i <= b.len()
    &&& forall|j: int| 0 <= j < i ==> #[trigger] a[j] == b[j]
    &&& i < b.len() ==> a[i] > b[i]
}

/// The code points of a text.
pub open spec fn code_points(s: Seq<char>) -> Seq<u32> {
    s.map_values(|c: char| c as u32)
}

/// Whether a version is newer than another: by their numbers, or as texts where
/// one of them has none.
pub open spec fn newer(latest: Seq<char>, current: Seq<char>) -> bool {
    let l = numbers(latest);
    let c = numbers(current);
    if l.len() == 0 || c.len() == 0 {
        after(code_points(latest), code_points(current))
    } else {
        after(l, c)
    }
}

/// Whether a list of numbers comes after another.
fn comes_after(a: &Vec<u32>, b: &Vec<u32>) -> (r: bool)
    ensures
        r == after(a@, b@),
{
    let mut i: usize = 0;
    while i < a.len() && i < b.len()
        invariant
            i <= a@.len(),
            i <= b@.len(),
            forall|j: int| 0 <= j < i ==> #[trigger] a@[j] == b@[j],
        decreases a@.len() - i,
    {
        if a[i] > b[i] {
            assert(differs_upwards(a@, b@, i as int));
            return true;
        }
        if a[i] < b[i] {
            assert forall|k: int| !differs_upwards(a@, b@, k) by {
                if differs_upwards(a@, b@, k) && k > i {
                    assert(a@[i as int] == b@[i as int]);
                }
            }
            return false;
        }
        i += 1;
    }
    if a.len() > b.len() {
        assert(differs_upwards(a@, b@, i as int));
    } else {
        assert forall|k: int| !differs_upwards(a@, b@, k) by {
            if differs_upwards(a@, b@, k) {
                assert(a@[k] == b@[k]);
            }
        }
    }
    a.len() > b.len()
}

proof fn lemma_value_grows(s: Seq<char>, i: int)
    requires
        all_digits(s),
        0 <= i <= s.len(),
    ensures
        0 <= value(s.take(i)) <= value(s),
    decreases s.len(),
{
    if i == s.len() {
        assert(s.take(i) =~= s);
        if s.len() > 0 {
            assert(all_digits(s.drop_last()));
            lemma_value_grows(s.drop_last(), s.len() - 1);
            assert(s.drop_last().take(s.len() - 1) =~= s.drop_last());
        }
    } else {
        assert(all_digits(s.drop_last()));
        lemma_value_grows(s.drop_last(), i);
        assert(s.drop_last().take(i) =~= s.take(i));
    }
}

/// The number a piece stands for.
pub fn parse(piece: &Vec<char>) -> (n: Option<u32>)
    ensures
        n == number(piece@),
{
    let len: usize = piece.len();
    let start: usize = if len > 0 && piece[0] == '+' {
        1
    } else {
        0
    };
    let ghost digits = piece@.skip(start as int);
    assert(piece@.skip(0) =~= piece@);
    if start == len {
        return None;
    }
    let mut n: u64 = 0;
    let mut i: usize = start;
    assert(digits.take(0) =~= Seq::empty());
    while i < len
        invariant
            start <= i <= len,
            start <= 1,
            len == piece@.len(),
            digits == piece@.skip(start as int),
            digits.len() > 0,
            number(piece@) == (if all_digits(digits) && value(digits) <= u32::MAX {
                Some(value(digits) as u32)
            } else {
                None
            }),
            all_digits(digits.take(i - start)),
            n == value(digits.take(i - start)),
            n <= u32::MAX,
        decreases len - i,
    {
        let c: char = piece[i];
        if c < '0' || c > '9' {
            assert(digits[i - start] == c);
            return None;
        }
        let digit: u64 = c as u64 - '0' as u64;
        proof {
            let upto = digits.take(i + 1 - start);
            assert(upto.drop_last() =~= digits.take(i - start));
            assert(upto.last() == c);
            assert forall|j: int| 0 <= j < upto.len() implies '0' <= #[trigger] upto[j] <= '9' by {
                if j < i - start {
                    assert(digits.take(i - start)[j] == upto[j]);
                }
            }
        }
        n = n * 10 + digit;
        if n > u32::MAX as u64 {
            proof {
                if all_digits(digits) {
                    lemma_value_grows(digits, i + 1 - start);
                }
            }
            return None;
        }
        i += 1;
    }
    assert(digits.take(len - start) =~= digits);
    Some(n as u32)
}

/// The numbers of a version: what stands between its dots, as far as it is a
/// number.
fn version_numbers(version: &Vec<char>) -> (list: Vec<u32>)
    ensures
        list@ == numbers(version@),
{
    let mut list: Vec<u32> = Vec::new();
    let mut piece: Vec<char> = Vec::new();
    let mut i: usize = 0;
    assert(version@.take(0) =~= Seq::empty());
    assert(pieces(version@.take(0)).drop_last() =~= Seq::empty());
    while i < version.len()
        invariant
            i <= version@.len(),
            pieces(version@.take(i as int)).len() > 0,
            piece@ == pieces(version@.take(i as int)).last(),
            list@ == numbers_in(pieces(version@.take(i as int)).drop_last()),
        decreases version@.len() - i,
    {
        let c: char = version[i];
        let ghost upto = version@.take(i + 1);
        let ghost before = pieces(version@.take(i as int));
        assert(upto.drop_last() =~= version@.take(i as int));
        assert(upto.last() == c);
        if c == '.' {
            if let Some(n) = parse(&piece) {
                list.push(n);
            }
            piece = Vec::new();
            assert(pieces(upto).drop_last() =~= before);
            assert(piece@ =~= pieces(upto).last());
        } else {
            piece.push(c);
            assert(pieces(upto).drop_last() =~= before.drop_last());
        }
        i += 1;
    }
    assert(version@.take(i as int) =~= version@);
    if let Some(n) = parse(&piece) {
        list.push(n);
    }
    list
}

fn code_points_of(s: &Vec<char>) -> (points: Vec<u32>)
    ensures
        points@ == code_points(s@),
{
    let mut points: Vec<u32> = Vec::new();
    let mut i: usize = 0;
    while i < s.len()
        invariant
            i <= s@.len(),
            points@ == code_points(s@.take(i as int)),
        decreases s@.len() - i,
    {
        points.push(s[i] as u32);
        i += 1;
        assert(points@ =~= code_points(s@.take(i as int)));
    }
    assert(s@.take(i as int) =~= s@);
    points
}

fn newer_chars(latest: &Vec<char>, current: &Vec<char>) -> (r: bool)
    ensures
        r == newer(latest@, current@),
{
    let l: Vec<u32> = version_numbers(latest);
    let c: Vec<u32> = version_numbers(current);
    if l.len() == 0 || c.len() == 0 {
        return comes_after(&code_points_of(latest), &code_points_of(current));
    }
    comes_after(&l, &c)
}

/// Crude version comparison: split on `.`, leave out the parts that are no
/// numbers, and compare the numbers one by one. Where one of the versions has no
/// numbers at all, the texts are compared instead. Sufficient for tags shaped
/// like `0.0.2`; pre-release and build metadata are out of scope.
pub fn newer_than(latest: &str, current: &str) -> (r: bool)
    ensures
        r == newer(latest@, current@),
{
    newer_chars(&chars_of(latest), &chars_of(current))
}

proof fn lemma_after_is_strict(a: Seq<u32>, b: Seq<u32>)
    ensures
        !after(a, a),
        after(a, b) ==> !after(b, a),
{
    if after(a, a) {
        let i = choose|i: int| #[trigger] differs_upwards(a, a, i);
    }
    if after(a, b) && after(b, a) {
        let i = choose|i: int| #[trigger] differs_upwards(a, b, i);
        let j = choose|j: int| #[trigger] differs_upwards(b, a, j);
        if i < j {
            assert(b[i] == a[i]);
        } else if j < i {
            assert(a[j] == b[j]);
        }
    }
}

/// No version is newer than itself, and of two versions at most one is newer
/// than the other.
pub proof fn law_newer_is_irreflexive_and_asymmetric(a: Seq<char>, b: Seq<char>)
    ensures
        !newer(a, a),
        newer(a, b) ==> !newer(b, a),
{
    lemma_after_is_strict(numbers(a), numbers(b));
    lemma_after_is_strict(code_points(a), code_points(b));
}

proof fn lemma_after_is_transitive(x: Seq<u32>, y: Seq<u32>, z: Seq<u32>)
    requires
        after(x, y),
        after(y, z),
    ensures
        after(x, z),
{
    let i = choose|i: int| #[trigger] differs_upwards(x, y, i);
    let j = choose|j: int| #[trigger] differs_upwards(y, z, j);
    let k = if i < j {
        i
    } else {
        j
    };
    assert forall|m: int| 0 <= m < k implies #[trigger] x[m] == z[m] by {
        assert(x[m] == y[m]);
        assert(y[m] == z[m]);
    }
    if i < j {
        assert(y[i] == z[i]);
    } else if j < i {
        assert(x[j] == y[j]);
    }
    assert(differs_upwards(x, z, k));
}

/// Whether a version has a number.
pub open spec fn numbered(version: Seq<char>) -> bool {
    numbers(version).len() > 0
}

/// What is newer than a newer version is newer, unless exactly two of the three
/// have numbers: then one pair is compared by numbers and the others as texts.
pub proof fn law_newer_is_transitive(a: Seq<char>, b: Seq<char>, c: Seq<char>)
    requires
        newer(a, b),
        newer(b, c),
        !(numbered(a) && numbered(b) && !numbered(c)),
        !(numbered(a) && !numbered(b) && numbered(c)),
        !(!numbered(a) && numbered(b) && numbered(c)),
    ensures
        newer(a, c),
{
    if numbered(a) && numbered(b) && numbered(c) {
        lemma_after_is_transitive(numbers(a), numbers(b), numbers(c));
    } else {
        lemma_after_is_transitive(code_points(a), code_points(b), code_points(c));
    }
}

/// The tag of a release never begins with a `v`.
pub proof fn law_a_tag_has_no_leading_v(uri: Seq<char>)
    ensures
        tag_of(uri).len() > 0 ==> tag_of(uri)[0] != 'v',
{
    lemma_without_v(uri.skip(choose|at: int| tag_begins(uri, at)));
}

proof fn lemma_without_v(s: Seq<char>)
    ensures
        without_v(s).len() > 0 ==> without_v(s)[0] != 'v',
    decreases s.len(),
{
    if s.len() > 0 && s[0] == 'v' {
        lemma_without_v(s.skip(1));
    }
}

/// A text without a dot is one piece, and a dot separates what stands before it
/// from what stands behind it.
pub proof fn law_versions_are_split_at_dots(a: Seq<char>, b: Seq<char>)
    ensures
        (forall|i: int| 0 <= i < a.len() ==> #[trigger] a[i] != '.') ==> pieces(a) == seq![a],
        pieces(a.push('.') + b) == pieces(a) + pieces(b),
    decreases a.len() + b.len(),
{
    lemma_no_dot_is_one_piece(a);
    lemma_a_dot_splits(a, b);
}

proof fn lemma_pieces_are_not_empty(s: Seq<char>)
    ensures
        pieces(s).len() > 0,
    decreases s.len(),
{
    if s.len() > 0 {
        lemma_pieces_are_not_empty(s.drop_last());
    }
}

proof fn lemma_no_dot_is_one_piece(s: Seq<char>)
    ensures
        (forall|i: int| 0 <= i < s.len() ==> #[trigger] s[i] != '.') ==> pieces(s) == seq![s],
    decreases s.len(),
{
    if s.len() == 0 {
        assert(s =~= Seq::empty());
    } else if forall|i: int| 0 <= i < s.len() ==> #[trigger] s[i] != '.' {
        let before = s.drop_last();
        assert forall|i: int| 0 <= i < before.len() implies #[trigger] before[i] != '.' by {
            assert(s[i] != '.');
        }
        lemma_no_dot_is_one_piece(before);
        assert(s[s.len() - 1] != '.');
        assert(before.push(s.last()) =~= s);
        assert(pieces(s) =~= seq![s]);
    }
}

proof fn lemma_a_dot_splits(a: Seq<char>, b: Seq<char>)
    ensures
        pieces(a.push('.') + b) == pieces(a) + pieces(b),
    decreases b.len(),
{
    let all = a.push('.') + b;
    if b.len() == 0 {
        assert(all.drop_last() =~= a);
        assert(all.last() == '.');
        assert(pieces(all) =~= pieces(a) + pieces(b));
    } else {
        lemma_a_dot_splits(a, b.drop_last());
        lemma_pieces_are_not_empty(b.drop_last());
        assert(all.drop_last() =~= a.push('.') + b.drop_last());
        assert(all.last() == b.last());
        assert(pieces(all) =~= pieces(a) + pieces(b));
    }
}

/// The number of a text of decimal digits is their value, one digit at a time,
/// whether a plus sign stands before them or not, as far as it fits in 32 bits;
/// nothing else is a number.
pub proof fn law_numbers_are_decimal(s: Seq<char>, digit: char)
    ensures
        value(Seq::empty()) == 0,
        value(s.push(digit)) == 10 * value(s) + (digit as int - 0x30),
        s.len() > 0 && (forall|i: int| 0 <= i < s.len() ==> 0x30 <= #[trigger] s[i] as int <= 0x39)
            && value(s) <= 0xffff_ffff ==> number(s) == Some(value(s) as u32) && number(
            seq!['+'] + s,
        ) == Some(value(s) as u32),
        s.len() > 0 && (forall|i: int| 0 <= i < s.len() ==> 0x30 <= #[trigger] s[i] as int <= 0x39)
            && value(s) > 0xffff_ffff ==> number(s) is None && number(seq!['+'] + s) is None,
        s.len() == 0 ==> number(s) is None,
        (exists|i: int|
            1 <= i < s.len() && !(0x30 <= #[trigger] s[i] as int <= 0x39)) ==> number(s) is None,
        s.len() > 0 && !(0x30 <= s[0] as int <= 0x39) && s[0] != '+' ==> number(s) is None,
        s.len() == 1 && s[0] == '+' ==> number(s) is None,
{
    assert(s.push(digit).drop_last() =~= s);
    assert((seq!['+'] + s).skip(1) =~= s);
    if s.len() > 0 && (forall|i: int|
        0 <= i < s.len() ==> 0x30 <= #[trigger] s[i] as int <= 0x39) {
        assert(s[0] != '+');
        assert(all_digits(s));
    }
    if exists|i: int| 1 <= i < s.len() && !(0x30 <= #[trigger] s[i] as int <= 0x39) {
        let i = choose|i: int| 1 <= i < s.len() && !(0x30 <= #[trigger] s[i] as int <= 0x39);
        assert(s.skip(1)[i - 1] == s[i]);
        if s[0] == '+' {
            assert(!all_digits(s.skip(1)));
        } else {
            assert(!all_digits(s));
        }
    }
    if s.len() > 0 && !(0x30 <= s[0] as int <= 0x39) && s[0] != '+' {
        assert(!all_digits(s));
    }
}

/// The numbers of a version are those of its pieces, in order, the pieces that
/// are none left out.
pub proof fn law_pieces_that_are_no_numbers_are_left_out(
    a: Seq<Seq<char>>,
    piece: Seq<char>,
    b: Seq<Seq<char>>,
)
    ensures
        numbers_in(a + b) == numbers_in(a) + numbers_in(b),
        number(piece) matches Some(n) ==> numbers_in(seq![piece]) == seq![n],
        number(piece) is None ==> numbers_in(seq![piece]) == Seq::<u32>::empty(),
    decreases b.len(),
{
    reveal_with_fuel(numbers_in, 2);
    assert(seq![piece].drop_last() =~= Seq::empty());
    if number(piece) is Some {
        assert(numbers_in(seq![piece]) =~= seq![number(piece)->0]);
    }
    if b.len() == 0 {
        assert(a + b =~= a);
        assert(numbers_in(a + b) =~= numbers_in(a) + numbers_in(b));
    } else {
        law_pieces_that_are_no_numbers_are_left_out(a, piece, b.drop_last());
        assert((a + b).drop_last() =~= a + b.drop_last());
        assert((a + b).last() == b.last());
        assert(numbers_in(a + b) =~= numbers_in(a) + numbers_in(b));
    }
}

/// Of two lists that begin alike the rest decides; of two that do not, the first
/// numbers do; and a list comes after the one it continues.
pub proof fn law_lists_are_ordered_from_the_front(common: Seq<u32>, a: Seq<u32>, b: Seq<u32>)
    ensures
        a.len() > 0 && b.len() > 0 && a[0] != b[0] ==> (after(common + a, common + b) <==> a[0]
            > b[0]),
        a.len() > 0 ==> after(common + a, common) && !after(common, common + a),
        !after(common, common),
{
    let x = common + a;
    let y = common + b;
    let n = common.len() as int;
    lemma_after_is_strict(x, y);
    lemma_after_is_strict(y, x);
    lemma_after_is_strict(x, common);
    lemma_after_is_strict(common, common);
    if a.len() > 0 {
        assert(differs_upwards(x, common, n));
        if b.len() > 0 {
            assert(x[n] == a[0] && y[n] == b[0]);
            if a[0] > b[0] {
                assert(differs_upwards(x, y, n));
            }
            if a[0] < b[0] {
                assert(differs_upwards(y, x, n));
            }
        }
    }
}

/// Versions with numbers are compared by their numbers, and as texts, character
/// by character, where one of them has none.
pub proof fn law_versions_compare_by_number_or_as_texts(a: Seq<char>, b: Seq<char>)
    ensures
        numbers(a) == numbers_in(pieces(a)),
        numbers(a).len() > 0 && numbers(b).len() > 0 ==> newer(a, b) == after(
            numbers(a),
            numbers(b),
        ),
        numbers(a).len() == 0 || numbers(b).len() == 0 ==> newer(a, b) == after(
            code_points(a),
            code_points(b),
        ),
        code_points(a).len() == a.len(),
        forall|i: int| 0 <= i < a.len() ==> #[trigger] code_points(a)[i] == a[i] as u32,
{
}

/// Of two versions that agree up to their last part, the one with the greater
/// number there is newer; and a version with a number added is newer than the
/// one without, where that has a number.
pub proof fn law_the_first_greater_part_is_newer(
    common: Seq<char>,
    x: Seq<char>,
    y: Seq<char>,
)
    requires
        forall|i: int| 0 <= i < x.len() ==> #[trigger] x[i] != '.',
        forall|i: int| 0 <= i < y.len() ==> #[trigger] y[i] != '.',
        number(x) is Some,
        number(y) is Some,
    ensures
        newer(common.push('.') + x, common.push('.') + y) <==> number(x)->0 > number(y)->0,
        newer(x, y) <==> number(x)->0 > number(y)->0,
        numbers(common).len() > 0 ==> newer(common.push('.') + x, common),
{
    let m = number(x)->0;
    let n = number(y)->0;
    law_versions_are_split_at_dots(common, x);
    law_versions_are_split_at_dots(common, y);
    law_versions_are_split_at_dots(x, y);
    law_versions_are_split_at_dots(y, x);
    law_pieces_that_are_no_numbers_are_left_out(pieces(common), x, seq![x]);
    law_pieces_that_are_no_numbers_are_left_out(pieces(common), y, seq![y]);
    let before = numbers(common);
    assert(numbers(common.push('.') + x) == before + seq![m]);
    assert(numbers(common.push('.') + y) == before + seq![n]);
    law_lists_are_ordered_from_the_front(before, seq![m], seq![n]);
    law_lists_are_ordered_from_the_front(Seq::empty(), seq![m], seq![n]);
    assert(Seq::<u32>::empty() + seq![m] =~= seq![m]);
    assert(Seq::<u32>::empty() + seq![n] =~= seq![n]);
    if m == n {
        lemma_after_is_strict(before + seq![m], before + seq![n]);
        lemma_after_is_strict(seq![m], seq![n]);
    }
}

/// The marker is the five characters `/tag/`.
pub proof fn law_the_marker_is_spelt_out(uri: Seq<char>, at: int)
    ensures
        marks_tag(uri, at) <==> 0 <= at && at + 5 <= uri.len() && uri[at] == '/' && uri[at + 1]
            == 't' && uri[at + 2] == 'a' && uri[at + 3] == 'g' && uri[at + 4] == '/',
{
    if 0 <= at && at + 5 <= uri.len() {
        let window = uri.subrange(at, at + 5);
        assert(window[0] == uri[at] && window[1] == uri[at + 1] && window[2] == uri[at + 2]
            && window[3] == uri[at + 3] && window[4] == uri[at + 4]);
        if uri[at] == '/' && uri[at + 1] == 't' && uri[at + 2] == 'a' && uri[at + 3] == 'g'
            && uri[at + 4] == '/' {
            assert(window =~= tag_marker());
        }
    }
}

/// The tag is what follows the last marker of the address, without the `v`s it
/// begins with.
pub proof fn law_the_tag_follows_the_last_marker(
    uri: Seq<char>,
    at: int,
    vs: Seq<char>,
    tag: Seq<char>,
)
    requires
        marks_tag(uri, at),
        forall|j: int| at < j ==> !#[trigger] marks_tag(uri, j),
        uri.skip(at + 5) == vs + tag,
        forall|i: int| 0 <= i < vs.len() ==> #[trigger] vs[i] == 'v',
        tag.len() > 0 ==> tag[0] != 'v',
    ensures
        tag_of(uri) == tag,
{
    lemma_without_all_v(vs, tag);
    assert(tag_begins(uri, at + 5));
    let found = choose|found: int| tag_begins(uri, found);
    assert(tag_begins(uri, found));
    assert(marks_tag(uri, found - 5));
}

/// An address without a marker is the tag itself, without the `v`s it begins
/// with.
pub proof fn law_an_address_without_a_marker_is_the_tag(
    uri: Seq<char>,
    vs: Seq<char>,
    tag: Seq<char>,
)
    requires
        forall|j: int| !#[trigger] marks_tag(uri, j),
        uri == vs + tag,
        forall|i: int| 0 <= i < vs.len() ==> #[trigger] vs[i] == 'v',
        tag.len() > 0 ==> tag[0] != 'v',
    ensures
        tag_of(uri) == tag,
{
    lemma_without_all_v(vs, tag);
    assert(tag_begins(uri, 0));
    assert(uri.skip(0) =~= uri);
}

proof fn lemma_without_all_v(vs: Seq<char>, tag: Seq<char>)
    requires
        forall|i: int| 0 <= i < vs.len() ==> #[trigger] vs[i] == 'v',
        tag.len() > 0 ==> tag[0] != 'v',
    ensures
        without_v(vs + tag) == tag,
    decreases vs.len(),
{
    if vs.len() == 0 {
        assert(vs + tag =~= tag);
    } else {
        assert(vs[0] == 'v');
        assert((vs + tag).skip(1) =~= vs.skip(1) + tag);
        assert forall|i: int| 0 <= i < vs.skip(1).len() implies #[trigger] vs.skip(1)[i] == 'v' by {
            assert(vs[i + 1] == 'v');
        }
        lemma_without_all_v(vs.skip(1), tag);
    }
}

/// A check runs exactly where the user asked for it; it fails exactly where the
/// request did, and otherwise finds a newer release exactly where the tag of the
/// address is newer than the running version.
pub proof fn law_a_check_compares_the_tag(
    settings: AppSettings,
    check: bool,
    uri: &str,
    current: &str,
    tag: Vec<char>,
    latest: &str,
    newer_tag: bool,
    outcome: CheckOutcome,
    offline: CheckOutcome,
)
    requires
        call_ensures(maybe_check, (&settings,), check),
        call_ensures(latest_tag, (uri,), tag),
        latest@ == tag@,
        call_ensures(newer_than, (latest, current), newer_tag),
        call_ensures(run_check, (Some(uri), current), outcome),
        call_ensures(run_check, (None, current), offline),
    ensures
        check == settings.check_for_updates,
        offline is Failed,
        outcome is Newer <==> newer_tag,
        outcome is UpToDate <==> !newer_tag,
{
}

/// The tag that is taken from an address is what follows its last `/tag/`,
/// without the `v`s it begins with.
pub proof fn law_taking_the_tag_of_an_address(
    uri: &str,
    before: Seq<char>,
    vs: Seq<char>,
    rest: Seq<char>,
    tag: Vec<char>,
)
    requires
        call_ensures(latest_tag, (uri,), tag),
        uri@ == before + seq!['/', 't', 'a', 'g', '/'] + vs + rest,
        forall|i: int| 0 <= i < vs.len() ==> #[trigger] vs[i] == 'v',
        forall|i: int| 0 <= i < rest.len() ==> #[trigger] rest[i] != '/',
        rest.len() > 0 ==> rest[0] != 'v',
    ensures
        tag@ == rest,
{
    let at = before.len() as int;
    let whole = uri@;
    law_the_marker_is_spelt_out(whole, at);
    assert forall|j: int| at < j implies !#[trigger] marks_tag(whole, j) by {
        law_the_marker_is_spelt_out(whole, j);
        if marks_tag(whole, j) {
            let end = j + 4;
            assert(whole[end] == '/');
            if end < at + 5 + vs.len() {
                assert(whole[end] == vs[end - at - 5]);
            } else {
                assert(whole[end] == rest[end - at - 5 - vs.len()]);
            }
        }
    }
    assert(whole.skip(at + 5) =~= vs + rest);
    law_the_tag_follows_the_last_marker(whole, at, vs, rest);
}

/// Comparing goes part by part: of two versions that agree up to their last part
/// the greater number there is newer, and none is newer than itself.
pub proof fn law_comparing_goes_part_by_part(
    common: Seq<char>,
    x: Vec<char>,
    y: Vec<char>,
    m: Option<u32>,
    n: Option<u32>,
    latest: &str,
    current: &str,
    up: bool,
    down: bool,
    same: bool,
)
    requires
        call_ensures(parse, (&x,), m),
        call_ensures(parse, (&y,), n),
        m is Some,
        n is Some,
        forall|i: int| 0 <= i < x@.len() ==> #[trigger] x@[i] != '.',
        forall|i: int| 0 <= i < y@.len() ==> #[trigger] y@[i] != '.',
        latest@ == common.push('.') + x@,
        current@ == common.push('.') + y@,
        call_ensures(newer_than, (latest, current), up),
        call_ensures(newer_than, (current, latest), down),
        call_ensures(newer_than, (latest, latest), same),
    ensures
        up <==> m->0 > n->0,
        down <==> n->0 > m->0,
        !same,
{
    law_the_first_greater_part_is_newer(common, x@, y@);
    law_the_first_greater_part_is_newer(common, y@, x@);
    law_newer_is_irreflexive_and_asymmetric(latest@, current@);
}

/// Decimal digits are read as their value, one more digit at a time, and text
/// with anything else but one plus sign before it is no number.
pub proof fn law_reading_a_number(
    head: Vec<char>,
    digit: char,
    whole: Vec<char>,
    n: Option<u32>,
    m: Option<u32>,
)
    requires
        call_ensures(parse, (&head,), n),
        call_ensures(parse, (&whole,), m),
        whole@ == head@.push(digit),
        n is Some,
    ensures
        0x30 <= digit as int <= 0x39 && 10 * n->0 + (digit as int - 0x30) <= 0xffff_ffff ==> m
            == Some((10 * n->0 + (digit as int - 0x30)) as u32),
        0x30 <= digit as int <= 0x39 && 10 * n->0 + (digit as int - 0x30) > 0xffff_ffff ==> m
            is None,
        !(0x30 <= digit as int <= 0x39) ==> m is None,
{
    let h = head@;
    let w = whole@;
    law_numbers_are_decimal(h, digit);
    law_numbers_are_decimal(w, digit);
    if h[0] == '+' {
        let s = h.skip(1);
        law_numbers_are_decimal(s, digit);
        assert(w.skip(1) =~= s.push(digit));
        assert(s.push(digit).drop_last() =~= s);
        if 0x30 <= digit as int <= 0x39 {
            assert forall|i: int| 0 <= i < w.skip(1).len() implies '0' <= #[trigger] w.skip(
                1,
            )[i] <= '9' by {
                if i < s.len() {
                    assert(s[i] == w.skip(1)[i]);
                }
            }
            assert(all_digits(w.skip(1)));
        }
        lemma_value_grows(s, 0);
        assert(n->0 == value(s));
        assert(value(w.skip(1)) == 10 * value(s) + (digit as int - 0x30));
    } else if 0x30 <= digit as int <= 0x39 {
        assert forall|i: int| 0 <= i < w.len() implies '0' <= #[trigger] w[i] <= '9' by {
            if i < h.len() {
                assert(h[i] == w[i]);
            }
        }
        assert(all_digits(w));
        assert(h.len() > 0 && w[0] == h[0]);
        lemma_value_grows(h, 0);
        assert(n->0 == value(h));
        assert(value(w) == 10 * value(h) + (digit as int - 0x30));
    }
    if !(0x30 <= digit as int <= 0x39) {
        assert(w[w.len() - 1] == digit);
    }
}

} // verus!
