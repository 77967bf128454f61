//! Paths as text: which of them stand under the home directory, how two are put
//! together, and when two are the same. How a path is written depends on the
//! system; a path by itself does not tell, so that every function is told.

use crate::text;
use vstd::prelude::*;

verus! {

/// How the system writes its paths.
#[derive(Debug, Clone, Copy, PartialEq, Eq, Structural)]
pub enum PathStyle {
    /// With slashes.
    Unix,
    /// With slashes or backslashes, and with a drive or a share in front.
    Windows,
}

/// What stands between the parts of a path.
#[derive(Debug, Clone, Copy, PartialEq, Eq, Structural)]
pub enum Divider {
    Slash,
    Backslash,
    Either,
}

impl Divider {
    /// Whether a character divides parts.
    pub open spec fn has(self, c: char) -> bool {
        c == '/' && self != Divider::Backslash || c == '\\' && self != Divider::Slash
    }

    fn divides(self, c: char) -> (r: bool)
        ensures
            r == self.has(c),
    {
        match self {
            Divider::Slash => c == '/',
            Divider::Backslash => c == '\\',
            Divider::Either => c == '/' || c == '\\',
        }
    }
}

impl PathStyle {
    /// What stands between the parts of an ordinary path.
    pub open spec fn divider(self) -> Divider {
        match self {
            PathStyle::Unix => Divider::Slash,
            PathStyle::Windows => Divider::Either,
        }
    }

    fn dividing(self) -> (r: Divider)
        ensures
            r == self.divider(),
    {
        match self {
            PathStyle::Unix => Divider::Slash,
            PathStyle::Windows => Divider::Either,
        }
    }

    /// Whether a character divides the parts of an ordinary path.
    pub open spec fn divides(self, c: char) -> bool {
        self.divider().has(c)
    }

    fn is_divided_by(self, c: char) -> (r: bool)
        ensures
            r == self.divides(c),
    {
        self.dividing().divides(c)
    }
}

/// Where the part that begins at `from` ends.
pub open spec fn part_end(divider: Divider, path: Seq<char>, from: int) -> int
    decreases path.len() - from,
{
    if from >= path.len() {
        path.len() as int
    } else if divider.has(path[from]) {
        from
    } else {
        part_end(divider, path, from + 1)
    }
}

/// A part ends at the first divider, or at the end of the path.
pub proof fn parts_end_at_dividers(divider: Divider, path: Seq<char>, from: int)
    requires
        0 <= from <= path.len(),
    ensures
        from <= part_end(divider, path, from) <= path.len(),
        part_end(divider, path, from) < path.len() ==> divider.has(
            path[part_end(divider, path, from)],
        ),
        forall|i: int| from <= i < part_end(divider, path, from) ==> !divider.has(path[i]),
    decreases path.len() - from,
{
    if from < path.len() && !divider.has(path[from]) {
        parts_end_at_dividers(divider, path, from + 1);
    }
}

/// The part that begins at `from`; none where the path is over.
pub open spec fn part_at(divider: Divider, path: Seq<char>, from: int) -> Seq<char> {
    if from <= path.len() {
        path.subrange(from, part_end(divider, path, from))
    } else {
        Seq::empty()
    }
}

/// What a path of Windows can have in front of its parts.
#[derive(Debug, Clone, Copy, PartialEq, Eq, Structural)]
pub enum PrefixKind {
    Absent,
    /// `C:`
    Disk,
    /// `\\server\share`
    Share,
    /// `\\.\device`
    Device,
    /// `\\?\name`
    Verbatim,
    /// `\\?\UNC\server\share`
    VerbatimShare,
    /// `\\?\C:`
    VerbatimDisk,
}

impl PrefixKind {
    /// Whether the path behind it is taken to the letter: slashes and the part
    /// `.` have no meaning in it.
    pub open spec fn is_verbatim(self) -> bool {
        self == PrefixKind::Verbatim || self == PrefixKind::VerbatimShare || self
            == PrefixKind::VerbatimDisk
    }

    fn verbatim(self) -> (r: bool)
        ensures
            r == self.is_verbatim(),
    {
        match self {
            PrefixKind::Verbatim | PrefixKind::VerbatimShare | PrefixKind::VerbatimDisk => true,
            _ => false,
        }
    }

    /// Whether a path with it starts at a root without saying so.
    pub open spec fn implies_root(self) -> bool {
        self == PrefixKind::Share || self == PrefixKind::Device
    }

    fn rooted(self) -> (r: bool)
        ensures
            r == self.implies_root(),
    {
        match self {
            PrefixKind::Share | PrefixKind::Device => true,
            _ => false,
        }
    }
}

/// What a path has in front of its parts.
#[verifier::ext_equal]
pub struct PrefixView {
    pub kind: PrefixKind,
    /// The letter of a drive, as a capital.
    pub drive: char,
    /// The server of a share, or the name of a device.
    pub name: Seq<char>,
    pub share: Seq<char>,
    /// How many characters it is written with.
    pub size: nat,
}

/// Nothing in front of the parts.
pub open spec fn no_prefix() -> PrefixView {
    PrefixView {
        kind: PrefixKind::Absent,
        drive: ' ',
        name: Seq::empty(),
        share: Seq::empty(),
        size: 0,
    }
}

/// Whether the letter of a drive and a colon stand at `at`.
pub open spec fn has_drive(path: Seq<char>, at: int) -> bool {
    at + 2 <= path.len() && path[at + 1] == ':' && ('a' <= path[at] <= 'z' || 'A' <= path[at]
        <= 'Z')
}

/// The capital of a letter of ASCII.
pub open spec fn capital(c: char) -> char {
    if 'a' <= c <= 'z' {
        (c as int - 32) as char
    } else {
        c
    }
}

/// A server and its share from `from` on.
pub open spec fn share_prefix(
    kind: PrefixKind,
    divider: Divider,
    path: Seq<char>,
    from: int,
) -> PrefixView {
    let name = part_at(divider, path, from);
    let share = part_at(divider, path, from + name.len() + 1);
    PrefixView {
        kind,
        drive: ' ',
        name,
        share,
        size: if share.len() > 0 {
            (from + name.len() + 1 + share.len()) as nat
        } else {
            (from + name.len()) as nat
        },
    }
}

/// A name from `from` on.
pub open spec fn name_prefix(
    kind: PrefixKind,
    divider: Divider,
    path: Seq<char>,
    from: int,
) -> PrefixView {
    let name = part_at(divider, path, from);
    PrefixView { kind, drive: ' ', name, share: Seq::empty(), size: (from + name.len()) as nat }
}

/// A drive whose letter stands at `at`.
pub open spec fn drive_prefix(kind: PrefixKind, path: Seq<char>, at: int) -> PrefixView {
    PrefixView {
        kind,
        drive: capital(path[at]),
        name: Seq::empty(),
        share: Seq::empty(),
        size: (at + 2) as nat,
    }
}

/// What a path of Windows that begins with two dividers has in front.
pub open spec fn network_prefix(path: Seq<char>) -> PrefixView {
    let either = Divider::Either;
    if path.len() >= 4 && path.take(4) == seq!['\\', '\\', '?', '\\'] {
        if path.len() >= 8 && path.subrange(4, 7) == seq!['U', 'N', 'C'] && either.has(path[7]) {
            share_prefix(PrefixKind::VerbatimShare, Divider::Backslash, path, 8)
        } else if has_drive(path, 4) && (path.len() == 6 || either.has(path[6])) {
            drive_prefix(PrefixKind::VerbatimDisk, path, 4)
        } else {
            name_prefix(PrefixKind::Verbatim, Divider::Backslash, path, 4)
        }
    } else if path.len() >= 4 && path[2] == '.' && either.has(path[3]) {
        name_prefix(PrefixKind::Device, either, path, 4)
    } else {
        let share = share_prefix(PrefixKind::Share, either, path, 2);
        if share.name.len() > 0 && share.share.len() > 0 {
            share
        } else {
            no_prefix()
        }
    }
}

/// What a path has in front of its parts.
pub open spec fn prefix(style: PathStyle, path: Seq<char>) -> PrefixView {
    if style == PathStyle::Unix {
        no_prefix()
    } else if path.len() >= 2 && Divider::Either.has(path[0]) && Divider::Either.has(path[1]) {
        network_prefix(path)
    } else if has_drive(path, 0) {
        drive_prefix(PrefixKind::Disk, path, 0)
    } else {
        no_prefix()
    }
}

/// Whether a divider stands where the parts begin.
pub open spec fn is_rooted(style: PathStyle, path: Seq<char>) -> bool {
    prefix(style, path).size < path.len() && style.divides(path[prefix(style, path).size as int])
}

/// Whether the path begins with the part `.`.
pub open spec fn is_dotted(style: PathStyle, path: Seq<char>) -> bool {
    path.len() > 0 && path[0] == '.' && (path.len() == 1 || style.divides(path[1]))
}

/// Whether a part between two dividers names something. An empty part, from a
/// doubled divider or one at an end, does not, nor does the part `.` unless it is
/// taken to the letter.
pub open spec fn is_name(divider: Divider, part: Seq<char>) -> bool {
    part.len() > 0 && !(divider != Divider::Backslash && part.len() == 1 && part[0] == '.')
}

/// The names along the path from `from` on.
pub open spec fn names_from(divider: Divider, path: Seq<char>, from: int) -> Seq<Seq<char>>
    decreases path.len() - from,
    when 0 <= from
{
    if from >= path.len() {
        Seq::empty()
    } else {
        let end = part_end(divider, path, from);
        if end < from || end > path.len() {
            Seq::empty()
        } else {
            let part = path.subrange(from, end);
            let rest = if end < path.len() {
                names_from(divider, path, end + 1)
            } else {
                Seq::empty()
            };
            if is_name(divider, part) {
                seq![part] + rest
            } else {
                rest
            }
        }
    }
}

/// What stands between the parts of the path.
pub open spec fn divider_in(style: PathStyle, path: Seq<char>) -> Divider {
    if prefix(style, path).kind.is_verbatim() {
        Divider::Backslash
    } else {
        style.divider()
    }
}

/// Where the parts of the path begin.
pub open spec fn body_start(style: PathStyle, path: Seq<char>) -> int {
    if is_rooted(style, path) {
        prefix(style, path).size as int + 1
    } else {
        prefix(style, path).size as int
    }
}

/// The names along the path.
pub open spec fn names(style: PathStyle, path: Seq<char>) -> Seq<Seq<char>> {
    names_from(divider_in(style, path), path, body_start(style, path))
}

/// Whether the path starts at a root.
pub open spec fn has_root(style: PathStyle, path: Seq<char>) -> bool {
    is_rooted(style, path) || prefix(style, path).kind.implies_root()
}

/// Whether two paths have the same in front of their parts, however it is
/// written.
pub open spec fn is_same_prefix(a: PrefixView, b: PrefixView) -> bool {
    a.kind == b.kind && a.drive == b.drive && a.name == b.name && a.share == b.share
}

/// Whether two paths are the same one: the same in front of their parts, both
/// from a root or neither, both beginning with `.` or neither, and the same names
/// along them.
pub open spec fn is_same_path(style: PathStyle, a: Seq<char>, b: Seq<char>) -> bool {
    &&& is_same_prefix(prefix(style, a), prefix(style, b))
    &&& has_root(style, a) == has_root(style, b)
    &&& is_dotted(style, a) == is_dotted(style, b)
    &&& names(style, a) == names(style, b)
}

/// Whether a name is one that can be gone back from.
pub open spec fn is_plain_name(name: Seq<char>) -> bool {
    name != seq!['.'] && name != seq!['.', '.']
}

/// Where one comes to from `kept` along `steps`: the name `..` goes back.
pub open spec fn climbed(kept: Seq<Seq<char>>, steps: Seq<Seq<char>>) -> Seq<Seq<char>>
    decreases steps.len(),
{
    if steps.len() == 0 {
        kept
    } else {
        let before = climbed(kept, steps.drop_last());
        if steps.last() != seq!['.', '.'] {
            before.push(steps.last())
        } else if before.len() > 0 && is_plain_name(before.last()) {
            before.drop_last()
        } else {
            before
        }
    }
}

/// `path` taken from `base`, which is taken to the letter: what it holds is put
/// out for what it means.
pub open spec fn joined_verbatim(style: PathStyle, base: Seq<char>, path: Seq<char>) -> Seq<char> {
    let kept = if is_rooted(style, path) {
        Seq::empty()
    } else {
        names(style, base)
    };
    let all = climbed(kept, names(style, path));
    let root = if is_rooted(style, path) || is_rooted(style, base) || all.len() > 0 {
        seq!['\\']
    } else {
        Seq::empty()
    };
    base.take(prefix(style, base).size as int) + root + text::joined(all, seq!['\\'])
}

/// Whether nothing is put between `base` and what is taken from it.
pub open spec fn ends_open(style: PathStyle, base: Seq<char>) -> bool {
    ||| base.len() == 0
    ||| style.divides(base.last())
    ||| prefix(style, base).kind == PrefixKind::Disk && base.len() == 2
}

/// The divider that the system writes.
pub open spec fn written_divider(style: PathStyle) -> char {
    match style {
        PathStyle::Unix => '/',
        PathStyle::Windows => '\\',
    }
}

/// `path` taken from `base`. An absolute path stands by itself; on Windows one
/// with something in front of its parts does, and one from a root keeps what
/// `base` has in front of its parts.
pub open spec fn joined_path(style: PathStyle, base: Seq<char>, path: Seq<char>) -> Seq<char> {
    if prefix(style, path).kind != PrefixKind::Absent {
        path
    } else if prefix(style, base).kind.is_verbatim() && path.len() > 0 {
        joined_verbatim(style, base, path)
    } else if is_rooted(style, path) {
        base.take(prefix(style, base).size as int) + path
    } else if ends_open(style, base) {
        base + path
    } else {
        base + seq![written_divider(style)] + path
    }
}

/// Whether the first part of the path is `~`.
pub open spec fn is_under_home(style: PathStyle, path: Seq<char>) -> bool {
    path.len() > 0 && path[0] == '~' && (path.len() == 1 || style.divides(path[1]))
}

/// The path without the parts at its start that name nothing.
pub open spec fn named_start(style: PathStyle, path: Seq<char>) -> Seq<char>
    decreases path.len(),
{
    if path.len() > 0 && style.divides(path[0]) {
        named_start(style, path.skip(1))
    } else if path.len() == 1 && path[0] == '.' {
        Seq::empty()
    } else if is_dotted(style, path) {
        named_start(style, path.skip(2))
    } else {
        path
    }
}

/// The path without the parts at its end that name nothing.
pub open spec fn named_end(style: PathStyle, path: Seq<char>) -> Seq<char>
    decreases path.len(),
{
    if path.len() > 0 && style.divides(path.last()) {
        named_end(style, path.drop_last())
    } else if path.len() == 1 && path[0] == '.' {
        Seq::empty()
    } else if path.len() > 1 && path.last() == '.' && style.divides(path[path.len() - 2]) {
        named_end(style, path.take(path.len() - 2))
    } else {
        path
    }
}

/// What follows the part `~`.
pub open spec fn home_rest(style: PathStyle, path: Seq<char>) -> Seq<char> {
    if path.len() < 2 {
        Seq::empty()
    } else {
        named_end(style, named_start(style, path.skip(2)))
    }
}

/// The path with a first part `~` put out for the home directory.
pub open spec fn expanded(style: PathStyle, path: Seq<char>, home: Seq<char>) -> Seq<char> {
    if is_under_home(style, path) {
        joined_path(style, home, home_rest(style, path))
    } else {
        path
    }
}

/// What a path has in front of its parts is its start, and begins with a divider
/// or with the letter of a drive.
pub proof fn prefixes_start_paths(style: PathStyle, path: Seq<char>)
    ensures
        prefix(style, path).size <= path.len(),
        prefix(style, path).kind == PrefixKind::Absent <==> prefix(style, path).size == 0,
        prefix(style, path).size > 0 ==> style == PathStyle::Windows && (style.divides(path[0])
            || has_drive(path, 0)),
        prefix(style, path).kind.is_verbatim() ==> prefix(style, path).size >= 4 && path[0] == '\\',
{
    if style == PathStyle::Windows && path.len() >= 2 {
        assert(path.len() >= 4 ==> path.take(4)[0] == path[0]);
        lemma_part(Divider::Either, path, 2);
        lemma_part(Divider::Either, path, 4);
        lemma_part(Divider::Backslash, path, 4);
        lemma_part(Divider::Backslash, path, 8);
    }
}

/// A part, and the one behind it, lie within the path.
proof fn lemma_part(divider: Divider, path: Seq<char>, from: int)
    requires
        0 <= from,
    ensures
        from <= path.len() ==> from + part_at(divider, path, from).len() <= path.len(),
        ({
            let next = from + part_at(divider, path, from).len() + 1;
            part_at(divider, path, next).len() > 0 ==> next + part_at(divider, path, next).len()
                <= path.len()
        }),
{
    if from <= path.len() {
        parts_end_at_dividers(divider, path, from);
        let next = from + part_at(divider, path, from).len() + 1;
        if next <= path.len() {
            parts_end_at_dividers(divider, path, next);
        }
    }
}

/// What is left of a path to be put behind another does not begin with a divider.
pub proof fn named_start_is_relative(style: PathStyle, path: Seq<char>)
    ensures
        named_start(style, path).len() > 0 ==> !style.divides(named_start(style, path)[0]),
    decreases path.len(),
{
    if path.len() > 0 && style.divides(path[0]) {
        named_start_is_relative(style, path.skip(1));
    } else if path.len() == 1 && path[0] == '.' {
    } else if is_dotted(style, path) {
        named_start_is_relative(style, path.skip(2));
    }
}

/// An expanded path has no part `~` in front unless the home directory has.
pub proof fn expansion_is_complete(style: PathStyle, path: Seq<char>, home: Seq<char>)
    requires
        home.len() > 0,
        !is_under_home(style, home),
    ensures
        !is_under_home(style, expanded(style, path, home)),
        expanded(style, expanded(style, path, home), home) == expanded(style, path, home),
{
    if is_under_home(style, path) {
        let rest = home_rest(style, path);
        let e = expanded(style, path, home);
        prefixes_start_paths(style, rest);
        prefixes_start_paths(style, home);
        if prefix(style, rest).kind != PrefixKind::Absent {
            assert(e == rest);
        } else if prefix(style, home).kind.is_verbatim() && rest.len() > 0 {
            assert(e[0] == home[0]);
        } else if is_rooted(style, rest) {
            if prefix(style, home).size > 0 {
                assert(e[0] == home[0]);
            } else {
                assert(e =~= rest);
            }
        } else {
            assert(e[0] == home[0]);
            if home[0] == '~' {
                assert(home.len() > 1);
                assert(e[1] == home[1]);
            }
        }
    }
}

/// On Unix a path is its names, and a root or a dot where it begins with one.
pub proof fn unix_paths_have_no_prefix(a: Seq<char>, b: Seq<char>)
    ensures
        is_same_path(PathStyle::Unix, a, b) <==> {
            &&& (a.len() > 0 && a[0] == '/') == (b.len() > 0 && b[0] == '/')
            &&& is_dotted(PathStyle::Unix, a) == is_dotted(PathStyle::Unix, b)
            &&& names(PathStyle::Unix, a) == names(PathStyle::Unix, b)
        },
{
}

/// On Windows a path may be written with slashes or with backslashes.
pub proof fn windows_takes_either_divider(a: Seq<char>, b: Seq<char>, from: int)
    requires
        0 <= from <= a.len() == b.len(),
        forall|i: int|
            0 <= i < a.len() ==> #[trigger] a[i] == b[i] || Divider::Either.has(a[i])
                && Divider::Either.has(b[i]),
    ensures
        names_from(Divider::Either, a, from) == names_from(Divider::Either, b, from),
    decreases a.len() - from,
{
    if from < a.len() {
        lemma_same_part(a, b, from);
        parts_end_at_dividers(Divider::Either, a, from);
        let end = part_end(Divider::Either, a, from);
        assert(a.subrange(from, end) =~= b.subrange(from, end)) by {
            assert forall|i: int| from <= i < end implies a[i] == b[i] by {
                assert(!Divider::Either.has(a[i]));
            }
        }
        if end < a.len() {
            windows_takes_either_divider(a, b, end + 1);
        }
    }
}

proof fn lemma_same_part(a: Seq<char>, b: Seq<char>, from: int)
    requires
        0 <= from <= a.len() == b.len(),
        forall|i: int|
            0 <= i < a.len() ==> #[trigger] a[i] == b[i] || Divider::Either.has(a[i])
                && Divider::Either.has(b[i]),
    ensures
        part_end(Divider::Either, a, from) == part_end(Divider::Either, b, from),
    decreases a.len() - from,
{
    if from < a.len() {
        assert(a[from] == b[from] || Divider::Either.has(a[from]));
        if !Divider::Either.has(a[from]) {
            lemma_same_part(a, b, from + 1);
        }
    }
}

/// What a path has in front of its parts.
struct Prefix {
    kind: PrefixKind,
    drive: char,
    name: String,
    share: String,
    size: usize,
}

impl View for Prefix {
    type V = PrefixView;

    closed spec fn view(&self) -> PrefixView {
        PrefixView {
            kind: self.kind,
            drive: self.drive,
            name: self.name@,
            share: self.share@,
            size: self.size as nat,
        }
    }
}

/// A path together with its characters.
struct Letters<'a> {
    path: &'a str,
    chars: Vec<char>,
}

impl<'a> Letters<'a> {
    spec fn is_sound(&self) -> bool {
        self.chars@ == self.path@
    }

    fn new(path: &'a str) -> (r: Letters<'a>)
        ensures
            r.is_sound(),
            r.path == path,
    {
        Letters { path, chars: text::chars_of(path) }
    }

    fn part_end(&self, divider: Divider, from: usize) -> (r: usize)
        requires
            self.is_sound(),
            from <= self.path@.len(),
        ensures
            r == part_end(divider, self.path@, from as int),
            from <= r <= self.path@.len(),
    {
        let mut i: usize = from;
        while i < self.chars.len() && !divider.divides(self.chars[i])
            invariant
                self.is_sound(),
                from <= i <= self.path@.len(),
                part_end(divider, self.path@, i as int) == part_end(
                    divider,
                    self.path@,
                    from as int,
                ),
            decreases self.path@.len() - i,
        {
            i = i + 1;
        }
        i
    }

    fn part_at(&self, divider: Divider, from: usize) -> (r: String)
        requires
            self.is_sound(),
        ensures
            r@ == part_at(divider, self.path@, from as int),
            from <= self.path@.len() ==> from + r@.len() <= self.path@.len() <= usize::MAX,
            from > self.path@.len() ==> r@.len() == 0,
    {
        if from > self.chars.len() {
            let r = String::new();
            assert(r@ =~= Seq::empty());
            return r;
        }
        let end: usize = self.part_end(divider, from);
        self.path.substring_char(from, end).to_owned()
    }

    fn has_drive(&self, at: usize) -> (r: bool)
        requires
            self.is_sound(),
            at <= 4,
        ensures
            r == has_drive(self.path@, at as int),
    {
        if self.chars.len() < at + 2 || self.chars[at + 1] != ':' {
            return false;
        }
        let c = self.chars[at];
        'a' <= c && c <= 'z' || 'A' <= c && c <= 'Z'
    }

    fn share_prefix(&self, kind: PrefixKind, divider: Divider, from: usize) -> (r: Prefix)
        requires
            self.is_sound(),
            from <= self.path@.len(),
        ensures
            r@ == share_prefix(kind, divider, self.path@, from as int),
    {
        let name = self.part_at(divider, from);
        let end: usize = from + name.as_str().unicode_len();
        if end == self.chars.len() {
            let share = String::new();
            assert(share@ =~= Seq::empty());
            assert(part_at(divider, self.path@, end + 1) == Seq::<char>::empty());
            return Prefix { kind, drive: ' ', name, share, size: end };
        }
        let share = self.part_at(divider, end + 1);
        let count: usize = share.as_str().unicode_len();
        let size: usize = if count > 0 {
            end + 1 + count
        } else {
            end
        };
        Prefix { kind, drive: ' ', name, share, size }
    }

    fn name_prefix(&self, kind: PrefixKind, divider: Divider, from: usize) -> (r: Prefix)
        requires
            self.is_sound(),
            from <= self.path@.len(),
        ensures
            r@ == name_prefix(kind, divider, self.path@, from as int),
    {
        let name = self.part_at(divider, from);
        let size: usize = from + name.as_str().unicode_len();
        let share = String::new();
        assert(share@ =~= Seq::empty());
        Prefix { kind, drive: ' ', name, share, size }
    }

    fn drive_prefix(&self, kind: PrefixKind, at: usize) -> (r: Prefix)
        requires
            self.is_sound(),
            at <= 4,
            has_drive(self.path@, at as int),
        ensures
            r@ == drive_prefix(kind, self.path@, at as int),
    {
        let r = Prefix {
            kind,
            drive: capital_of(self.chars[at]),
            name: String::new(),
            share: String::new(),
            size: at + 2,
        };
        assert(r@ =~= drive_prefix(kind, self.path@, at as int));
        r
    }

    fn network_prefix(&self) -> (r: Prefix)
        requires
            self.is_sound(),
            self.path@.len() >= 2,
        ensures
            r@ == network_prefix(self.path@),
    {
        let either = Divider::Either;
        let size: usize = self.chars.len();
        let verbatim = size >= 4 && self.chars[0] == '\\' && self.chars[1] == '\\'
            && self.chars[2] == '?' && self.chars[3] == '\\';
        proof {
            let start = seq!['\\', '\\', '?', '\\'];
            if verbatim {
                assert(self.path@.take(4) =~= start);
            } else if size >= 4 {
                let head = self.path@.take(4);
                assert(head[0] == self.path@[0] && head[1] == self.path@[1] && head[2]
                    == self.path@[2] && head[3] == self.path@[3]);
            }
        }
        if verbatim {
            let unc = size >= 8 && self.chars[4] == 'U' && self.chars[5] == 'N' && self.chars[6]
                == 'C';
            proof {
                if unc {
                    assert(self.path@.subrange(4, 7) =~= seq!['U', 'N', 'C']);
                } else if size >= 8 {
                    let word = self.path@.subrange(4, 7);
                    assert(word[0] == self.path@[4] && word[1] == self.path@[5] && word[2]
                        == self.path@[6]);
                }
            }
            if unc && either.divides(self.chars[7]) {
                self.share_prefix(PrefixKind::VerbatimShare, Divider::Backslash, 8)
            } else if self.has_drive(4) && (size == 6 || either.divides(self.chars[6])) {
                self.drive_prefix(PrefixKind::VerbatimDisk, 4)
            } else {
                self.name_prefix(PrefixKind::Verbatim, Divider::Backslash, 4)
            }
        } else if size >= 4 && self.chars[2] == '.' && either.divides(self.chars[3]) {
            self.name_prefix(PrefixKind::Device, either, 4)
        } else {
            let share = self.share_prefix(PrefixKind::Share, either, 2);
            if share.name.as_str().is_empty() || share.share.as_str().is_empty() {
                absent()
            } else {
                share
            }
        }
    }

    fn prefix(&self, style: PathStyle) -> (r: Prefix)
        requires
            self.is_sound(),
        ensures
            r@ == prefix(style, self.path@),
            r.size <= self.path@.len(),
    {
        proof {
            prefixes_start_paths(style, self.path@);
        }
        match style {
            PathStyle::Unix => absent(),
            PathStyle::Windows => {
                let either = Divider::Either;
                if self.chars.len() >= 2 && either.divides(self.chars[0]) && either.divides(
                    self.chars[1],
                ) {
                    self.network_prefix()
                } else if self.has_drive(0) {
                    self.drive_prefix(PrefixKind::Disk, 0)
                } else {
                    absent()
                }
            },
        }
    }

    fn is_rooted(&self, style: PathStyle) -> (r: bool)
        requires
            self.is_sound(),
        ensures
            r == is_rooted(style, self.path@),
            r ==> prefix(style, self.path@).size < usize::MAX,
    {
        let size: usize = self.prefix(style).size;
        size < self.chars.len() && style.is_divided_by(self.chars[size])
    }

    fn is_dotted(&self, style: PathStyle) -> (r: bool)
        requires
            self.is_sound(),
        ensures
            r == is_dotted(style, self.path@),
    {
        let size: usize = self.chars.len();
        size > 0 && self.chars[0] == '.' && (size == 1 || style.is_divided_by(self.chars[1]))
    }

    /// Lists the names along the path.
    fn names(&self, style: PathStyle) -> (r: Vec<String>)
        requires
            self.is_sound(),
        ensures
            text::texts(r@) == names(style, self.path@),
    {
        let front = self.prefix(style);
        let divider = if front.kind.verbatim() {
            Divider::Backslash
        } else {
            style.dividing()
        };
        let mut from: usize = if self.is_rooted(style) {
            front.size + 1
        } else {
            front.size
        };
        let ghost path = self.path@;
        let ghost all = names(style, path);
        let mut r: Vec<String> = Vec::new();
        assert(text::texts(r@) + names_from(divider, path, from as int) =~= all);
        while from < self.chars.len()
            invariant
                self.is_sound(),
                path == self.path@,
                from <= path.len(),
                text::texts(r@) + names_from(divider, path, from as int) == all,
            decreases path.len() - from,
        {
            let ghost before = r@;
            let end: usize = self.part_end(divider, from);
            let ghost part = path.subrange(from as int, end as int);
            let ghost rest = if end < path.len() {
                names_from(divider, path, end + 1)
            } else {
                Seq::empty()
            };
            let literal = match divider {
                Divider::Backslash => true,
                _ => false,
            };
            let dot = !literal && end - from == 1 && self.chars[from] == '.';
            if end > from && !dot {
                assert(is_name(divider, part));
                r.push(self.path.substring_char(from, end).to_owned());
                assert(text::texts(r@) =~= text::texts(before) + seq![part]);
                assert(text::texts(r@) + rest =~= text::texts(before) + names_from(
                    divider,
                    path,
                    from as int,
                ));
            } else {
                assert(!is_name(divider, part));
            }
            if end == self.chars.len() {
                assert(names_from(divider, path, end as int) == Seq::<Seq<char>>::empty());
                from = end;
            } else {
                from = end + 1;
            }
        }
        assert(text::texts(r@) =~= all);
        r
    }
}

fn capital_of(c: char) -> (r: char)
    ensures
        r == capital(c),
{
    if 'a' <= c && c <= 'z' {
        let code: u8 = (c as u32 - 32) as u8;
        code as char
    } else {
        c
    }
}

fn absent() -> (r: Prefix)
    ensures
        r@ == no_prefix(),
{
    let r = Prefix {
        kind: PrefixKind::Absent,
        drive: ' ',
        name: String::new(),
        share: String::new(),
        size: 0,
    };
    assert(r@ =~= no_prefix());
    r
}

/// Whether two paths are the same one, as far as their text tells.
pub fn same_path(style: PathStyle, a: &str, b: &str) -> (r: bool)
    ensures
        r == is_same_path(style, a@, b@),
{
    let one = Letters::new(a);
    let other = Letters::new(b);
    let front = one.prefix(style);
    let other_front = other.prefix(style);
    if front.kind != other_front.kind || front.drive != other_front.drive || front.name
        != other_front.name || front.share != other_front.share {
        return false;
    }
    let implied = front.kind.rooted();
    if (one.is_rooted(style) || implied) != (other.is_rooted(style) || implied) {
        return false;
    }
    if one.is_dotted(style) != other.is_dotted(style) {
        return false;
    }
    let left = one.names(style);
    let right = other.names(style);
    same_names(&left, &right)
}

fn same_names(left: &Vec<String>, right: &Vec<String>) -> (r: bool)
    ensures
        r == (text::texts(left@) == text::texts(right@)),
{
    let ghost l = text::texts(left@);
    let ghost r = text::texts(right@);
    if left.len() != right.len() {
        assert(l.len() != r.len());
        return false;
    }
    for i in 0..left.len()
        invariant
            l == text::texts(left@),
            r == text::texts(right@),
            left@.len() == right@.len(),
            forall|j: int| 0 <= j < i ==> l[j] == r[j],
    {
        if left[i] != right[i] {
            assert(l[i as int] != r[i as int]);
            return false;
        }
        assert(l[i as int] == r[i as int]);
    }
    assert(l =~= r);
    true
}

/// Whether the first part of the path is `~`.
pub fn under_home(style: PathStyle, path: &str) -> (r: bool)
    ensures
        r == is_under_home(style, path@),
{
    let size: usize = path.unicode_len();
    size > 0 && path.get_char(0) == '~' && (size == 1 || style.is_divided_by(path.get_char(1)))
}

/// Goes from `kept` along `steps`.
fn climb(kept: Vec<String>, steps: &Vec<String>) -> (r: Vec<String>)
    ensures
        text::texts(r@) == climbed(text::texts(kept@), text::texts(steps@)),
{
    proof {
        reveal_strlit(".");
        reveal_strlit("..");
        assert("."@ =~= seq!['.']);
        assert(".."@ =~= seq!['.', '.']);
    }
    let ghost start = text::texts(kept@);
    let ghost all = text::texts(steps@);
    let mut r = kept;
    assert(all.take(0) =~= Seq::empty());
    for i in 0..steps.len()
        invariant
            all == text::texts(steps@),
            "."@ == seq!['.'],
            ".."@ == seq!['.', '.'],
            text::texts(r@) == climbed(start, all.take(i as int)),
    {
        let ghost before = text::texts(r@);
        assert(all.take(i + 1).drop_last() =~= all.take(i as int));
        assert(all.take(i + 1).last() == steps@[i as int]@);
        if !text::same_text(steps[i].as_str(), "..") {
            r.push(steps[i].clone());
            assert(text::texts(r@) =~= before.push(steps@[i as int]@));
        } else {
            let count: usize = r.len();
            if count > 0 {
                assert(before.last() == r@[count - 1]@);
                let last = r[count - 1].as_str();
                if !text::same_text(last, ".") && !text::same_text(last, "..") {
                    let _ = r.pop();
                    assert(text::texts(r@) =~= before.drop_last());
                }
            }
        }
    }
    assert(all.take(all.len() as int) =~= all);
    r
}

fn join_verbatim(style: PathStyle, base: &Letters, path: &Letters) -> (r: String)
    requires
        base.is_sound(),
        path.is_sound(),
    ensures
        r@ == joined_verbatim(style, base.path@, path.path@),
{
    proof {
        reveal_strlit("\\");
        assert("\\"@ =~= seq!['\\']);
    }
    let front = base.prefix(style);
    let rooted = path.is_rooted(style);
    let kept = if rooted {
        Vec::new()
    } else {
        base.names(style)
    };
    assert(rooted ==> text::texts(kept@) =~= Seq::empty());
    let all = climb(kept, &path.names(style));
    let start = base.path.substring_char(0, front.size).to_owned();
    assert(start@ =~= base.path@.take(front.size as int));
    let names = text::join_text(&all, "\\");
    let ghost parts = text::texts(all@);
    assert(parts.len() == all@.len());
    if rooted || base.is_rooted(style) || all.len() > 0 {
        start.concat("\\").concat(names.as_str())
    } else {
        assert(start@ + Seq::<char>::empty() + names@ =~= start@ + names@);
        start.concat(names.as_str())
    }
}

/// Puts `path` behind `base`.
pub fn join_path(style: PathStyle, base: &str, path: &str) -> (r: String)
    ensures
        r@ == joined_path(style, base@, path@),
{
    proof {
        reveal_strlit("/");
        reveal_strlit("\\");
        assert("/"@ =~= seq!['/']);
        assert("\\"@ =~= seq!['\\']);
    }
    let one = Letters::new(base);
    let other = Letters::new(path);
    let other_front = other.prefix(style);
    match other_front.kind {
        PrefixKind::Absent => {},
        _ => return path.to_owned(),
    }
    let front = one.prefix(style);
    if front.kind.verbatim() && !path.is_empty() {
        return join_verbatim(style, &one, &other);
    }
    if other.is_rooted(style) {
        let start = base.substring_char(0, front.size).to_owned();
        assert(start@ =~= base@.take(front.size as int));
        return start.concat(path);
    }
    let size: usize = one.chars.len();
    let drive = match front.kind {
        PrefixKind::Disk => size == 2,
        _ => false,
    };
    if size == 0 || style.is_divided_by(one.chars[size - 1]) || drive {
        base.to_owned().concat(path)
    } else {
        match style {
            PathStyle::Unix => base.to_owned().concat("/").concat(path),
            PathStyle::Windows => base.to_owned().concat("\\").concat(path),
        }
    }
}

/// Puts the home directory in the place of a first part `~`.
pub fn expand_path(style: PathStyle, path: &str, home: &str) -> (r: String)
    ensures
        r@ == expanded(style, path@, home@),
{
    if !under_home(style, path) {
        return path.to_owned();
    }
    let rest = rest_of_home(style, path);
    join_path(style, home, rest.as_str())
}

fn rest_of_home(style: PathStyle, path: &str) -> (r: String)
    ensures
        r@ == home_rest(style, path@),
{
    let chars = text::chars_of(path);
    if chars.len() < 2 {
        return String::new();
    }
    let mut start: usize = 2;
    let mut end: usize = chars.len();
    let ghost whole = chars@.skip(2);
    loop
        invariant
            2 <= start <= end,
            end == chars@.len(),
            whole == chars@.skip(2),
            named_start(style, whole) == named_start(style, chars@.skip(start as int)),
        ensures
            named_start(style, whole) == chars@.skip(start as int),
        decreases end - start,
    {
        let ghost now = chars@.skip(start as int);
        if start < end && style.is_divided_by(chars[start]) {
            assert(now.skip(1) == chars@.skip(start + 1));
            start = start + 1;
        } else if end - start == 1 && chars[start] == '.' {
            start = end;
            assert(chars@.skip(start as int) == Seq::<char>::empty());
            break;
        } else if end - start > 1 && chars[start] == '.' && style.is_divided_by(chars[start + 1]) {
            assert(now.skip(2) == chars@.skip(start + 2));
            start = start + 2;
        } else {
            break;
        }
    }
    let ghost kept = chars@.skip(start as int);
    assert(kept == chars@.subrange(start as int, end as int));
    loop
        invariant
            2 <= start <= end <= chars@.len(),
            named_end(style, kept) == named_end(
                style,
                chars@.subrange(start as int, end as int),
            ),
        ensures
            named_end(style, kept) == chars@.subrange(start as int, end as int),
        decreases end,
    {
        let ghost now = chars@.subrange(start as int, end as int);
        if start < end && style.is_divided_by(chars[end - 1]) {
            assert(now.drop_last() == chars@.subrange(start as int, end - 1));
            end = end - 1;
        } else if end - start == 1 && chars[start] == '.' {
            end = start;
            assert(chars@.subrange(start as int, end as int) == Seq::<char>::empty());
            break;
        } else if end - start > 1 && chars[end - 1] == '.' && style.is_divided_by(chars[end - 2]) {
            assert(now.take(now.len() - 2) == chars@.subrange(start as int, end - 2));
            end = end - 2;
        } else {
            break;
        }
    }
    path.substring_char(start, end).to_owned()
}

proof fn lemma_part_end_shifts(divider: Divider, path: Seq<char>, k: int, from: int)
    requires
        0 <= k <= path.len(),
        0 <= from <= path.len() - k,
    ensures
        part_end(divider, path, k + from) == k + part_end(divider, path.skip(k), from),
    decreases path.len() - k - from,
{
    if k + from < path.len() {
        assert(path.skip(k)[from] == path[k + from]);
        if !divider.has(path[k + from]) {
            lemma_part_end_shifts(divider, path, k, from + 1);
        }
    }
}

proof fn lemma_names_shift(divider: Divider, path: Seq<char>, k: int, from: int)
    requires
        0 <= k <= path.len(),
        0 <= from <= path.len() - k,
    ensures
        names_from(divider, path, k + from) == names_from(divider, path.skip(k), from),
    decreases path.len() - k - from,
{
    let rest = path.skip(k);
    if k + from < path.len() {
        lemma_part_end_shifts(divider, path, k, from);
        parts_end_at_dividers(divider, path, k + from);
        let end = part_end(divider, rest, from);
        assert(path.subrange(k + from, k + end) =~= rest.subrange(from, end));
        if end < rest.len() {
            lemma_names_shift(divider, path, k, end + 1);
        }
    }
}

proof fn lemma_part_end_before(divider: Divider, a: Seq<char>, c: char, b: Seq<char>, from: int)
    requires
        divider.has(c),
        0 <= from <= a.len(),
    ensures
        part_end(divider, a + seq![c] + b, from) == part_end(divider, a, from),
    decreases a.len() - from,
{
    let all = a + seq![c] + b;
    if from < a.len() {
        assert(all[from] == a[from]);
        if !divider.has(a[from]) {
            lemma_part_end_before(divider, a, c, b, from + 1);
        }
    } else {
        assert(all[from] == c);
    }
}

proof fn lemma_names_before(divider: Divider, a: Seq<char>, c: char, b: Seq<char>, from: int)
    requires
        divider.has(c),
        0 <= from <= a.len(),
    ensures
        names_from(divider, a + seq![c] + b, from) == names_from(divider, a, from) + names_from(
            divider,
            b,
            0,
        ),
    decreases a.len() - from,
{
    let all = a + seq![c] + b;
    let size = a.len() as int;
    lemma_part_end_before(divider, a, c, b, from);
    parts_end_at_dividers(divider, a, from);
    lemma_names_shift(divider, all, size + 1, 0);
    assert(all.skip(size + 1) =~= b);
    let end = part_end(divider, a, from);
    assert(all.subrange(from, end) =~= a.subrange(from, end));
    if end < a.len() {
        lemma_names_before(divider, a, c, b, end + 1);
        assert(names_from(divider, all, from) =~= names_from(divider, a, from) + names_from(
            divider,
            b,
            0,
        ));
    } else {
        if from == size {
            assert(a.subrange(from, end) =~= Seq::empty());
        }
        assert(names_from(divider, all, from) =~= names_from(divider, a, from) + names_from(
            divider,
            b,
            0,
        ));
    }
}

/// Slashes divide paths on every system, backslashes on Windows only, and nothing
/// else does.
pub proof fn slashes_and_backslashes_divide(c: char)
    ensures
        PathStyle::Unix.divides(c) <==> c == '/',
        PathStyle::Windows.divides(c) <==> c == '/' || c == '\\',
        Divider::Slash.has(c) <==> c == '/',
        Divider::Backslash.has(c) <==> c == '\\',
        Divider::Either.has(c) <==> c == '/' || c == '\\',
{
}

/// The names along two paths with a divider between them are those of the one
/// followed by those of the other. A text without a divider is one name, unless
/// it is empty, or the part `.` where that is not taken to the letter.
pub proof fn names_add_up(divider: Divider, a: Seq<char>, c: char, b: Seq<char>)
    requires
        divider.has(c),
    ensures
        names_from(divider, a + seq![c] + b, 0) == names_from(divider, a, 0) + names_from(
            divider,
            b,
            0,
        ),
        (forall|i: int| 0 <= i < a.len() ==> !divider.has(#[trigger] a[i])) ==> names_from(
            divider,
            a,
            0,
        ) == if a.len() == 0 || a == seq!['.'] && divider != Divider::Backslash {
            Seq::empty()
        } else {
            seq![a]
        },
{
    lemma_names_before(divider, a, c, b, 0);
    if forall|i: int| 0 <= i < a.len() ==> !divider.has(#[trigger] a[i]) {
        parts_end_at_dividers(divider, a, 0);
        assert(part_end(divider, a, 0) == a.len());
        assert(a.subrange(0, a.len() as int) =~= a);
        if a.len() == 1 && a[0] == '.' {
            assert(a =~= seq!['.']);
        }
        assert(seq![a] + Seq::<Seq<char>>::empty() =~= seq![a]);
    }
}

proof fn lemma_unix_names(path: Seq<char>)
    ensures
        names(PathStyle::Unix, path) == names_from(Divider::Slash, path, 0),
{
    if is_rooted(PathStyle::Unix, path) {
        assert(path.subrange(0, 0) =~= Seq::empty());
        assert(part_end(Divider::Slash, path, 0) == 0);
    }
}

/// On Unix two paths are the same just when both or neither begin with a slash,
/// both or neither begin with the part `.`, and the names between their slashes
/// are the same.
pub proof fn unix_paths_are_their_names(a: Seq<char>, b: Seq<char>)
    ensures
        is_same_path(PathStyle::Unix, a, b) <==> {
            &&& (a.len() > 0 && a[0] == '/') <==> (b.len() > 0 && b[0] == '/')
            &&& (a.len() > 0 && a[0] == '.' && (a.len() == 1 || a[1] == '/')) <==> (b.len() > 0
                && b[0] == '.' && (b.len() == 1 || b[1] == '/'))
            &&& names_from(Divider::Slash, a, 0) == names_from(Divider::Slash, b, 0)
        },
{
    lemma_unix_names(a);
    lemma_unix_names(b);
}

/// To be the same path is the same both ways, and is handed on.
pub proof fn same_paths_are_alike(style: PathStyle, a: Seq<char>, b: Seq<char>, c: Seq<char>)
    ensures
        is_same_path(style, a, a),
        is_same_path(style, a, b) == is_same_path(style, b, a),
        is_same_path(style, a, b) && is_same_path(style, b, c) ==> is_same_path(style, a, c),
        is_same_path(style, a, b) ==> names(style, a) == names(style, b),
{
}

/// On Unix an absolute path stands by itself, and a relative one comes behind the
/// names of the path that it is taken from.
pub proof fn unix_paths_are_put_behind(base: Seq<char>, path: Seq<char>)
    ensures
        path.len() > 0 && path[0] == '/' ==> joined_path(PathStyle::Unix, base, path) == path,
        !(path.len() > 0 && path[0] == '/') ==> ({
            let joined = joined_path(PathStyle::Unix, base, path);
            &&& joined == if base.len() == 0 || base.last() == '/' {
                base + path
            } else {
                base + seq!['/'] + path
            }
            &&& base.is_prefix_of(joined)
            &&& names_from(Divider::Slash, joined, 0) == names_from(Divider::Slash, base, 0)
                + names_from(Divider::Slash, path, 0)
        }),
{
    let slash = Divider::Slash;
    if path.len() > 0 && path[0] == '/' {
        assert(base.take(0) + path =~= path);
    } else {
        let joined = joined_path(PathStyle::Unix, base, path);
        if base.len() == 0 {
            assert(base + path =~= path);
            assert(names_from(slash, base, 0) =~= Seq::empty());
            assert(names_from(slash, joined, 0) =~= names_from(slash, base, 0) + names_from(
                slash,
                path,
                0,
            ));
        } else if base.last() == '/' {
            let front = base.drop_last();
            assert(joined =~= front + seq!['/'] + path);
            assert(base =~= front + seq!['/'] + Seq::<char>::empty());
            names_add_up(slash, front, '/', path);
            names_add_up(slash, front, '/', Seq::empty());
            assert(names_from(slash, Seq::<char>::empty(), 0) =~= Seq::empty());
        } else {
            names_add_up(slash, base, '/', path);
        }
    }
}

proof fn lemma_named_start_names(style: PathStyle, path: Seq<char>)
    ensures
        names_from(style.divider(), named_start(style, path), 0) == names_from(
            style.divider(),
            path,
            0,
        ),
    decreases path.len(),
{
    let d = style.divider();
    let none = Seq::<char>::empty();
    assert(names_from(d, none, 0) =~= Seq::empty());
    if path.len() > 0 && style.divides(path[0]) {
        lemma_named_start_names(style, path.skip(1));
        names_add_up(d, none, path[0], path.skip(1));
        assert(path =~= none + seq![path[0]] + path.skip(1));
    } else if path.len() == 1 && path[0] == '.' {
        assert(path =~= seq!['.']);
        assert(!d.has('.'));
        names_add_up(d, path, '/', none);
    } else if is_dotted(style, path) {
        lemma_named_start_names(style, path.skip(2));
        let dot = seq!['.'];
        names_add_up(d, dot, path[1], path.skip(2));
        assert(path =~= dot + seq![path[1]] + path.skip(2));
    }
}

proof fn lemma_named_end_names(style: PathStyle, path: Seq<char>)
    ensures
        names_from(style.divider(), named_end(style, path), 0) == names_from(
            style.divider(),
            path,
            0,
        ),
    decreases path.len(),
{
    let d = style.divider();
    let none = Seq::<char>::empty();
    assert(names_from(d, none, 0) =~= Seq::empty());
    if path.len() > 0 && style.divides(path.last()) {
        let front = path.drop_last();
        lemma_named_end_names(style, front);
        names_add_up(d, front, path.last(), none);
        assert(path =~= front + seq![path.last()] + none);
    } else if path.len() == 1 && path[0] == '.' {
        assert(path =~= seq!['.']);
        names_add_up(d, path, '/', none);
    } else if path.len() > 1 && path.last() == '.' && style.divides(path[path.len() - 2]) {
        let front = path.take(path.len() - 2);
        let dot = seq!['.'];
        lemma_named_end_names(style, front);
        names_add_up(d, front, path[path.len() - 2], dot);
        names_add_up(d, dot, '/', none);
        assert(path =~= front + seq![path[path.len() - 2]] + dot);
    }
}

/// Only a first part that is `~` and nothing else stands for the home directory;
/// the names behind it come behind the home directory, and any other path is left
/// alone.
pub proof fn tildes_stand_for_the_home_directory(
    style: PathStyle,
    path: Seq<char>,
    home: Seq<char>,
)
    ensures
        is_under_home(style, path) <==> path == seq!['~'] || (path.len() > 1 && path[0] == '~' && (
        path[1] == '/' || style == PathStyle::Windows && path[1] == '\\')),
        !is_under_home(style, path) ==> expanded(style, path, home) == path,
        is_under_home(style, path) ==> ({
            let rest = home_rest(style, path);
            &&& expanded(style, path, home) == joined_path(style, home, rest)
            &&& seq![seq!['~']] + names_from(style.divider(), rest, 0) == names_from(
                style.divider(),
                path,
                0,
            )
            &&& rest.len() > 0 ==> !style.divides(rest[0]) && !style.divides(rest.last())
        }),
        style == PathStyle::Unix && is_under_home(style, path) ==> names_from(
            Divider::Slash,
            expanded(style, path, home),
            0,
        ) == names_from(Divider::Slash, home, 0) + names_from(Divider::Slash, path, 0).skip(1),
{
    if path.len() == 1 && path[0] == '~' {
        assert(path =~= seq!['~']);
    }
    if is_under_home(style, path) {
        let d = style.divider();
        let tilde = seq!['~'];
        let none = Seq::<char>::empty();
        let rest = home_rest(style, path);
        assert(names_from(d, none, 0) =~= Seq::empty());
        if path.len() == 1 {
            names_add_up(d, tilde, '/', none);
            assert(seq![tilde] + names_from(d, rest, 0) =~= names_from(d, path, 0));
        } else {
            let behind = path.skip(2);
            lemma_named_start_names(style, behind);
            lemma_named_end_names(style, named_start(style, behind));
            names_add_up(d, tilde, path[1], behind);
            assert(path =~= tilde + seq![path[1]] + behind);
            named_start_is_relative(style, behind);
            lemma_named_end_is_clean(style, named_start(style, behind));
        }
        if style == PathStyle::Unix {
            unix_paths_are_put_behind(home, rest);
            assert(names_from(d, path, 0).skip(1) =~= names_from(d, rest, 0));
        }
    }
}

proof fn lemma_named_end_is_clean(style: PathStyle, path: Seq<char>)
    requires
        path.len() > 0 ==> !style.divides(path[0]),
    ensures
        named_end(style, path).len() > 0 ==> named_end(style, path)[0] == path[0]
            && !style.divides(named_end(style, path).last()),
        named_end(style, path).len() <= path.len(),
    decreases path.len(),
{
    if path.len() > 0 && style.divides(path.last()) {
        lemma_named_end_is_clean(style, path.drop_last());
    } else if path.len() == 1 && path[0] == '.' {
    } else if path.len() > 1 && path.last() == '.' && style.divides(path[path.len() - 2]) {
        lemma_named_end_is_clean(style, path.take(path.len() - 2));
    }
}

/// On Windows the letter of a drive may be written small or as a capital; paths on
/// different drives are different.
pub proof fn drives_go_by_their_letters(small: char, large: char, rest: Seq<char>)
    requires
        'a' <= small <= 'z',
        'A' <= large <= 'Z',
    ensures
        is_same_path(PathStyle::Windows, seq![small, ':'] + rest, seq![large, ':'] + rest)
            <==> small as int - 'a' as int == large as int - 'A' as int,
{
    let style = PathStyle::Windows;
    let a = seq![small, ':'] + rest;
    let b = seq![large, ':'] + rest;
    assert(a[0] == small && a[1] == ':' && b[0] == large && b[1] == ':');
    assert(has_drive(a, 0) && has_drive(b, 0));
    assert(prefix(style, a) == drive_prefix(PrefixKind::Disk, a, 0));
    assert(prefix(style, b) == drive_prefix(PrefixKind::Disk, b, 0));
    assert(rest.len() > 0 ==> a[2] == rest[0] && b[2] == rest[0]);
    lemma_names_shift(Divider::Either, a, 2, body_start(style, a) - 2);
    lemma_names_shift(Divider::Either, b, 2, body_start(style, b) - 2);
    assert(a.skip(2) =~= rest);
    assert(b.skip(2) =~= rest);
}

/// What a path of Windows has in front of its parts: a drive, a share, a device, or
/// one of the forms that begin with two backslashes, a question mark and a third
/// backslash, behind which slashes divide nothing.
pub proof fn windows_prefixes_are_told_by_their_start(path: Seq<char>)
    ensures
        ({
            let found = prefix(PathStyle::Windows, path);
            let drive_at = |at: int|
                path.len() >= at + 2 && path[at + 1] == ':' && ('a' <= path[at] <= 'z' || 'A'
                    <= path[at] <= 'Z');
            let divides = |at: int| path[at] == '/' || path[at] == '\\';
            let doubled = path.len() >= 2 && divides(0) && divides(1);
            let literal = path.len() >= 4 && path[0] == '\\' && path[1] == '\\' && path[2] == '?'
                && path[3] == '\\';
            let server = part_at(Divider::Either, path, 2);
            let share = part_at(Divider::Either, path, 3 + server.len() as int);
            &&& literal && path.len() >= 8 && path[4] == 'U' && path[5] == 'N' && path[6] == 'C'
                && divides(7) ==> {
                let name = part_at(Divider::Backslash, path, 8);
                let shared = part_at(Divider::Backslash, path, 9 + name.len() as int);
                &&& found.kind == PrefixKind::VerbatimShare
                &&& found.name == name
                &&& found.share == shared
                &&& found.size == if shared.len() > 0 {
                    9 + name.len() + shared.len()
                } else {
                    8 + name.len()
                }
            }
            &&& literal && drive_at(4) && (path.len() == 6 || divides(6)) ==> {
                &&& found.kind == PrefixKind::VerbatimDisk
                &&& found.drive == capital(path[4])
                &&& found.size == 6
            }
            &&& literal && !(path.len() >= 8 && path[4] == 'U' && path[5] == 'N' && path[6] == 'C'
                && divides(7)) && !(drive_at(4) && (path.len() == 6 || divides(6))) ==> {
                let name = part_at(Divider::Backslash, path, 4);
                &&& found.kind == PrefixKind::Verbatim
                &&& found.name == name
                &&& found.size == 4 + name.len()
            }
            &&& doubled && !literal && path.len() >= 4 && path[2] == '.' && divides(3) ==> {
                let name = part_at(Divider::Either, path, 4);
                &&& found.kind == PrefixKind::Device
                &&& found.name == name
                &&& found.size == 4 + name.len()
            }
            &&& doubled && !literal && !(path.len() >= 4 && path[2] == '.' && divides(3)) ==> {
                if server.len() > 0 && share.len() > 0 {
                    &&& found.kind == PrefixKind::Share
                    &&& found.name == server
                    &&& found.share == share
                    &&& found.size == 3 + server.len() + share.len()
                } else {
                    found.kind == PrefixKind::Absent
                }
            }
            &&& !doubled && drive_at(0) ==> {
                &&& found.kind == PrefixKind::Disk
                &&& found.drive == capital(path[0])
                &&& found.size == 2
            }
            &&& !doubled && !drive_at(0) ==> found.kind == PrefixKind::Absent
            &&& found.kind == PrefixKind::Absent ==> found.size == 0
        }),
        prefix(PathStyle::Unix, path).kind == PrefixKind::Absent,
        prefix(PathStyle::Unix, path).size == 0,
{
    let start = seq!['\\', '\\', '?', '\\'];
    if path.len() >= 4 {
        let four = path.take(4);
        assert(four[0] == path[0] && four[1] == path[1] && four[2] == path[2] && four[3]
            == path[3]);
        if path[0] == '\\' && path[1] == '\\' && path[2] == '?' && path[3] == '\\' {
            assert(four =~= start);
        }
    }
    if path.len() >= 8 {
        let unc = path.subrange(4, 7);
        assert(unc[0] == path[4] && unc[1] == path[5] && unc[2] == path[6]);
        if path[4] == 'U' && path[5] == 'N' && path[6] == 'C' {
            assert(unc =~= seq!['U', 'N', 'C']);
        }
    }
}

/// A part of a path is what stands up to the next divider.
pub proof fn parts_reach_to_the_next_divider(
    divider: Divider,
    before: Seq<char>,
    part: Seq<char>,
    after: Seq<char>,
)
    requires
        forall|i: int| 0 <= i < part.len() ==> !divider.has(#[trigger] part[i]),
        after.len() > 0 ==> divider.has(after[0]),
    ensures
        part_at(divider, before + part + after, before.len() as int) == part,
{
    let path = before + part + after;
    let from = before.len() as int;
    parts_end_at_dividers(divider, path, from);
    let end = part_end(divider, path, from);
    if end < from + part.len() {
        assert(path[end] == part[end - from]);
    }
    if end > from + part.len() {
        assert(path[from + part.len()] == after[0]);
    }
    assert(path.subrange(from, end) =~= part);
}

/// Behind the forms that are taken to the letter only backslashes divide, and the
/// part `.` is a name; shares and devices start at a root whether they say so or
/// not.
pub proof fn prefixes_decide_how_a_path_is_read(style: PathStyle, path: Seq<char>, part: Seq<char>)
    ensures
        ({
            let found = prefix(style, path);
            let literal = found.kind == PrefixKind::Verbatim || found.kind
                == PrefixKind::VerbatimShare || found.kind == PrefixKind::VerbatimDisk;
            let rooted = found.size < path.len() && (path[found.size as int] == '/' || style
                == PathStyle::Windows && path[found.size as int] == '\\');
            &&& found.kind.is_verbatim() == literal
            &&& divider_in(style, path) == if literal {
                Divider::Backslash
            } else if style == PathStyle::Unix {
                Divider::Slash
            } else {
                Divider::Either
            }
            &&& is_rooted(style, path) == rooted
            &&& has_root(style, path) == (rooted || found.kind == PrefixKind::Share || found.kind
                == PrefixKind::Device)
            &&& names(style, path) == names_from(
                divider_in(style, path),
                path,
                if rooted {
                    found.size as int + 1
                } else {
                    found.size as int
                },
            )
        }),
        is_dotted(style, path) <==> path.len() > 0 && path[0] == '.' && (path.len() == 1 || path[1]
            == '/' || style == PathStyle::Windows && path[1] == '\\'),
        is_name(Divider::Backslash, part) <==> part.len() > 0,
        is_name(Divider::Either, part) <==> part.len() > 0 && part != seq!['.'],
        is_name(Divider::Slash, part) <==> part.len() > 0 && part != seq!['.'],
{
    if part.len() == 1 && part[0] == '.' {
        assert(part =~= seq!['.']);
    }
}

/// On every system two paths are the same just when they have the same in front of
/// their parts, both or neither start at a root, both or neither begin with the
/// part `.`, and their names are the same.
pub proof fn same_paths_agree_in_all_parts(style: PathStyle, a: Seq<char>, b: Seq<char>)
    ensures
        is_same_path(style, a, b) <==> {
            let left = prefix(style, a);
            let right = prefix(style, b);
            &&& left.kind == right.kind
            &&& left.drive == right.drive
            &&& left.name == right.name
            &&& left.share == right.share
            &&& has_root(style, a) == has_root(style, b)
            &&& is_dotted(style, a) == is_dotted(style, b)
            &&& names(style, a) == names(style, b)
        },
{
}

/// Going along names adds each of them; the name `..` takes the last one off
/// again, unless there is none, or it is itself one of the parts `.` and `..`.
pub proof fn two_dots_go_back(kept: Seq<Seq<char>>, steps: Seq<Seq<char>>, name: Seq<char>)
    ensures
        climbed(kept, Seq::empty()) == kept,
        name != seq!['.', '.'] ==> climbed(kept, steps.push(name)) == climbed(kept, steps).push(
            name,
        ),
        ({
            let before = climbed(kept, steps);
            let back = climbed(kept, steps.push(seq!['.', '.']));
            &&& before.len() > 0 && before.last() != seq!['.'] && before.last() != seq!['.', '.']
                ==> back == before.drop_last()
            &&& before.len() == 0 || before.last() == seq!['.'] || before.last() == seq!['.', '.']
                ==> back == before
        }),
        name != seq!['.'] && name != seq!['.', '.'] ==> climbed(
            kept,
            steps.push(name).push(seq!['.', '.']),
        ) == climbed(kept, steps),
{
    let dots = seq!['.', '.'];
    assert(steps.push(name).drop_last() =~= steps);
    assert(steps.push(dots).drop_last() =~= steps);
    assert(steps.push(name).push(dots).drop_last() =~= steps.push(name));
    if name != seq!['.'] && name != dots {
        let before = climbed(kept, steps);
        assert(climbed(kept, steps.push(name)) == before.push(name));
        assert(before.push(name).drop_last() =~= before);
    }
}

/// How one path is taken from another on Windows: a path with something in front
/// stands by itself; one from a root keeps what the other has in front; any other
/// comes behind it, with a backslash between them where one is needed. A base that
/// is taken to the letter is put together again name by name.
pub proof fn windows_paths_are_put_behind(base: Seq<char>, path: Seq<char>)
    ensures
        ({
            let style = PathStyle::Windows;
            let joined = joined_path(style, base, path);
            let front = base.take(prefix(style, base).size as int);
            let literal = prefix(style, base).kind.is_verbatim();
            let absent = prefix(style, path).kind == PrefixKind::Absent;
            &&& !absent ==> joined == path
            &&& absent && literal && path.len() > 0 ==> {
                let kept = if is_rooted(style, path) {
                    Seq::empty()
                } else {
                    names(style, base)
                };
                let all = climbed(kept, names(style, path));
                let root = is_rooted(style, path) || is_rooted(style, base) || all.len() > 0;
                joined == front + (if root {
                    seq!['\\']
                } else {
                    Seq::empty()
                }) + text::joined(all, seq!['\\'])
            }
            &&& absent && !(literal && path.len() > 0) && is_rooted(style, path) ==> joined == front
                + path
            &&& absent && !(literal && path.len() > 0) && !is_rooted(style, path) ==> {
                let open = base.len() == 0 || base.last() == '/' || base.last() == '\\'
                    || prefix(style, base).kind == PrefixKind::Disk && base.len() == 2;
                joined == if open {
                    base + path
                } else {
                    base + seq!['\\'] + path
                }
            }
        }),
{
}

} // verus!
