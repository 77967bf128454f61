//! How many columns a terminal draws a text in, and texts cut and filled to a
//! number of columns.
//!
//! Columns are counted per grapheme cluster: an emoji put together from several
//! characters is drawn in two columns however many went into it.

use crate::text;
use unicode_segmentation::UnicodeSegmentation;
use unicode_width::UnicodeWidthStr;
use vstd::prelude::*;

verus! {

/// The extended grapheme clusters of a text, in order.
pub uninterp spec fn clusters(text: Seq<char>) -> Seq<Seq<char>>;

/// The columns that one grapheme cluster is drawn in.
pub uninterp spec fn cluster_columns(cluster: Seq<char>) -> nat;

/// The parts one after another.
pub open spec fn flat(parts: Seq<Seq<char>>) -> Seq<char>
    decreases parts.len(),
{
    if parts.len() == 0 {
        Seq::empty()
    } else {
        flat(parts.drop_last()) + parts.last()
    }
}

/// The columns of each cluster.
pub open spec fn widths_of(parts: Seq<Seq<char>>) -> Seq<nat> {
    Seq::new(parts.len(), |i: int| cluster_columns(parts[i]))
}

/// The widths taken together.
pub open spec fn total(widths: Seq<nat>) -> nat
    decreases widths.len(),
{
    if widths.len() == 0 {
        0
    } else {
        total(widths.drop_last()) + widths.last()
    }
}

/// The columns a text is drawn in.
pub open spec fn columns(text: Seq<char>) -> nat {
    total(widths_of(clusters(text)))
}

/// A number of columns as far as a counter of the machine can tell it.
pub open spec fn counted(columns: nat) -> nat {
    if columns <= usize::MAX {
        columns
    } else {
        usize::MAX as nat
    }
}

/// Whether every character is a printable one of ASCII.
pub open spec fn is_plain(text: Seq<char>) -> bool {
    forall|i: int| 0 <= i < text.len() ==> ' ' <= #[trigger] text[i] <= '~'
}

/// Whether a space stands where the one text meets the other: at the end of the
/// first, or at the start of the second.
pub open spec fn is_parted(first: Seq<char>, second: Seq<char>) -> bool {
    ||| first.len() > 0 && first.last() == ' '
    ||| second.len() > 0 && second[0] == ' '
}

/// Whether `all` are the clusters of the one text followed by those of the
/// other, but that the last of the one and the first of the other, which have a
/// space between their characters, may have become one.
pub open spec fn is_meeting(
    first: Seq<Seq<char>>,
    second: Seq<Seq<char>>,
    all: Seq<Seq<char>>,
) -> bool {
    ||| all == first + second
    ||| {
        &&& first.len() > 0
        &&& second.len() > 0
        &&& is_parted(first.last(), second[0])
        &&& all == first.drop_last().push(first.last() + second[0]) + second.skip(1)
    }
}

/// `UnicodeSegmentation::graphemes` over the extended clusters. Claimed of it:
/// the clusters depend on the text alone and make it up again when they are put
/// one after another; the text that the first clusters make up has just these
/// clusters, because a boundary is decided by what stands before it and the one
/// character after it; what stands before a space has no say in the boundaries
/// behind it, so that a text put behind another with a space between them keeps
/// its clusters, but for its first, which may grow together with the last one
/// before it; and a printable character of ASCII next to others is a cluster by
/// itself.
#[verifier::external_body]
fn grapheme_clusters(text: &str) -> (r: Vec<String>)
    ensures
        text::texts(r@) == clusters(text@),
        flat(text::texts(r@)) == text@,
        forall|k: int|
            0 <= k <= r@.len() ==> clusters(flat(#[trigger] text::texts(r@).take(k)))
                == text::texts(r@).take(k),
        forall|next: Seq<char>|
            is_parted(text@, next) ==> is_meeting(
                text::texts(r@),
                clusters(next),
                #[trigger] clusters(text@ + next),
            ),
        is_plain(text@) ==> text::texts(r@) == Seq::new(text@.len(), |i: int| seq![text@[i]]),
{
    text.graphemes(true).map(str::to_owned).collect()
}

/// `UnicodeWidthStr::width`. Claimed of it: the width depends on the text
/// alone; a space takes one column and has no say in the width of what stands
/// beside it, so that the widths of two texts with a space between them add up;
/// and a text of printable ASCII is as wide as it is long.
#[verifier::external_body]
fn cluster_width(cluster: &str) -> (r: usize)
    ensures
        r == cluster_columns(cluster@),
        forall|next: Seq<char>|
            is_parted(cluster@, next) ==> #[trigger] cluster_columns(cluster@ + next) == r
                + cluster_columns(next),
        is_plain(cluster@) ==> r == cluster@.len(),
{
    UnicodeWidthStr::width(cluster)
}

/// Widths as numbers.
pub open spec fn numbers(widths: Seq<usize>) -> Seq<nat> {
    Seq::new(widths.len(), |i: int| widths[i] as nat)
}

/// How many of the first clusters fit `width` columns together.
pub open spec fn kept_count(widths: Seq<nat>, width: nat) -> nat
    decreases widths.len(),
{
    if widths.len() == 0 || total(widths) <= width {
        widths.len()
    } else {
        kept_count(widths.drop_last(), width)
    }
}

/// The clusters that are kept fit the width, and one more would not.
pub proof fn kept_is_longest(widths: Seq<nat>, width: nat)
    ensures
        kept_count(widths, width) <= widths.len(),
        total(widths.take(kept_count(widths, width) as int)) <= width,
        forall|k: int|
            kept_count(widths, width) < k <= widths.len() ==> total(#[trigger] widths.take(k))
                > width,
    decreases widths.len(),
{
    assert(widths.take(widths.len() as int) == widths);
    if widths.len() > 0 && total(widths) > width {
        let rest = widths.drop_last();
        kept_is_longest(rest, width);
        let count = kept_count(widths, width) as int;
        assert(widths.take(count) == rest.take(count));
        assert forall|k: int| count < k <= widths.len() implies total(#[trigger] widths.take(k))
            > width by {
            if k < widths.len() {
                assert(widths.take(k) == rest.take(k));
            }
        }
    }
}

/// The first widths make no more together than more of them.
proof fn lemma_totals_grow(widths: Seq<nat>, k: int, n: int)
    requires
        0 <= k <= n <= widths.len(),
    ensures
        total(widths.take(k)) <= total(widths.take(n)),
    decreases n - k,
{
    if k < n {
        lemma_totals_grow(widths, k, n - 1);
        assert(widths.take(n).drop_last() == widths.take(n - 1));
    }
}

/// Widths of one column each make as many columns as there are widths.
proof fn lemma_total_of_ones(widths: Seq<nat>)
    requires
        forall|i: int| 0 <= i < widths.len() ==> #[trigger] widths[i] == 1,
    ensures
        total(widths) == widths.len(),
    decreases widths.len(),
{
    if widths.len() > 0 {
        lemma_total_of_ones(widths.drop_last());
    }
}

proof fn lemma_total_concat(a: Seq<nat>, b: Seq<nat>)
    ensures
        total(a + b) == total(a) + total(b),
    decreases b.len(),
{
    if b.len() == 0 {
        assert(a + b == a);
    } else {
        assert((a + b).drop_last() == a + b.drop_last());
        lemma_total_concat(a, b.drop_last());
    }
}

/// Takes widths together. More than the counter can hold counts as the most
/// that it can hold.
pub fn total_width(widths: &Vec<usize>) -> (r: usize)
    ensures
        r == counted(total(numbers(widths@))),
{
    let ghost all = numbers(widths@);
    let mut used: usize = 0;
    for i in 0..widths.len()
        invariant
            all == numbers(widths@),
            used == counted(total(all.take(i as int))),
    {
        assert(all.take(i + 1).drop_last() == all.take(i as int));
        used = used.saturating_add(widths[i]);
    }
    assert(all.take(all.len() as int) == all);
    used
}

/// How many of the first widths fit `width` together.
pub fn fitting_count(widths: &Vec<usize>, width: usize) -> (r: usize)
    ensures
        r == kept_count(numbers(widths@), width as nat),
        r <= widths@.len(),
{
    let ghost all = numbers(widths@);
    let mut used: usize = 0;
    let mut i: usize = 0;
    assert(all.take(0) == Seq::<nat>::empty());
    while i < widths.len()
        invariant
            all == numbers(widths@),
            i <= widths@.len(),
            used == total(all.take(i as int)),
            used <= width,
        ensures
            i <= all.len(),
            total(all.take(i as int)) <= width,
            i < all.len() ==> total(all.take(i + 1)) > width,
        decreases widths@.len() - i,
    {
        assert(all.take(i + 1).drop_last() == all.take(i as int));
        if widths[i] > width - used {
            break;
        }
        used = used + widths[i];
        i = i + 1;
    }
    proof {
        kept_is_longest(all, width as nat);
        let count = kept_count(all, width as nat) as int;
        if count < i {
            assert(total(all.take(i as int)) > width);
        }
        if i < count {
            lemma_totals_grow(all, i + 1, count);
        }
    }
    i
}

/// Puts the first clusters that fit `width` columns together one after another:
/// a cluster that would straddle the limit is left out, and all that follows
/// it. `widths` are the columns of the clusters.
pub fn cut_clusters(parts: &Vec<String>, widths: &Vec<usize>, width: usize) -> (r: String)
    requires
        parts@.len() == widths@.len(),
    ensures
        r@ == flat(
            text::texts(parts@).take(kept_count(numbers(widths@), width as nat) as int),
        ),
{
    let count: usize = fitting_count(widths, width);
    let ghost all = text::texts(parts@);
    let mut kept = String::new();
    assert(all.take(0) == Seq::<Seq<char>>::empty());
    for i in 0..count
        invariant
            all == text::texts(parts@),
            count <= parts@.len(),
            kept@ == flat(all.take(i as int)),
    {
        kept.append(parts[i].as_str());
        assert(all.take(i + 1).drop_last() == all.take(i as int));
        assert(all[i as int] == parts[i as int]@);
    }
    kept
}

/// Measures each cluster.
fn cluster_widths(parts: &Vec<String>) -> (r: Vec<usize>)
    ensures
        numbers(r@) == widths_of(text::texts(parts@)),
        forall|i: int, next: Seq<char>|
            0 <= i < parts@.len() && is_parted(parts@[i]@, next)
                ==> #[trigger] cluster_columns(parts@[i]@ + next) == cluster_columns(parts@[i]@)
                + cluster_columns(next),
        forall|i: int|
            0 <= i < parts@.len() && is_plain(#[trigger] parts@[i]@) ==> cluster_columns(
                parts@[i]@,
            ) == parts@[i]@.len(),
{
    let mut widths: Vec<usize> = Vec::new();
    for i in 0..parts.len()
        invariant
            widths@.len() == i,
            forall|j: int| 0 <= j < i ==> #[trigger] widths@[j] == cluster_columns(parts@[j]@),
            forall|j: int, next: Seq<char>|
                0 <= j < i && is_parted(parts@[j]@, next)
                    ==> #[trigger] cluster_columns(parts@[j]@ + next) == cluster_columns(
                    parts@[j]@,
                ) + cluster_columns(next),
            forall|j: int|
                0 <= j < i && is_plain(#[trigger] parts@[j]@) ==> cluster_columns(parts@[j]@)
                    == parts@[j]@.len(),
    {
        widths.push(cluster_width(parts[i].as_str()));
    }
    assert(numbers(widths@) =~= widths_of(text::texts(parts@)));
    widths
}

/// Whether the columns of the text and of any other that is put behind it with
/// a space between them add up.
pub open spec fn adds_up(text: Seq<char>) -> bool {
    forall|next: Seq<char>|
        is_parted(text, next) ==> #[trigger] columns(text + next) == columns(text) + columns(next)
}

/// Columns add up where the clusters meet at a space and their widths add up.
proof fn lemma_meeting(
    first: Seq<Seq<char>>,
    second: Seq<Seq<char>>,
    all: Seq<Seq<char>>,
)
    requires
        is_meeting(first, second, all),
        first.len() > 0 && second.len() > 0 && is_parted(first.last(), second[0])
            ==> cluster_columns(first.last() + second[0]) == cluster_columns(first.last())
            + cluster_columns(second[0]),
    ensures
        total(widths_of(all)) == total(widths_of(first)) + total(widths_of(second)),
{
    let a = widths_of(first);
    let b = widths_of(second);
    lemma_total_concat(a, b);
    if all == first + second {
        assert(widths_of(all) =~= a + b);
    } else {
        let joint = a.drop_last().push(a.last() + b[0]);
        let rest = b.skip(1);
        assert(widths_of(all) =~= joint + rest);
        lemma_total_concat(joint, rest);
        assert(joint.drop_last() =~= a.drop_last());
        assert(b =~= seq![b[0]] + rest);
        lemma_total_concat(seq![b[0]], rest);
        assert(seq![b[0]].drop_last() =~= Seq::<nat>::empty());
        assert(total(seq![b[0]]) == total(Seq::<nat>::empty()) + b[0]);
    }
}

/// The columns that `text` is drawn in. A text wider than the counter can hold
/// counts as the widest that it can hold. The columns of what is put behind it
/// with a space between them come on top.
pub fn display_width(text: &str) -> (r: usize)
    ensures
        r == counted(columns(text@)),
        flat(clusters(text@)) == text@,
        adds_up(text@),
        columns(Seq::empty()) == 0,
        is_plain(text@) ==> columns(text@) == text@.len() && r == text@.len(),
{
    let parts = grapheme_clusters(text);
    let widths = cluster_widths(&parts);
    proof {
        let all = clusters(text@);
        assert(all.take(0) == Seq::<Seq<char>>::empty());
        assert(clusters(Seq::empty()) == Seq::<Seq<char>>::empty());
        assert forall|next: Seq<char>| is_parted(text@, next) implies #[trigger] columns(
            text@ + next,
        ) == columns(text@) + columns(next) by {
            let second = clusters(next);
            if all.len() > 0 && second.len() > 0 && is_parted(all.last(), second[0]) {
                let i = all.len() - 1;
                assert(parts@[i]@ == all[i]);
                assert(cluster_columns(parts@[i]@ + second[0]) == cluster_columns(parts@[i]@)
                    + cluster_columns(second[0]));
            }
            lemma_meeting(all, second, clusters(text@ + next));
        }
        if is_plain(text@) {
            assert forall|i: int| 0 <= i < all.len() implies #[trigger] widths_of(all)[i] == 1 by {
                assert(parts@[i]@ == all[i]);
                assert(is_plain(parts@[i]@));
            }
            lemma_total_of_ones(widths_of(all));
            assert(all.len() == parts.len());
        }
    }
    total_width(&widths)
}

/// The text cut down to the clusters that fit `width` columns.
pub open spec fn truncated(text: Seq<char>, width: nat) -> Seq<char> {
    flat(clusters(text).take(kept_count(widths_of(clusters(text)), width) as int))
}

/// The text filled out to `width` columns; a wider one stays as it is.
pub open spec fn padded(text: Seq<char>, width: nat) -> Seq<char> {
    if columns(text) < width {
        text + text::repeated(' ', (width - columns(text)) as nat)
    } else {
        text
    }
}

/// The text cut down to `width` columns and filled out to them.
pub open spec fn fitted(text: Seq<char>, width: nat) -> Seq<char> {
    padded(truncated(text, width), width)
}

/// Cutting between clusters: where the clusters of two texts put together are
/// those of the one followed by those of the other, so are their columns.
pub proof fn columns_add_up(a: Seq<char>, b: Seq<char>)
    requires
        clusters(a + b) == clusters(a) + clusters(b),
    ensures
        columns(a + b) == columns(a) + columns(b),
{
    lemma_total_concat(widths_of(clusters(a)), widths_of(clusters(b)));
    assert(widths_of(clusters(a + b)) =~= widths_of(clusters(a)) + widths_of(clusters(b)));
}

/// Single characters one after another are the text they came from.
proof fn lemma_flat_singles(text: Seq<char>, parts: Seq<Seq<char>>, k: int)
    requires
        parts == Seq::new(text.len(), |i: int| seq![text[i]]),
        0 <= k <= text.len(),
    ensures
        flat(parts.take(k)) == text.take(k),
    decreases k,
{
    if k > 0 {
        lemma_flat_singles(text, parts, k - 1);
        assert(parts.take(k).drop_last() == parts.take(k - 1));
        assert(text.take(k) == text.take(k - 1) + seq![text[k - 1]]);
    } else {
        assert(parts.take(0) == Seq::<Seq<char>>::empty());
        assert(text.take(0) == Seq::<char>::empty());
    }
}

/// The first parts are the start of all of them.
proof fn lemma_flat_prefix(parts: Seq<Seq<char>>, k: int)
    requires
        0 <= k <= parts.len(),
    ensures
        flat(parts.take(k)).is_prefix_of(flat(parts)),
    decreases parts.len() - k,
{
    if k == parts.len() {
        assert(parts.take(k) == parts);
    } else {
        lemma_flat_prefix(parts, k + 1);
        assert(parts.take(k + 1).drop_last() == parts.take(k));
        let short = flat(parts.take(k));
        let long = flat(parts.take(k + 1));
        let all = flat(parts);
        assert(long.subrange(0, short.len() as int) == short);
        assert(all.subrange(0, short.len() as int) == short);
    }
}

/// Cuts `text` down to `width` columns, never inside a cluster: a cluster that
/// would straddle the limit is left out, and all that follows it. No more of the
/// text fits.
pub fn truncate_to_width(text: &str, width: usize) -> (r: String)
    ensures
        r@ == truncated(text@, width as nat),
        r@.is_prefix_of(text@),
        flat(clusters(text@)) == text@,
        forall|k: int|
            0 <= k <= clusters(text@).len() ==> clusters(flat(#[trigger] clusters(text@).take(k)))
                == clusters(text@).take(k),
        columns(r@) <= width,
        forall|k: int|
            0 <= k <= clusters(text@).len() && columns(flat(#[trigger] clusters(text@).take(k)))
                <= width ==> flat(clusters(text@).take(k)).is_prefix_of(r@),
        columns(text@) <= width ==> r@ == text@,
        is_plain(text@) && text@.len() <= width ==> r@ == text@,
        is_plain(text@) && text@.len() > width ==> r@ == text@.take(width as int),
{
    let parts = grapheme_clusters(text);
    let widths = cluster_widths(&parts);
    proof {
        let all = clusters(text@);
        let measures = widths_of(all);
        let count = kept_count(measures, width as nat) as int;
        kept_is_longest(measures, width as nat);
        lemma_flat_prefix(all, count);
        assert(widths_of(all.take(count)) =~= measures.take(count));
        assert forall|k: int|
            0 <= k <= all.len() && columns(flat(#[trigger] all.take(k)))
                <= width implies flat(all.take(k)).is_prefix_of(flat(all.take(count))) by {
            assert(widths_of(all.take(k)) =~= measures.take(k));
            assert(k <= count);
            lemma_flat_prefix(all.take(count), k);
            assert(all.take(count).take(k) =~= all.take(k));
        }
        if columns(text@) <= width {
            assert(all.take(count) == all);
        }
        if is_plain(text@) {
            assert forall|i: int| 0 <= i < all.len() implies #[trigger] measures[i] == 1 by {
                assert(parts@[i]@ == all[i]);
                assert(is_plain(parts@[i]@));
            }
            lemma_total_of_ones(measures.take(count));
            if count < all.len() {
                lemma_total_of_ones(measures.take(count + 1));
            }
            lemma_flat_singles(text@, all, count);
            assert(text@.take(text@.len() as int) == text@);
        }
    }
    cut_clusters(&parts, &widths, width)
}

/// Whether spaces in front of any text take a column each.
pub open spec fn spaces_count() -> bool {
    forall|count: nat, rest: Seq<char>| #[trigger]
        columns(text::repeated(' ', count) + rest) == count + columns(rest)
}

proof fn lemma_spaces(count: nat, rest: Seq<char>)
    requires
        adds_up(seq![' ']),
        columns(seq![' ']) == 1,
    ensures
        columns(text::repeated(' ', count) + rest) == count + columns(rest),
    decreases count,
{
    if count == 0 {
        assert(text::repeated(' ', 0) + rest =~= rest);
    } else {
        let less = text::repeated(' ', (count - 1) as nat) + rest;
        lemma_spaces((count - 1) as nat, rest);
        assert(text::repeated(' ', count) + rest =~= seq![' '] + less);
        assert(is_parted(seq![' '], less));
    }
}

/// The columns of a space.
fn space_width() -> (r: usize)
    ensures
        r == 1,
        spaces_count(),
        columns(Seq::empty()) == 0,
{
    let r: usize = display_width(" ");
    proof {
        reveal_strlit(" ");
        assert(" "@ =~= seq![' ']);
        assert forall|count: nat, rest: Seq<char>| #[trigger]
            columns(text::repeated(' ', count) + rest) == count + columns(rest) by {
            lemma_spaces(count, rest);
        }
    }
    r
}

/// Spaces behind a text take a column each, and what follows them comes on top.
proof fn lemma_filled(text: Seq<char>, count: nat)
    requires
        adds_up(text),
        spaces_count(),
        columns(Seq::empty()) == 0,
    ensures
        columns(text + text::repeated(' ', count)) == columns(text) + count,
        adds_up(text + text::repeated(' ', count)),
{
    let blanks = text::repeated(' ', count);
    let all = text + blanks;
    if count == 0 {
        assert(all =~= text);
    } else {
        assert(is_parted(text, blanks));
        assert(blanks + Seq::<char>::empty() =~= blanks);
        assert forall|next: Seq<char>| is_parted(all, next) implies #[trigger] columns(all + next)
            == columns(all) + columns(next) by {
            assert(all + next =~= text + (blanks + next));
            assert(is_parted(text, blanks + next));
            assert(columns(blanks + next) == count + columns(next));
        }
    }
}

/// Fills `text` out to `width` columns with spaces, and leaves it alone when it
/// already runs past them.
pub fn pad_to_width(text: &str, width: usize) -> (r: String)
    ensures
        r@ == padded(text@, width as nat),
        columns(r@) == if columns(text@) < width {
            width as nat
        } else {
            columns(text@)
        },
        adds_up(r@),
        spaces_count(),
        columns(Seq::empty()) == 0,
        is_plain(text@) ==> columns(text@) == text@.len(),
        is_plain(text@) ==> is_plain(r@),
{
    let room: usize = width.saturating_sub(display_width(text));
    let padding: usize = room / space_width();
    let blanks = text::blank_text(padding);
    proof {
        lemma_filled(text@, padding as nat);
        assert(padding == 0 ==> text@ + blanks@ =~= text@);
    }
    text.to_owned().concat(blanks.as_str())
}

/// Cuts `text` to `width` columns and fills what is left with spaces, so that
/// what follows it starts at the same column whatever it holds.
pub fn fit_to_width(text: &str, width: usize) -> (r: String)
    ensures
        r@ == fitted(text@, width as nat),
        columns(r@) == width,
        adds_up(r@),
        spaces_count(),
        columns(Seq::empty()) == 0,
        columns(truncated(text@, width as nat)) <= width,
        r@ == truncated(text@, width as nat) + text::repeated(
            ' ',
            (width - columns(truncated(text@, width as nat))) as nat,
        ),
        is_plain(text@) ==> is_plain(r@) && r@.len() == width,
{
    let kept = truncate_to_width(text, width);
    let r = pad_to_width(kept.as_str(), width);
    assert(columns(kept@) == width ==> r@ =~= kept@ + text::repeated(' ', 0));
    r
}

/// A text is drawn in the columns of its clusters taken together: one more
/// cluster comes with its own columns.
pub proof fn columns_are_those_of_the_clusters(parts: Seq<Seq<char>>, part: Seq<char>)
    ensures
        total(widths_of(parts.push(part))) == total(widths_of(parts)) + cluster_columns(part),
        total(widths_of(Seq::empty())) == 0,
        flat(parts.push(part)) == flat(parts) + part,
        flat(Seq::empty()).len() == 0,
{
    assert(widths_of(parts.push(part)).drop_last() =~= widths_of(parts));
    assert(parts.push(part).drop_last() =~= parts);
}

/// Filling a text out puts spaces behind it, just as many as are missing, and
/// nothing in front of it; a text that is wide enough stays as it is.
pub proof fn spaces_are_put_behind(text: Seq<char>, width: nat)
    ensures
        text.is_prefix_of(padded(text, width)),
        columns(text) < width ==> padded(text, width).len() == text.len() + width - columns(text),
        columns(text) >= width ==> padded(text, width) == text,
        forall|i: int|
            text.len() <= i < padded(text, width).len() ==> #[trigger] padded(text, width)[i] == ' ',
{
}

/// Cutting a text keeps its first clusters, as many of them as fit the width: they
/// fit, and with one more they would not.
pub proof fn cutting_keeps_the_first_clusters(text: Seq<char>, width: nat)
    ensures
        exists|k: int|
            {
                &&& 0 <= k <= clusters(text).len()
                &&& truncated(text, width) == flat(#[trigger] clusters(text).take(k))
                &&& total(widths_of(clusters(text).take(k))) <= width
                &&& k < clusters(text).len() ==> total(widths_of(clusters(text).take(k + 1)))
                    > width
            },
{
    let parts = clusters(text);
    let widths = widths_of(parts);
    kept_is_longest(widths, width);
    let k = kept_count(widths, width) as int;
    assert(widths_of(parts.take(k)) =~= widths.take(k));
    if k < parts.len() {
        assert(widths_of(parts.take(k + 1)) =~= widths.take(k + 1));
    }
    assert(truncated(text, width) == flat(parts.take(k)));
}

/// What is fitted to a width is cut to it, and then filled out to it with spaces.
pub proof fn fitting_cuts_and_fills(text: Seq<char>, width: nat)
    ensures
        truncated(text, width).is_prefix_of(fitted(text, width)),
        columns(truncated(text, width)) < width ==> fitted(text, width).len() == truncated(
            text,
            width,
        ).len() + width - columns(truncated(text, width)),
        columns(truncated(text, width)) >= width ==> fitted(text, width) == truncated(text, width),
        forall|i: int|
            truncated(text, width).len() <= i < fitted(text, width).len() ==> #[trigger] fitted(
                text,
                width,
            )[i] == ' ',
{
    spaces_are_put_behind(truncated(text, width), width);
}

/// Columns are counted as they are, up to the most that the counter can hold.
pub proof fn columns_are_counted_as_they_are(columns: nat)
    ensures
        counted(columns) <= columns,
        counted(columns) <= usize::MAX,
        counted(columns) == columns || counted(columns) == usize::MAX,
{
}

} // verus!
