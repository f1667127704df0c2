//! The sort and filter options, and the arrangement of a directory's entries
//! that they prescribe.
use crate::entry::{
    bytes_le, bytes_le_from, extension_of, extension_offset, lemma_bytes_le_total,
    lemma_bytes_le_transitive, Entry,
};
use vstd::prelude::*;
use vstd::seq_lib::{to_multiset_build, to_multiset_insert};

verus! {

/// The key by which a directory's entries are ordered.
#[derive(Clone, Copy, Debug, PartialEq, Eq, Structural)]
pub enum SortType {
    Name,
    Size,
    Mtime,
    Extension,
}

/// The options that every listing is built under. A change to any of them
/// makes every cached listing out of date.
#[derive(Clone, Copy, Debug, PartialEq, Eq, Structural)]
pub struct SortOptions {
    pub method: SortType,
    pub reverse: bool,
    pub show_hidden: bool,
}

/// `a` does not sort behind `b` under `method`.
pub open spec fn entry_le(method: SortType, a: Entry, b: Entry) -> bool {
    match method {
        SortType::Name => bytes_le(a.name_bytes(), b.name_bytes()),
        SortType::Size => a.size <= b.size,
        SortType::Mtime => a.modified_time <= b.modified_time,
        SortType::Extension => bytes_le(
            extension_of(a.name_bytes()),
            extension_of(b.name_bytes()),
        ),
    }
}

/// `a` may stand before `b` in a listing built under `options`.
pub open spec fn comes_before(options: SortOptions, a: Entry, b: Entry) -> bool {
    if options.reverse {
        entry_le(options.method, b, a)
    } else {
        entry_le(options.method, a, b)
    }
}

/// Every entry of `s` may stand before all that follow it.
pub open spec fn is_ordered(s: Seq<Entry>, options: SortOptions) -> bool {
    forall|i: int, j: int| 0 <= i < j < s.len() ==> comes_before(options, s[i], s[j])
}

/// Whether an entry is shown at all.
pub open spec fn is_shown(e: Entry, show_hidden: bool) -> bool {
    show_hidden || !e.hidden()
}

/// The entries of `raw` that are shown, in the order they were read.
pub open spec fn visible(raw: Seq<Entry>, show_hidden: bool) -> Seq<Entry> {
    raw.filter(|e: Entry| is_shown(e, show_hidden))
}

/// Where `e` goes into the ordered sequence `s`: behind the last entry that
/// may stand before it.
pub open spec fn insert_position(s: Seq<Entry>, e: Entry, options: SortOptions) -> int
    decreases s.len(),
{
    if s.len() == 0 {
        0
    } else if comes_before(options, s.last(), e) {
        s.len() as int
    } else {
        insert_position(s.drop_last(), e, options)
    }
}

/// The listing order of `raw` under `options`: the shown entries, each put
/// behind the last earlier one that may stand before it.
pub open spec fn arranged(raw: Seq<Entry>, options: SortOptions) -> Seq<Entry>
    decreases raw.len(),
{
    if raw.len() == 0 {
        Seq::empty()
    } else {
        let rest = arranged(raw.drop_last(), options);
        if is_shown(raw.last(), options.show_hidden) {
            rest.insert(insert_position(rest, raw.last(), options), raw.last())
        } else {
            rest
        }
    }
}

/// Of two entries one may stand before the other.
pub proof fn lemma_comes_before_total(options: SortOptions, a: Entry, b: Entry)
    ensures
        comes_before(options, a, b) || comes_before(options, b, a),
{
    lemma_bytes_le_total(a.name_bytes(), b.name_bytes());
    lemma_bytes_le_total(extension_of(a.name_bytes()), extension_of(b.name_bytes()));
}

/// What may stand before an entry may stand before all that the entry may
/// stand before.
pub proof fn lemma_comes_before_transitive(options: SortOptions, a: Entry, b: Entry, c: Entry)
    requires
        comes_before(options, a, b),
        comes_before(options, b, c),
    ensures
        comes_before(options, a, c),
{
    let (x, y, z) = if options.reverse {
        (c, b, a)
    } else {
        (a, b, c)
    };
    match options.method {
        SortType::Name => lemma_bytes_le_transitive(x.name_bytes(), y.name_bytes(), z.name_bytes()),
        SortType::Extension => lemma_bytes_le_transitive(
            extension_of(x.name_bytes()),
            extension_of(y.name_bytes()),
            extension_of(z.name_bytes()),
        ),
        _ => {},
    }
}

/// The insert position splits `s`: the entry just before it may stand before
/// `e`, and none from it onwards may.
pub proof fn lemma_insert_position(s: Seq<Entry>, e: Entry, options: SortOptions)
    ensures
        0 <= insert_position(s, e, options) <= s.len(),
        insert_position(s, e, options) > 0 ==> comes_before(
            options,
            s[insert_position(s, e, options) - 1],
            e,
        ),
        forall|k: int|
            insert_position(s, e, options) <= k < s.len() ==> !comes_before(options, #[trigger] s[k], e),
    decreases s.len(),
{
    if s.len() > 0 && !comes_before(options, s.last(), e) {
        let front = s.drop_last();
        lemma_insert_position(front, e, options);
        assert forall|k: int| insert_position(s, e, options) <= k < s.len() implies !comes_before(
            options,
            #[trigger] s[k],
            e,
        ) by {
            if k < front.len() {
                assert(s[k] == front[k]);
            }
        }
    }
}

/// Inserting at the insert position keeps an ordered sequence ordered.
pub proof fn lemma_insert_keeps_order(s: Seq<Entry>, e: Entry, options: SortOptions)
    requires
        is_ordered(s, options),
    ensures
        is_ordered(s.insert(insert_position(s, e, options), e), options),
{
    let p = insert_position(s, e, options);
    let r = s.insert(p, e);
    lemma_insert_position(s, e, options);
    assert forall|i: int, j: int| 0 <= i < j < r.len() implies comes_before(options, r[i], r[j]) by {
        if j == p {
            if i < p - 1 {
                lemma_comes_before_transitive(options, s[i], s[p - 1], e);
            }
        } else if i == p {
            assert(!comes_before(options, s[j - 1], e));
            lemma_comes_before_total(options, s[j - 1], e);
        } else if i < p && j > p {
            assert(comes_before(options, s[i], s[j - 1]));
        } else if i > p {
            assert(comes_before(options, s[i - 1], s[j - 1]));
        } else {
            assert(comes_before(options, s[i], s[j]));
        }
    }
}

/// A listing is in the order its sort method prescribes, backwards when
/// `reverse` is set.
pub proof fn lemma_arranged_is_ordered(raw: Seq<Entry>, options: SortOptions)
    ensures
        is_ordered(arranged(raw, options), options),
    decreases raw.len(),
{
    if raw.len() > 0 {
        lemma_arranged_is_ordered(raw.drop_last(), options);
        lemma_insert_keeps_order(arranged(raw.drop_last(), options), raw.last(), options);
    }
}

/// A listing holds exactly the entries that are shown, each as often as it
/// was read: with `show_hidden` off, all but those whose name denotes hidden.
pub proof fn lemma_arranged_keeps_visible(raw: Seq<Entry>, options: SortOptions)
    ensures
        arranged(raw, options).to_multiset() == visible(raw, options.show_hidden).to_multiset(),
    decreases raw.len(),
{
    let shown = |e: Entry| is_shown(e, options.show_hidden);
    if raw.len() == 0 {
        reveal(Seq::filter);
        assert(visible(raw, options.show_hidden) =~= Seq::<Entry>::empty());
    } else {
        let front = raw.drop_last();
        let rest = arranged(front, options);
        lemma_arranged_keeps_visible(front, options);
        assert(raw =~= front.push(raw.last()));
        front.lemma_filter_push(raw.last(), shown);
        if is_shown(raw.last(), options.show_hidden) {
            lemma_insert_position(rest, raw.last(), options);
            to_multiset_insert(rest, insert_position(rest, raw.last(), options), raw.last());
            to_multiset_build(front.filter(shown), raw.last());
        }
    }
}

/// With `show_hidden` on, every entry that was read is shown.
pub proof fn lemma_show_hidden_shows_all(raw: Seq<Entry>)
    ensures
        visible(raw, true) == raw,
    decreases raw.len(),
{
    reveal(Seq::filter);
    if raw.len() > 0 {
        lemma_show_hidden_shows_all(raw.drop_last());
        assert(raw.drop_last().push(raw.last()) =~= raw);
    }
}

/// With `show_hidden` off, the entries that are shown are those whose name
/// does not denote hidden, and no others.
pub proof fn lemma_hidden_are_left_out(raw: Seq<Entry>, e: Entry)
    ensures
        visible(raw, false).contains(e) <==> raw.contains(e) && !e.hidden(),
{
    let shown = |x: Entry| is_shown(x, false);
    if visible(raw, false).contains(e) {
        let i = choose|i: int| 0 <= i < visible(raw, false).len() && visible(raw, false)[i] == e;
        raw.lemma_filter_pred(shown, i);
        raw.lemma_filter_contains_rev(shown, e);
    }
    if raw.contains(e) && !e.hidden() {
        let j = choose|j: int| 0 <= j < raw.len() && raw[j] == e;
        raw.lemma_filter_contains(shown, j);
    }
}

/// Setting `reverse` turns the prescribed order round: a sequence is in order
/// under the reversed options exactly when, read backwards, it is in order
/// under the plain ones.
pub proof fn lemma_reverse_flips_order(s: Seq<Entry>, options: SortOptions)
    ensures
        is_ordered(s, SortOptions { reverse: !options.reverse, ..options }) <==> is_ordered(
            s.reverse(),
            options,
        ),
{
    let flipped = SortOptions { reverse: !options.reverse, ..options };
    let r = s.reverse();
    if is_ordered(s, flipped) {
        assert forall|i: int, j: int| 0 <= i < j < r.len() implies comes_before(
            options,
            r[i],
            r[j],
        ) by {
            assert(comes_before(flipped, s[s.len() - 1 - j], s[s.len() - 1 - i]));
        }
    }
    if is_ordered(r, options) {
        assert forall|i: int, j: int| 0 <= i < j < s.len() implies comes_before(
            flipped,
            s[i],
            s[j],
        ) by {
            assert(comes_before(options, r[s.len() - 1 - j], r[s.len() - 1 - i]));
        }
    }
}

impl SortOptions {
    /// The options with the given values.
    pub fn new(method: SortType, reverse: bool, show_hidden: bool) -> (o: SortOptions)
        ensures
            o == (SortOptions { method, reverse, show_hidden }),
    {
        SortOptions { method, reverse, show_hidden }
    }

    /// Sets the sort method and leaves the rest.
    pub fn set_sort_method(&mut self, method: SortType)
        ensures
            *final(self) == (SortOptions { method, ..*old(self) }),
    {
        self.method = method;
    }

    /// Whether hidden entries are listed.
    pub fn show_hidden(&self) -> (b: bool)
        ensures
            b == self.show_hidden,
    {
        self.show_hidden
    }

    /// Sets whether hidden entries are listed and leaves the rest.
    pub fn set_show_hidden(&mut self, show_hidden: bool)
        ensures
            *final(self) == (SortOptions { show_hidden, ..*old(self) }),
    {
        self.show_hidden = show_hidden;
    }

    /// Whether `a` may stand before `b` in a listing built under these options.
    pub fn precedes(&self, a: &Entry, b: &Entry) -> (r: bool)
        ensures
            r == comes_before(*self, *a, *b),
    {
        let (x, y) = if self.reverse {
            (b, a)
        } else {
            (a, b)
        };
        match self.method {
            SortType::Name => {
                let xb = x.name.as_str().as_bytes();
                let yb = y.name.as_str().as_bytes();
                assert(xb@.skip(0) =~= xb@);
                assert(yb@.skip(0) =~= yb@);
                bytes_le_from(xb, 0, yb, 0)
            },
            SortType::Size => x.size <= y.size,
            SortType::Mtime => x.modified_time <= y.modified_time,
            SortType::Extension => {
                let xb = x.name.as_str().as_bytes();
                let yb = y.name.as_str().as_bytes();
                let xk = extension_offset(xb);
                let yk = extension_offset(yb);
                bytes_le_from(xb, xk, yb, yk)
            },
        }
    }

    /// Puts `e` into the ordered `out`, behind the last entry that may stand
    /// before it.
    fn place(&self, out: &mut Vec<Entry>, e: Entry)
        ensures
            final(out)@ == old(out)@.insert(insert_position(old(out)@, e, *self), e),
    {
        let ghost s = out@;
        let mut p: usize = out.len();
        let mut searching = true;
        assert(s.take(s.len() as int) =~= s);
        while searching && p > 0
            invariant
                out@ == s,
                p <= s.len(),
                insert_position(s, e, *self) == insert_position(s.take(p as int), e, *self),
                !searching ==> p > 0 && comes_before(*self, s[p - 1], e),
            decreases p + if searching { 1int } else { 0int },
        {
            if self.precedes(&out[p - 1], &e) {
                searching = false;
            } else {
                assert(s.take(p as int).drop_last() =~= s.take(p - 1));
                p -= 1;
            }
        }
        out.insert(p, e);
    }

    /// The listing order of the entries read from a directory: those that are
    /// shown, ordered by the sort method, backwards when `reverse` is set.
    pub fn arrange(&self, raw: &Vec<Entry>) -> (out: Vec<Entry>)
        ensures
            out@ == arranged(raw@, *self),
            is_ordered(out@, *self),
            out@.to_multiset() == visible(raw@, self.show_hidden).to_multiset(),
    {
        let mut out: Vec<Entry> = Vec::new();
        let mut i: usize = 0;
        while i < raw.len()
            invariant
                i <= raw@.len(),
                out@ == arranged(raw@.take(i as int), *self),
            decreases raw@.len() - i,
        {
            assert(raw@.take(i + 1).drop_last() =~= raw@.take(i as int));
            if self.show_hidden || !raw[i].is_hidden() {
                self.place(&mut out, raw[i].clone());
            }
            i += 1;
        }
        assert(raw@.take(raw@.len() as int) =~= raw@);
        proof {
            lemma_arranged_is_ordered(raw@, *self);
            lemma_arranged_keeps_visible(raw@, *self);
        }
        out
    }
}

impl Default for SortOptions {
    /// By name, forwards, hidden entries left out.
    fn default() -> (o: SortOptions)
        ensures
            o == (SortOptions { method: SortType::Name, reverse: false, show_hidden: false }),
    {
        SortOptions { method: SortType::Name, reverse: false, show_hidden: false }
    }
}

} // verus!
