//! Reading history and bookmarks.
//!
//! The history keeps one entry per domain: the last URL read there and the
//! scroll offset it was left at. A scroll offset is given back only for the
//! very URL it was saved for.
use vstd::prelude::*;

use crate::text::{owned, str_eq};
use crate::weburl::{UrlView, WebUrl};

verus! {

/// The last position read on one domain.
#[derive(Debug)]
pub struct HistoryEntry {
    pub url: String,
    pub scroll: u16,
    pub saved_at: u64,
}

/// A history entry as a value.
pub ghost struct EntryView {
    pub url: Seq<char>,
    pub scroll: u16,
    pub saved_at: u64,
}

impl View for HistoryEntry {
    type V = EntryView;

    open spec fn view(&self) -> EntryView {
        EntryView { url: self.url@, scroll: self.scroll, saved_at: self.saved_at }
    }
}

impl Clone for HistoryEntry {
    fn clone(&self) -> (r: Self)
        ensures
            r@ == self@,
    {
        HistoryEntry { url: self.url.clone(), scroll: self.scroll, saved_at: self.saved_at }
    }
}

/// A named, saved URL.
#[derive(Debug)]
pub struct Bookmark {
    pub name: String,
    pub url: String,
    pub saved_at: u64,
}

/// A bookmark as a value.
pub ghost struct BookmarkView {
    pub name: Seq<char>,
    pub url: Seq<char>,
    pub saved_at: u64,
}

impl View for Bookmark {
    type V = BookmarkView;

    open spec fn view(&self) -> BookmarkView {
        BookmarkView { name: self.name@, url: self.url@, saved_at: self.saved_at }
    }
}

impl Clone for Bookmark {
    fn clone(&self) -> (r: Self)
        ensures
            r@ == self@,
    {
        Bookmark { name: self.name.clone(), url: self.url.clone(), saved_at: self.saved_at }
    }
}

/// The views of a list of bookmarks.
pub open spec fn bookmarks_view(b: Seq<Bookmark>) -> Seq<BookmarkView> {
    b.map_values(|x: Bookmark| x@)
}

/// Viewing bookmarks after a push is pushing the view.
pub proof fn lemma_bookmarks_view_push(v: Seq<Bookmark>, b: Bookmark)
    ensures
        bookmarks_view(v.push(b)) == bookmarks_view(v).push(b@),
{
    assert(bookmarks_view(v.push(b)) =~= bookmarks_view(v).push(b@));
}

// ---------------------------------------------------------------------------
// History: a map from domain to entry
// ---------------------------------------------------------------------------

/// No domain occurs twice.
pub open spec fn keys_unique(e: Seq<(String, HistoryEntry)>) -> bool {
    forall|i: int, j: int| 0 <= i < j < e.len() ==> (#[trigger] e[i]).0@ != (#[trigger] e[j]).0@
}

/// The map that a list of (domain, entry) pairs stands for.
pub open spec fn map_of(e: Seq<(String, HistoryEntry)>) -> Map<Seq<char>, EntryView>
    decreases e.len(),
{
    if e.len() == 0 {
        Map::empty()
    } else {
        map_of(e.drop_last()).insert(e.last().0@, e.last().1@)
    }
}

/// Every key of the map is the domain of some pair.
pub proof fn lemma_map_of_key(e: Seq<(String, HistoryEntry)>, k: Seq<char>)
    requires
        map_of(e).contains_key(k),
    ensures
        exists|i: int| 0 <= i < e.len() && (#[trigger] e[i]).0@ == k,
    decreases e.len(),
{
    if e.len() > 0 && e.last().0@ != k {
        lemma_map_of_key(e.drop_last(), k);
        let i = choose|i: int| 0 <= i < e.drop_last().len() && (#[trigger] e.drop_last()[i]).0@ == k;
        assert(e[i] == e.drop_last()[i]);
    } else if e.len() > 0 {
        assert(e[e.len() - 1].0@ == k);
    }
}

/// With distinct domains, each pair is what the map holds for its domain.
pub proof fn lemma_map_of_index(e: Seq<(String, HistoryEntry)>, i: int)
    requires
        keys_unique(e),
        0 <= i < e.len(),
    ensures
        map_of(e).contains_key(e[i].0@),
        map_of(e)[e[i].0@] == e[i].1@,
    decreases e.len(),
{
    if i < e.len() - 1 {
        let d = e.drop_last();
        assert(keys_unique(d));
        assert(d[i] == e[i]);
        lemma_map_of_index(d, i);
        assert(e[i].0@ != e[e.len() - 1].0@);
    }
}

/// With distinct domains, the map has one key per pair.
pub proof fn lemma_map_of_len(e: Seq<(String, HistoryEntry)>)
    requires
        keys_unique(e),
    ensures
        map_of(e).dom().finite(),
        map_of(e).dom().len() == e.len(),
    decreases e.len(),
{
    if e.len() > 0 {
        let d = e.drop_last();
        assert(keys_unique(d));
        lemma_map_of_len(d);
        if map_of(d).contains_key(e.last().0@) {
            lemma_map_of_key(d, e.last().0@);
            let i = choose|i: int| 0 <= i < d.len() && (#[trigger] d[i]).0@ == e.last().0@;
            assert(e[i] == d[i]);
            assert(false);
        }
    }
}

/// Replacing the entry of a domain at its place is inserting it into the map.
pub proof fn lemma_map_of_update(
    e: Seq<(String, HistoryEntry)>,
    i: int,
    p: (String, HistoryEntry),
)
    requires
        keys_unique(e),
        0 <= i < e.len(),
        p.0@ == e[i].0@,
    ensures
        keys_unique(e.update(i, p)),
        map_of(e.update(i, p)) == map_of(e).insert(p.0@, p.1@),
{
    let u = e.update(i, p);
    assert(keys_unique(u)) by {
        assert forall|a: int, b: int| 0 <= a < b < u.len() implies (#[trigger] u[a]).0@ != (
        #[trigger] u[b]).0@ by {
            assert(e[a].0@ != e[b].0@);
        }
    }
    let m1 = map_of(u);
    let m2 = map_of(e).insert(p.0@, p.1@);
    assert forall|k: Seq<char>| m1.contains_key(k) <==> m2.contains_key(k) by {
        if m1.contains_key(k) {
            lemma_map_of_key(u, k);
            let j = choose|j: int| 0 <= j < u.len() && (#[trigger] u[j]).0@ == k;
            if j != i {
                assert(u[j] == e[j]);
                lemma_map_of_index(e, j);
            }
        }
        if m2.contains_key(k) && k != p.0@ {
            lemma_map_of_key(e, k);
            let j = choose|j: int| 0 <= j < e.len() && (#[trigger] e[j]).0@ == k;
            assert(u[j] == e[j]);
            lemma_map_of_index(u, j);
        }
        if k == p.0@ {
            lemma_map_of_index(u, i);
        }
    }
    assert forall|k: Seq<char>| m1.contains_key(k) implies m1[k] == m2[k] by {
        lemma_map_of_key(u, k);
        let j = choose|j: int| 0 <= j < u.len() && (#[trigger] u[j]).0@ == k;
        lemma_map_of_index(u, j);
        if j != i {
            assert(u[j] == e[j]);
            lemma_map_of_index(e, j);
        }
    }
    assert(m1 =~= m2);
}

/// The domain-to-entry history, one entry per domain.
#[derive(Debug)]
pub struct History {
    entries: Vec<(String, HistoryEntry)>,
}

impl View for History {
    type V = Map<Seq<char>, EntryView>;

    closed spec fn view(&self) -> Map<Seq<char>, EntryView> {
        map_of(self.entries@)
    }
}

impl History {
    #[verifier::type_invariant]
    closed spec fn distinct_domains(&self) -> bool {
        keys_unique(self.entries@)
    }

    /// An empty history.
    pub fn new() -> (h: History)
        ensures
            h@ == Map::<Seq<char>, EntryView>::empty(),
    {
        History { entries: Vec::new() }
    }

    /// The number of domains in the history.
    pub fn len(&self) -> (n: usize)
        ensures
            self@.dom().finite(),
            n == self@.dom().len(),
    {
        proof {
            use_type_invariant(self);
            lemma_map_of_len(self.entries@);
        }
        self.entries.len()
    }

    /// Where the entry for `domain` stands, if there is one.
    fn position(&self, domain: &str) -> (r: Option<usize>)
        ensures
            match r {
                Some(i) => i < self.entries@.len() && self.entries@[i as int].0@ == domain@,
                None => forall|i: int|
                    0 <= i < self.entries@.len() ==> (#[trigger] self.entries@[i]).0@ != domain@,
            },
    {
        let n = self.entries.len();
        for i in 0..n
            invariant
                n == self.entries@.len(),
                forall|j: int| 0 <= j < i ==> (#[trigger] self.entries@[j]).0@ != domain@,
        {
            if str_eq(self.entries[i].0.as_str(), domain) {
                return Some(i);
            }
        }
        None
    }

    /// The entry saved for `domain`.
    pub fn get(&self, domain: &str) -> (r: Option<&HistoryEntry>)
        ensures
            match r {
                Some(e) => self@.contains_key(domain@) && self@[domain@] == e@,
                None => !self@.contains_key(domain@),
            },
    {
        proof {
            use_type_invariant(self);
        }
        match self.position(domain) {
            Some(i) => {
                proof {
                    lemma_map_of_index(self.entries@, i as int);
                }
                Some(&self.entries[i].1)
            },
            None => {
                proof {
                    if self@.contains_key(domain@) {
                        lemma_map_of_key(self.entries@, domain@);
                    }
                }
                None
            },
        }
    }

    /// Sets the entry for `domain`, giving back the one it replaces.
    pub fn insert(&mut self, domain: String, entry: HistoryEntry) -> (r: Option<HistoryEntry>)
        ensures
            final(self)@ == old(self)@.insert(domain@, entry@),
            match r {
                Some(e) => old(self)@.contains_key(domain@) && old(self)@[domain@] == e@,
                None => !old(self)@.contains_key(domain@),
            },
    {
        proof {
            use_type_invariant(&*self);
        }
        match self.position(domain.as_str()) {
            Some(i) => {
                proof {
                    lemma_map_of_index(self.entries@, i as int);
                    lemma_map_of_update(self.entries@, i as int, (domain, entry));
                }
                let prev = self.entries[i].1.clone();
                let mut entries: Vec<(String, HistoryEntry)> = Vec::new();
                std::mem::swap(&mut entries, &mut self.entries);
                entries.set(i, (domain, entry));
                self.entries = entries;
                Some(prev)
            },
            None => {
                proof {
                    if old(self)@.contains_key(domain@) {
                        lemma_map_of_key(self.entries@, domain@);
                    }
                }
                let ghost before = self.entries@;
                let mut entries: Vec<(String, HistoryEntry)> = Vec::new();
                std::mem::swap(&mut entries, &mut self.entries);
                entries.push((domain, entry));
                assert(entries@.drop_last() =~= before);
                self.entries = entries;
                None
            },
        }
    }

    /// The (domain, entry) pairs, in the order the domains were first saved.
    pub fn pairs(&self) -> (r: &[(String, HistoryEntry)])
        ensures
            map_of(r@) == self@,
            keys_unique(r@),
    {
        proof {
            use_type_invariant(self);
        }
        self.entries.as_slice()
    }
}

// ---------------------------------------------------------------------------
// State
// ---------------------------------------------------------------------------

/// The scroll offset that the history gives back for a URL: the saved one,
/// when the entry for the URL's host was saved for this very URL.
pub open spec fn lookup_in(h: Map<Seq<char>, EntryView>, u: UrlView) -> Option<u16> {
    match u.host {
        Some(d) => if h.contains_key(d) && h[d].url == u.href {
            Some(h[d].scroll)
        } else {
            None
        },
        None => None,
    }
}

/// The history after saving `scroll` for `u` at time `now`; URLs without a
/// host are not saved.
pub open spec fn recorded(
    h: Map<Seq<char>, EntryView>,
    u: UrlView,
    scroll: u16,
    now: u64,
) -> Map<Seq<char>, EntryView> {
    match u.host {
        Some(d) => h.insert(d, EntryView { url: u.href, scroll, saved_at: now }),
        None => h,
    }
}

/// A scroll offset saved for a URL is given back for that URL (and nothing is
/// saved, hence nothing given back, for a URL without a host).
pub proof fn lemma_lookup_after_record(h: Map<Seq<char>, EntryView>, u: UrlView, scroll: u16, now: u64)
    ensures
        lookup_in(recorded(h, u, scroll, now), u) == if u.host is Some {
            Some(scroll)
        } else {
            None::<u16>
        },
{
}

/// Saving a position on a domain forgets the position of any other URL of that
/// domain: re-opening another chapter of the same site starts from the top.
pub proof fn lemma_record_replaces_domain(
    h: Map<Seq<char>, EntryView>,
    u: UrlView,
    v: UrlView,
    scroll: u16,
    now: u64,
)
    requires
        u.host is Some,
        v.host == u.host,
        v.href != u.href,
    ensures
        lookup_in(recorded(h, u, scroll, now), v) is None,
{
}

/// Saving a position leaves the positions saved for other domains as they were.
pub proof fn lemma_record_keeps_other_domains(
    h: Map<Seq<char>, EntryView>,
    u: UrlView,
    v: UrlView,
    scroll: u16,
    now: u64,
)
    requires
        v.host != u.host,
    ensures
        lookup_in(recorded(h, u, scroll, now), v) == lookup_in(h, v),
{
}

/// The history holds one entry per domain: saving a position adds an entry
/// only for a domain not seen before.
pub proof fn lemma_record_one_entry_per_domain(
    h: Map<Seq<char>, EntryView>,
    u: UrlView,
    scroll: u16,
    now: u64,
)
    requires
        h.dom().finite(),
    ensures
        recorded(h, u, scroll, now).dom().finite(),
        recorded(h, u, scroll, now).dom().len() == h.dom().len() + match u.host {
            Some(d) => if h.contains_key(d) { 0int } else { 1int },
            None => 0int,
        },
{
    match u.host {
        Some(d) => {
            if h.contains_key(d) {
                assert(h.insert(d, EntryView { url: u.href, scroll, saved_at: now }).dom() =~= h.dom());
            }
        },
        None => {},
    }
}

/// No two bookmarks share a name.
pub open spec fn names_unique(b: Seq<BookmarkView>) -> bool {
    forall|i: int, j: int| 0 <= i < j < b.len() ==> (#[trigger] b[i]).name != (#[trigger] b[j]).name
}

/// The bookmarks after saving one under `name`.
pub open spec fn with_bookmark(b: Seq<BookmarkView>, nb: BookmarkView) -> Seq<BookmarkView> {
    b.filter(|x: BookmarkView| x.name != nb.name).push(nb)
}

/// Saving a bookmark keeps bookmark names unique, and the saved bookmark is
/// the one found under its name.
pub proof fn lemma_bookmark_then_find(b: Seq<BookmarkView>, nb: BookmarkView)
    requires
        names_unique(b),
    ensures
        names_unique(with_bookmark(b, nb)),
        first_named(with_bookmark(b, nb), nb.name) == Some(with_bookmark(b, nb).len() - 1),
        with_bookmark(b, nb).last() == nb,
{
    let f = b.filter(|x: BookmarkView| x.name != nb.name);
    let w = with_bookmark(b, nb);
    assert forall|i: int| 0 <= i < f.len() implies (#[trigger] f[i]).name != nb.name by {
        b.lemma_filter_pred(|x: BookmarkView| x.name != nb.name, i);
    }
    assert(names_unique(f)) by {
        assert forall|i: int, j: int| 0 <= i < j < f.len() implies (#[trigger] f[i]).name != (
        #[trigger] f[j]).name by {
            filter_preserves_distinct_names(b, nb.name, i, j);
        }
    }
    assert forall|i: int, j: int| 0 <= i < j < w.len() implies (#[trigger] w[i]).name != (
    #[trigger] w[j]).name by {
        if j == w.len() - 1 {
            assert(w[i] == f[i]);
        } else {
            assert(w[i] == f[i] && w[j] == f[j]);
        }
    }
    let k = w.len() - 1;
    assert(w[k] == nb);
    assert(first_named(w, nb.name) == Some(k)) by {
        let c = choose|i: int|
            0 <= i < w.len() && (#[trigger] w[i]).name == nb.name && forall|j: int|
                0 <= j < i ==> (#[trigger] w[j]).name != nb.name;
        if c < k {
            assert(w[c] == f[c]);
        }
    }
}

/// Filtering keeps names distinct.
proof fn filter_preserves_distinct_names(b: Seq<BookmarkView>, name: Seq<char>, i: int, j: int)
    requires
        names_unique(b),
        0 <= i < j < b.filter(|x: BookmarkView| x.name != name).len(),
    ensures
        b.filter(|x: BookmarkView| x.name != name)[i].name != b.filter(|x: BookmarkView| x.name != name)[j].name,
    decreases b.len(),
{
    let p = |x: BookmarkView| x.name != name;
    let f = b.filter(p);
    reveal_with_fuel(Seq::<_>::filter, 1);
    let d = b.drop_last();
    assert(names_unique(d));
    let fd = d.filter(p);
    assert(b.filter(p) == if p(b.last()) { fd.push(b.last()) } else { fd });
    if j < fd.len() {
        filter_preserves_distinct_names(d, name, i, j);
    } else {
        // f[j] is b.last(); f[i] is some element of d, whose name differs from b.last()'s.
        assert(f[j] == b.last());
        assert(f[i] == fd[i]);
        assert(fd.contains(fd[i]));
        d.lemma_filter_contains_rev(p, fd[i]);
        let k = choose|k: int| 0 <= k < d.len() && d[k] == fd[i];
        assert(b[k] == d[k]);
        assert(b[b.len() - 1] == b.last());
    }
}

/// The first bookmark with the given name, by position.
pub open spec fn first_named(b: Seq<BookmarkView>, name: Seq<char>) -> Option<int> {
    if exists|i: int| 0 <= i < b.len() && (#[trigger] b[i]).name == name {
        Some(
            choose|i: int|
                0 <= i < b.len() && (#[trigger] b[i]).name == name && forall|j: int|
                    0 <= j < i ==> (#[trigger] b[j]).name != name,
        )
    } else {
        None
    }
}

/// Everything the reader keeps between runs.
#[derive(Debug)]
pub struct State {
    pub history: History,
    pub bookmarks: Vec<Bookmark>,
    /// How much larger (positive) or smaller (negative) the reading font is.
    pub font_size_step: i8,
}

impl Default for State {
    fn default() -> (s: State)
        ensures
            s.history@ == Map::<Seq<char>, EntryView>::empty(),
            s.bookmarks@.len() == 0,
            s.font_size_step == 0,
    {
        State { history: History::new(), bookmarks: Vec::new(), font_size_step: 0 }
    }
}

impl State {
    /// Saves the scroll offset for a URL, stamped with `now`.
    pub fn record_at(&mut self, url: &WebUrl, scroll: u16, now: u64)
        ensures
            final(self).history@ == recorded(old(self).history@, url@, scroll, now),
            final(self).bookmarks == old(self).bookmarks,
            final(self).font_size_step == old(self).font_size_step,
    {
        match url.host_str() {
            Some(domain) => {
                let entry = HistoryEntry { url: owned(url.as_str()), scroll, saved_at: now };
                self.history.insert(owned(domain), entry);
            },
            None => {},
        }
    }

    /// Saves the scroll offset for a URL, stamped with the current time.
    pub fn record(&mut self, url: &WebUrl, scroll: u16)
        ensures
            exists|t: u64| final(self).history@ == recorded(old(self).history@, url@, scroll, t),
            final(self).bookmarks == old(self).bookmarks,
            final(self).font_size_step == old(self).font_size_step,
    {
        let now = now_unix();
        self.record_at(url, scroll, now);
    }

    /// The scroll offset saved for exactly this URL.
    pub fn lookup(&self, url: &WebUrl) -> (r: Option<u16>)
        ensures
            r == lookup_in(self.history@, url@),
    {
        let domain = match url.host_str() {
            Some(d) => d,
            None => return None,
        };
        match self.history.get(domain) {
            Some(entry) => {
                if str_eq(entry.url.as_str(), url.as_str()) {
                    Some(entry.scroll)
                } else {
                    None
                }
            },
            None => None,
        }
    }

    /// The most recently saved history entry across all domains.
    pub fn latest(&self) -> (r: Option<&HistoryEntry>)
        ensures
            match r {
                None => self.history@.dom().len() == 0,
                Some(e) => {
                    &&& self.history@.dom().len() > 0
                    &&& exists|d: Seq<char>| #[trigger]
                        self.history@.contains_key(d) && self.history@[d] == e@
                    &&& forall|d: Seq<char>| #[trigger]
                        self.history@.contains_key(d) ==> self.history@[d].saved_at
                            <= e.saved_at
                },
            },
    {
        let pairs = self.history.pairs();
        proof {
            lemma_map_of_len(pairs@);
        }
        let n = pairs.len();
        if n == 0 {
            return None;
        }
        let mut best: usize = 0;
        for i in 1..n
            invariant
                n == pairs@.len(),
                best < n,
                forall|j: int| 0 <= j < i ==> (#[trigger] pairs@[j]).1.saved_at
                    <= pairs@[best as int].1.saved_at,
        {
            if pairs[i].1.saved_at >= pairs[best].1.saved_at {
                best = i;
            }
        }
        proof {
            lemma_map_of_index(pairs@, best as int);
            assert forall|d: Seq<char>| #[trigger]
                self.history@.contains_key(d) implies self.history@[d].saved_at
                <= pairs@[best as int].1.saved_at by {
                lemma_map_of_key(pairs@, d);
                let j = choose|j: int| 0 <= j < pairs@.len() && (#[trigger] pairs@[j]).0@ == d;
                lemma_map_of_index(pairs@, j);
            }
        }
        Some(&pairs[best].1)
    }

    /// Saves a bookmark under `name`, replacing any bookmark of that name; the
    /// new bookmark comes last.
    pub fn set_bookmark(&mut self, name: String, url: String, saved_at: u64)
        ensures
            bookmarks_view(final(self).bookmarks@) == bookmarks_view(old(self).bookmarks@).filter(
                |b: BookmarkView| b.name != name@,
            ).push(BookmarkView { name: name@, url: url@, saved_at }),
            final(self).history == old(self).history,
            final(self).font_size_step == old(self).font_size_step,
    {
        let ghost old_bv = bookmarks_view(self.bookmarks@);
        let mut kept: Vec<Bookmark> = Vec::new();
        let n = self.bookmarks.len();
        for i in 0..n
            invariant
                n == self.bookmarks@.len(),
                old_bv == bookmarks_view(self.bookmarks@),
                bookmarks_view(kept@) == old_bv.take(i as int).filter(
                    |b: BookmarkView| b.name != name@,
                ),
        {
            proof {
                assert(old_bv.take(i + 1).drop_last() =~= old_bv.take(i as int));
                reveal_with_fuel(Seq::<_>::filter, 1);
            }
            if !(self.bookmarks[i].name == name) {
                let b = self.bookmarks[i].clone();
                proof {
                    lemma_bookmarks_view_push(kept@, b);
                }
                kept.push(b);
            }
        }
        assert(old_bv.take(n as int) =~= old_bv);
        let b = Bookmark { name, url, saved_at };
        proof {
            lemma_bookmarks_view_push(kept@, b);
        }
        kept.push(b);
        self.bookmarks = kept;
    }

    /// The first bookmark with the given name.
    pub fn find_bookmark(&self, name: &str) -> (r: Option<&Bookmark>)
        ensures
            match r {
                Some(b) => first_named(bookmarks_view(self.bookmarks@), name@) matches Some(i)
                    && b@ == bookmarks_view(self.bookmarks@)[i],
                None => first_named(bookmarks_view(self.bookmarks@), name@) is None,
            },
    {
        let ghost bv = bookmarks_view(self.bookmarks@);
        let n = self.bookmarks.len();
        for i in 0..n
            invariant
                n == self.bookmarks@.len(),
                bv == bookmarks_view(self.bookmarks@),
                forall|j: int| 0 <= j < i ==> (#[trigger] bv[j]).name != name@,
        {
            if str_eq(self.bookmarks[i].name.as_str(), name) {
                assert(bv[i as int].name == name@);
                assert(first_named(bv, name@) == Some(i as int)) by {
                    let k = choose|k: int|
                        0 <= k < bv.len() && (#[trigger] bv[k]).name == name@ && forall|j: int|
                            0 <= j < k ==> (#[trigger] bv[j]).name != name@;
                    if k < i {
                    } else if k > i {
                        assert(bv[i as int].name == name@);
                    }
                }
                return Some(&self.bookmarks[i]);
            }
        }
        None
    }
}

// ---------------------------------------------------------------------------
// Clock
// ---------------------------------------------------------------------------

#[verifier::external_type_specification]
#[verifier::external_body]
pub struct ExSystemTime(std::time::SystemTime);

/// `std::time::SystemTime::now`: the current wall-clock time; nothing is
/// claimed about its value.
pub assume_specification[ std::time::SystemTime::now ]() -> std::time::SystemTime;

/// `SystemTime::duration_since(UNIX_EPOCH)`: the time passed since the Unix
/// epoch, `None` (in place of the error) for a time before it. Nothing is
/// claimed about which of the two comes, nor about the duration.
#[verifier::external_body]
fn since_epoch(t: &std::time::SystemTime) -> Option<std::time::Duration> {
    match t.duration_since(std::time::UNIX_EPOCH) {
        Ok(d) => Some(d),
        Err(_) => None,
    }
}

/// `core::time::Duration::as_secs`: a duration in whole seconds; the duration
/// is opaque here, so nothing is claimed about the value.
pub assume_specification[ core::time::Duration::as_secs ](d: &core::time::Duration) -> u64;

/// Seconds since the Unix epoch, or 0 when the clock is set before it.
pub fn now_unix() -> u64 {
    let t = std::time::SystemTime::now();
    match since_epoch(&t) {
        Some(d) => d.as_secs(),
        None => 0,
    }
}

} // verus!
